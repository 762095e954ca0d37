//! The service that sends what the microphone hears.
use crate::byte_order::{be_bytes_u64, u64_to_be_bytes};
use crate::frame::AAPFrameType;
use crate::packet::{packet_of, Packet, PacketView};
use crate::packet_router::ChannelPacketSender;
use crate::protos::{
    self, bare_service, AudioConfiguration, ConfigStatus, MediaCodecType, MediaSourceService,
    MicrophoneResponse, ProtoMessage, ProtoPacket, ServiceView,
};
use crate::service::media_sink::{
    build_config, is_config, MESSAGE_ID_ACK, MESSAGE_ID_SETUP, MESSAGE_ID_TIMESTAMPED_CONTENT,
};
use crate::service::Service;
use vstd::prelude::*;

verus! {

pub const MESSAGE_ID_MICROPHONE_REQUEST: u16 = 0x8005;

pub const MESSAGE_ID_MICROPHONE_RESPONSE: u16 = 0x8006;

pub const SAMPLING_RATE: u32 = 16000;

pub const SAMPLING_DEPTH_BITS: u8 = 16;

pub const CHANNELS: u8 = 1;

pub struct AudioSourceService {
    service_id: u8,
}

/// What a packet asks for.
#[derive(Debug, Clone, Copy, PartialEq, Eq, Structural)]
pub enum AudioSourceAction {
    Nothing,
    /// Decode the setup message, and answer it.
    Setup,
    /// Decode the request for the microphone, and answer it.
    MicrophoneRequest,
}

/// A way in which the microphone can be listened to.
#[derive(Debug, Clone, Copy, PartialEq, Eq, Structural)]
pub struct InputConfig {
    pub channels: u16,
    /// Whether its samples are signed numbers of 16 bits.
    pub is_i16: bool,
}

/// Whether the microphone is listened to in the way that the phone expects.
pub open spec fn is_usable_input(config: InputConfig) -> bool {
    config.channels == CHANNELS && config.is_i16
}

/// Whether a choice is the first usable way to listen to the microphone.
pub open spec fn is_chosen_input(configs: Seq<InputConfig>, chosen: Option<usize>) -> bool {
    match chosen {
        Some(index) => {
            &&& index < configs.len()
            &&& is_usable_input(configs[index as int])
            &&& forall|i: int| 0 <= i < index ==> !is_usable_input(#[trigger] configs[i])
        },
        None => forall|i: int|
            0 <= i < configs.len() ==> !is_usable_input(#[trigger] configs[i]),
    }
}

/// The first usable way to listen to the microphone.
pub fn choose_input_config(configs: &Vec<InputConfig>) -> (chosen: Option<usize>)
    ensures
        is_chosen_input(configs@, chosen),
{
    let mut index: usize = 0;
    while index < configs.len()
        invariant
            index <= configs@.len(),
            forall|i: int| 0 <= i < index ==> !is_usable_input(#[trigger] configs@[i]),
        decreases configs@.len() - index,
    {
        let config: InputConfig = configs[index];
        if config.channels == CHANNELS as u16 && config.is_i16 {
            return Some(index);
        }
        index = index + 1;
    }
    None
}

/// What a packet asks for.
pub open spec fn asked_of_microphone(packet: PacketView) -> AudioSourceAction {
    if packet.message_id() == MESSAGE_ID_SETUP {
        AudioSourceAction::Setup
    } else if packet.message_id() == MESSAGE_ID_MICROPHONE_REQUEST {
        AudioSourceAction::MicrophoneRequest
    } else {
        AudioSourceAction::Nothing
    }
}

/// What a packet asks for.
pub fn handle_packet(packet: &Packet) -> (action: AudioSourceAction)
    requires
        packet@.has_message_id(),
    ensures
        action == asked_of_microphone(packet@),
{
    match packet.message_id() {
        MESSAGE_ID_SETUP => AudioSourceAction::Setup,
        MESSAGE_ID_MICROPHONE_REQUEST => AudioSourceAction::MicrophoneRequest,
        MESSAGE_ID_ACK => AudioSourceAction::Nothing,
        _ => AudioSourceAction::Nothing,
    }
}

/// Whether a packet is the answer to a setup: the microphone is always ready.
pub open spec fn is_microphone_config(response: ProtoPacket, sender: ChannelPacketSender) -> bool {
    is_config(response, sender, None, ConfigStatus::Ready)
}

/// The answer to a setup: the microphone is always ready.
pub fn handle_setup(sender: &ChannelPacketSender) -> (response: ProtoPacket)
    ensures
        is_microphone_config(response, *sender),
{
    build_config(sender, None, ConfigStatus::Ready)
}

/// The answer to a setup message; one that could not be decoded is an error, and
/// is not answered.
pub fn handle_decoded_setup(sender: &ChannelPacketSender, decoded: bool) -> (response: Result<
    ProtoPacket,
    (),
>)
    ensures
        match response {
            Ok(response) => decoded && is_microphone_config(response, *sender),
            Err(_) => !decoded,
        },
{
    if decoded {
        Ok(handle_setup(sender))
    } else {
        Err(())
    }
}

/// What is done on a request for the microphone.
#[derive(Debug, PartialEq, Eq)]
pub enum MicrophoneAction {
    /// End the recording that is going on.
    EndRecording,
    Send(ProtoPacket),
    BeginRecording,
}

/// The answer to a request to open or close the microphone.
pub open spec fn microphone_response(sender: ChannelPacketSender, open: bool) -> ProtoPacket {
    sender.proto_packet(
        MESSAGE_ID_MICROPHONE_RESPONSE,
        ProtoMessage::MicrophoneResponse(
            MicrophoneResponse {
                session_id: Some(0),
                status: if open {
                    0
                } else {
                    1
                },
            },
        ),
    )
}

/// What is done on a request, in this order: a recording that is going on is
/// ended, the request is answered, and a recording is begun where the microphone
/// is to be open.
pub open spec fn microphone_actions(
    recording: bool,
    sender: ChannelPacketSender,
    open: bool,
) -> Seq<MicrophoneAction> {
    let ending = if recording {
        seq![MicrophoneAction::EndRecording]
    } else {
        Seq::empty()
    };
    let answering = ending.push(MicrophoneAction::Send(microphone_response(sender, open)));
    if open {
        answering.push(MicrophoneAction::BeginRecording)
    } else {
        answering
    }
}

/// Whether the microphone is being recorded from.
#[derive(Debug)]
pub struct MicrophoneSession {
    recording: bool,
}

/// What a request for the microphone comes to: `decoded` is whether it is to be
/// open, or nothing where the request could not be decoded. That is an error, on
/// which nothing is done.
pub open spec fn microphone_requested(
    before: MicrophoneSession,
    sender: ChannelPacketSender,
    decoded: Option<bool>,
    actions: Result<Vec<MicrophoneAction>, ()>,
    after: MicrophoneSession,
) -> bool {
    match decoded {
        Some(open) => {
            &&& actions matches Ok(actions)
            &&& actions@ == microphone_actions(before.is_recording(), sender, open)
            &&& after.is_recording() == open
        },
        None => {
            &&& actions is Err
            &&& after.is_recording() == before.is_recording()
        },
    }
}

impl MicrophoneSession {
    pub closed spec fn is_recording(&self) -> bool {
        self.recording
    }

    pub fn new() -> (session: Self)
        ensures
            !session.is_recording(),
    {
        MicrophoneSession { recording: false }
    }

    /// Decides on a request to open or close the microphone.
    pub fn handle_microphone_request(&mut self, sender: &ChannelPacketSender, open: bool) -> (
    actions: Vec<MicrophoneAction>)
        ensures
            microphone_requested(*old(self), *sender, Some(open), Ok(actions), *final(self)),
    {
        let mut actions: Vec<MicrophoneAction> = Vec::new();
        if self.recording {
            actions.push(MicrophoneAction::EndRecording);
        }
        let status: u32 = if open {
            0
        } else {
            1
        };
        let response = sender.send_proto(
            MESSAGE_ID_MICROPHONE_RESPONSE,
            ProtoMessage::MicrophoneResponse(MicrophoneResponse { session_id: Some(0), status }),
        );
        actions.push(MicrophoneAction::Send(response));
        if open {
            actions.push(MicrophoneAction::BeginRecording);
        }
        self.recording = open;
        assert(actions@ =~= microphone_actions(old(self).is_recording(), *sender, open));
        actions
    }

    /// Decides on a request for the microphone: whether it is to be open, or
    /// nothing where the request could not be decoded. That is an error, on which
    /// nothing is done.
    pub fn handle_decoded_request(
        &mut self,
        sender: &ChannelPacketSender,
        decoded: Option<bool>,
    ) -> (actions: Result<Vec<MicrophoneAction>, ()>)
        ensures
            microphone_requested(*old(self), *sender, decoded, actions, *final(self)),
    {
        match decoded {
            Some(open) => Ok(self.handle_microphone_request(sender, open)),
            None => Err(()),
        }
    }
}

/// All that is done on a sequence of requests, each of which is to open or to
/// close the microphone.
pub open spec fn all_microphone_actions(
    sender: ChannelPacketSender,
    requests: Seq<bool>,
) -> Seq<MicrophoneAction>
    decreases requests.len(),
{
    if requests.len() == 0 {
        Seq::empty()
    } else {
        let earlier = requests.drop_last();
        all_microphone_actions(sender, earlier) + microphone_actions(
            earlier.len() > 0 && earlier.last(),
            sender,
            requests.last(),
        )
    }
}

/// By how much an action changes the number of recordings that are going on.
pub open spec fn recording_change(action: MicrophoneAction) -> int {
    match action {
        MicrophoneAction::EndRecording => -1int,
        MicrophoneAction::Send(_) => 0,
        MicrophoneAction::BeginRecording => 1,
    }
}

/// How many recordings are going on after a number of actions.
pub open spec fn recordings(actions: Seq<MicrophoneAction>) -> int
    decreases actions.len(),
{
    if actions.len() == 0 {
        0
    } else {
        recordings(actions.drop_last()) + recording_change(actions.last())
    }
}

/// What one more action adds to the number of recordings.
proof fn lemma_recordings_after_action(
    done: Seq<MicrophoneAction>,
    actions: Seq<MicrophoneAction>,
    index: int,
)
    requires
        0 <= index < actions.len(),
    ensures
        recordings(done + actions.take(index + 1)) == recordings(done + actions.take(index))
            + recording_change(actions[index]),
{
    assert((done + actions.take(index + 1)).drop_last() =~= done + actions.take(index));
}

/// What one more request adds to the number of recordings, step by step.
proof fn lemma_recordings_of_request(
    done: Seq<MicrophoneAction>,
    sender: ChannelPacketSender,
    recording: bool,
    open: bool,
)
    requires
        recordings(done) == if recording { 1int } else { 0 },
    ensures
        ({
            let actions = microphone_actions(recording, sender, open);
            &&& recordings(done + actions) == if open { 1int } else { 0 }
            &&& forall|count: int|
                0 <= count <= actions.len() ==> 0 <= #[trigger] recordings(
                    done + actions.take(count),
                ) <= 1
        }),
{
    let actions = microphone_actions(recording, sender, open);
    assert(done + actions.take(0) =~= done);
    lemma_recordings_after_action(done, actions, 0);
    if actions.len() > 1 {
        lemma_recordings_after_action(done, actions, 1);
    }
    if actions.len() > 2 {
        lemma_recordings_after_action(done, actions, 2);
    }
    assert(done + actions.take(actions.len() as int) =~= done + actions);
    assert forall|count: int| 0 <= count <= actions.len() implies 0 <= #[trigger] recordings(
        done + actions.take(count),
    ) <= 1 by {
        assert(count == 0 || count == 1 || count == 2 || count == 3);
    }
}

/// At no moment are there two recordings, and a recording is ended only where
/// there is one; after a request there is one if and only if the request was to
/// open the microphone.
pub proof fn there_is_at_most_one_recording(
    sender: ChannelPacketSender,
    requests: Seq<bool>,
    count: int,
)
    requires
        0 <= count <= all_microphone_actions(sender, requests).len(),
    ensures
        0 <= recordings(all_microphone_actions(sender, requests).take(count)) <= 1,
        recordings(all_microphone_actions(sender, requests)) == if requests.len() > 0
            && requests.last() {
            1int
        } else {
            0
        },
    decreases requests.len(),
{
    let all = all_microphone_actions(sender, requests);
    if requests.len() == 0 {
        assert(all.take(count) =~= Seq::<MicrophoneAction>::empty());
    } else {
        let earlier = requests.drop_last();
        let recording = earlier.len() > 0 && earlier.last();
        let done = all_microphone_actions(sender, earlier);
        let actions = microphone_actions(recording, sender, requests.last());
        there_is_at_most_one_recording(sender, earlier, 0);
        lemma_recordings_of_request(done, sender, recording, requests.last());
        if count <= done.len() {
            there_is_at_most_one_recording(sender, earlier, count);
            assert(all.take(count) =~= done.take(count));
        } else {
            assert(all.take(count) =~= done + actions.take(count - done.len()));
        }
    }
}

/// The packet for a piece of sound that was recorded at the given time.
pub open spec fn content_packet(
    sender: ChannelPacketSender,
    timestamp_micros: u64,
    sound: Seq<u8>,
) -> PacketView {
    packet_of(
        sender.channel_id,
        AAPFrameType::ChannelSpecific,
        true,
        MESSAGE_ID_TIMESTAMPED_CONTENT,
        be_bytes_u64(timestamp_micros) + sound,
    )
}

/// The packet for a piece of sound that was recorded at the given time, in
/// microseconds since the beginning of 1970.
pub fn build_content_packet(sender: &ChannelPacketSender, timestamp_micros: u64, sound: &[u8]) -> (
packet: Packet)
    ensures
        packet@ == content_packet(*sender, timestamp_micros, sound@),
{
    let mut content: Vec<u8> = Vec::new();
    let timestamp_bytes: [u8; 8] = u64_to_be_bytes(timestamp_micros);
    content.extend_from_slice(timestamp_bytes.as_slice());
    content.extend_from_slice(sound);
    assert(content@ =~= be_bytes_u64(timestamp_micros) + sound@);
    sender.send_raw(MESSAGE_ID_TIMESTAMPED_CONTENT, content.as_slice())
}

/// What the phone is told of the microphone.
pub open spec fn microphone_descriptor(service_id: u8) -> ServiceView {
    ServiceView {
        media_source_service: Some(
            MediaSourceService {
                available_type: Some(MediaCodecType::MediaCodecAudioPcm),
                audio_config: Some(
                    AudioConfiguration {
                        sampling_rate: SAMPLING_RATE,
                        number_of_bits: SAMPLING_DEPTH_BITS as u32,
                        number_of_channels: CHANNELS as u32,
                    },
                ),
            },
        ),
        ..bare_service(service_id as i32)
    }
}

impl AudioSourceService {
    pub fn new(service_id: u8) -> (service: Self)
        ensures
            service.descriptor() == microphone_descriptor(service_id),
    {
        AudioSourceService { service_id }
    }
}

impl Service for AudioSourceService {
    closed spec fn descriptor(&self) -> ServiceView {
        microphone_descriptor(self.service_id)
    }

    fn get_id(&self) -> (id: i32) {
        self.service_id as i32
    }

    fn get_descriptor(&self) -> (descriptor: protos::Service) {
        let mut descriptor = protos::Service::bare(self.get_id());
        descriptor.media_source_service =
        Some(
            MediaSourceService {
                available_type: Some(MediaCodecType::MediaCodecAudioPcm),
                audio_config: Some(
                    AudioConfiguration {
                        sampling_rate: SAMPLING_RATE,
                        number_of_bits: SAMPLING_DEPTH_BITS as u32,
                        number_of_channels: CHANNELS as u32,
                    },
                ),
            },
        );
        descriptor
    }
}

/// The microphone is set up by message 0x8000, and opened and closed by message
/// 0x8005; nothing is done on others.
pub proof fn the_microphone_does_what_it_is_asked_for(packet: PacketView)
    requires
        packet.message_id_and_payload.len() >= 2,
    ensures
        ({
            let bytes = packet.message_id_and_payload;
            let action = asked_of_microphone(packet);
            &&& action is Setup <==> bytes[0] == 0x80 && bytes[1] == 0
            &&& action is MicrophoneRequest <==> bytes[0] == 0x80 && bytes[1] == 5
            &&& action is Nothing <==> !(bytes[0] == 0x80 && (bytes[1] == 0 || bytes[1] == 5))
        }),
{
}

/// The microphone is listened to in the first of the ways that have one channel and
/// samples of 16 bits; where there is such a way, one is chosen.
pub proof fn the_microphone_finds_its_input(
    configs: Seq<InputConfig>,
    chosen: Option<usize>,
    index: int,
)
    requires
        is_chosen_input(configs, chosen),
        0 <= index < configs.len(),
    ensures
        chosen matches Some(chosen) ==> {
            &&& chosen < configs.len()
            &&& configs[chosen as int].channels == 1
            &&& configs[chosen as int].is_i16
        },
        configs[index].channels == 1 && configs[index].is_i16 ==> chosen is Some && chosen->0
            <= index,
{
}

/// The phone is told, under the number of the service, of one channel with 16000
/// samples of 16 bits in a second, which are not compressed; and of nothing else.
pub proof fn the_microphone_is_described_as_it_is(service_id: u8)
    ensures
        ({
            let descriptor = microphone_descriptor(service_id);
            &&& descriptor.id == service_id
            &&& descriptor.sensor_source_service is None
            &&& descriptor.media_sink_service is None
            &&& descriptor.input_source_service is None
            &&& descriptor.media_source_service matches Some(source)
            &&& source.available_type == Some(MediaCodecType::MediaCodecAudioPcm)
            &&& source.audio_config matches Some(config)
            &&& config.sampling_rate == 16000
            &&& config.number_of_bits == 16
            &&& config.number_of_channels == 1
        }),
{
}

/// Every request is answered once, encrypted on the channel of the service, as
/// message 0x8006 of session 0: with status 0 where the microphone is opened, and
/// with status 1 where it is closed. What is recorded so far ends before the
/// answer, and what is recorded next begins behind it.
pub proof fn each_request_is_answered_once(
    recording: bool,
    sender: ChannelPacketSender,
    open: bool,
    index: int,
)
    ensures
        ({
            let actions = microphone_actions(recording, sender, open);
            let answer: int = if recording {
                1
            } else {
                0
            };
            &&& actions.len() == answer + 1 + if open {
                1int
            } else {
                0
            }
            &&& 0 <= index < actions.len() ==> {
                &&& actions[index] is EndRecording <==> index < answer
                &&& actions[index] is Send <==> index == answer
                &&& actions[index] is BeginRecording <==> index > answer
            }
            &&& actions[answer] matches MicrophoneAction::Send(packet)
            &&& packet.channel_id == sender.channel_id
            &&& packet.frame_type is ChannelSpecific
            &&& packet.encrypted
            &&& packet.message_id == 0x8006
            &&& packet.message matches ProtoMessage::MicrophoneResponse(response)
            &&& response.session_id == Some(0i32)
            &&& response.status == if open {
                0u32
            } else {
                1u32
            }
        }),
{
}

/// A setup is answered on the channel of the service by message 0x8003: the
/// microphone is ready, and no number of messages under way is named.
pub proof fn the_microphone_is_always_ready(response: ProtoPacket, sender: ChannelPacketSender)
    requires
        is_microphone_config(response, sender),
    ensures
        response.channel_id == sender.channel_id,
        response.encrypted,
        response.message_id == 0x8003,
        response.message is Config,
        response.message->Config_0.status is Ready,
        response.message->Config_0.max_unacked is None,
        response.message->Config_0.configuration_indices@.len() == 1,
        response.message->Config_0.configuration_indices@[0] == 0,
{
}

/// There is a recording after a request if and only if the request was to open the
/// microphone; a recording that was going on is ended first, and what is done for
/// the request is done once. A request that cannot be read is an error that changes
/// nothing.
pub proof fn a_request_is_obeyed(
    before: MicrophoneSession,
    sender: ChannelPacketSender,
    decoded: Option<bool>,
    actions: Result<Vec<MicrophoneAction>, ()>,
    after: MicrophoneSession,
)
    requires
        microphone_requested(before, sender, decoded, actions, after),
    ensures
        actions is Ok <==> decoded is Some,
        decoded is None ==> after.is_recording() == before.is_recording(),
        decoded matches Some(open) ==> {
            let done = actions->Ok_0@;
            &&& after.is_recording() == open
            &&& done.len() > 0
            &&& done.first() is EndRecording <==> before.is_recording()
            &&& done.last() is BeginRecording <==> open
            &&& recordings(done) == (if open {
                1int
            } else {
                0
            }) - (if before.is_recording() {
                1int
            } else {
                0
            })
        },
{
    if let Some(open) = decoded {
        let done = actions->Ok_0@;
        each_request_is_answered_once(before.is_recording(), sender, open, 0);
        each_request_is_answered_once(before.is_recording(), sender, open, done.len() - 1);
        reveal_with_fuel(recordings, 4);
    }
}

/// Recorded sound goes out encrypted on the channel of the service as message 0:
/// eight bytes with its time, the most significant first, and then the sound as it
/// is.
pub proof fn recorded_sound_carries_its_time(
    sender: ChannelPacketSender,
    timestamp_micros: u64,
    sound: Seq<u8>,
)
    ensures
        ({
            let packet = content_packet(sender, timestamp_micros, sound);
            let bytes = packet.message_id_and_payload;
            &&& packet.channel_id == sender.channel_id
            &&& packet.frame_type is ChannelSpecific
            &&& packet.encrypted
            &&& bytes.len() == sound.len() + 10
            &&& bytes[0] == 0 && bytes[1] == 0
            &&& 0x1_0000_0000 * (0x100_0000 * bytes[2] + 0x1_0000 * bytes[3] + 0x100 * bytes[4]
                + bytes[5]) + (0x100_0000 * bytes[6] + 0x1_0000 * bytes[7] + 0x100 * bytes[8]
                + bytes[9]) == timestamp_micros
            &&& forall|i: int| 0 <= i < sound.len() ==> bytes[i + 10] == #[trigger] sound[i]
        }),
{
    crate::byte_order::the_first_byte_is_written_first(0, 0, timestamp_micros);
    let time = be_bytes_u64(timestamp_micros);
    let bytes = content_packet(sender, timestamp_micros, sound).message_id_and_payload;
    assert(time.len() == 8);
    assert forall|i: int| 0 <= i < 8 implies bytes[i + 2] == #[trigger] time[i] by {}
    assert(time[0] == bytes[2] && time[1] == bytes[3] && time[2] == bytes[4] && time[3]
        == bytes[5]);
    assert(time[4] == bytes[6] && time[5] == bytes[7] && time[6] == bytes[8] && time[7]
        == bytes[9]);
}

} // verus!
