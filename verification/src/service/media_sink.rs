//! Services that play what the phone sends.
use crate::byte_order::{be_bytes_u64, be_u64, be_u64_inverts_bytes, read_u64};
use crate::packet::{Packet, PacketView};
use crate::packet_router::ChannelPacketSender;
use crate::protos::{
    self, bare_service, Ack, Config, ConfigStatus, MediaCodecType, MediaSinkService,
    MediaSinkServiceView, ProtoMessage, ProtoPacket, ServiceView,
};
use crate::sequences::{concat, lemma_concat_push};
use crate::service::Service;
use std::sync::Arc;
use vstd::prelude::*;

verus! {

pub const MESSAGE_ID_TIMESTAMPED_CONTENT: u16 = 0x0000;

pub const MESSAGE_ID_CONTENT: u16 = 0x0001;

pub const MESSAGE_ID_SETUP: u16 = 0x8000;

pub const MESSAGE_ID_START: u16 = 0x8001;

pub const MESSAGE_ID_STOP: u16 = 0x8002;

pub const MESSAGE_ID_CONFIG: u16 = 0x8003;

pub const MESSAGE_ID_ACK: u16 = 0x8004;

/// How many content messages the phone may send without an acknowledgement.
pub const MAX_UNACKED_CONTENT_MESSAGES: usize = 20;

/// What knows how streams of some kind are played.
pub trait StreamRendererFactory {
    type Spec;

    /// What the phone is told of a stream.
    spec fn descriptor(&self, spec: &Self::Spec) -> MediaSinkServiceView;

    fn get_descriptor(&self, spec: &Self::Spec) -> (descriptor: MediaSinkService)
        ensures
            descriptor@ == self.descriptor(spec),
    ;
}

/// A service for one stream.
pub struct MediaService<P: StreamRendererFactory> {
    service_id: u8,
    spec: P::Spec,
    stream_processor_factory: Arc<P>,
}

/// What the phone is told of a service for a stream.
pub open spec fn stream_descriptor(service_id: u8, stream: MediaSinkServiceView) -> ServiceView {
    ServiceView { media_sink_service: Some(stream), ..bare_service(service_id as i32) }
}

impl<P: StreamRendererFactory> MediaService<P> {
    pub fn new(service_id: u8, stream_processor_factory: Arc<P>, spec: P::Spec) -> (service: Self)
        ensures
            service.descriptor() == stream_descriptor(
                service_id,
                stream_processor_factory.descriptor(&spec),
            ),
    {
        MediaService { service_id, stream_processor_factory, spec }
    }
}

impl<P: StreamRendererFactory> Service for MediaService<P> {
    closed spec fn descriptor(&self) -> ServiceView {
        stream_descriptor(self.service_id, self.stream_processor_factory.descriptor(&self.spec))
    }

    fn get_id(&self) -> (id: i32) {
        self.service_id as i32
    }

    fn get_descriptor(&self) -> (descriptor: protos::Service) {
        let mut descriptor = protos::Service::bare(self.get_id());
        descriptor.media_sink_service =
        Some(self.stream_processor_factory.get_descriptor(&self.spec));
        descriptor
    }
}

/// What a packet asks of a stream.
#[derive(Debug)]
pub enum MediaAction {
    Nothing,
    /// Play the content, and acknowledge it.
    Play { timestamp_micros: u64, content: Vec<u8> },
    /// Decode the setup message, and set the stream up.
    Setup,
    /// Start playing, decode the start message, and note the session.
    Start,
    /// Stop playing.
    Stop,
}

/// How far a stream has come.
#[derive(Debug)]
pub struct MediaSession {
    is_setup: bool,
    session_id: Option<i32>,
    unacked_content_messages: Vec<u64>,
}

/// What a packet asks of a stream, by whether there is something that plays it and
/// whether content can be played. Content for a stream that is not set up or not
/// started is an error, and so is starting or stopping one that is not set up.
pub open spec fn asked_of_stream(
    is_setup: bool,
    plays: bool,
    packet: PacketView,
    action: Result<MediaAction, ()>,
) -> bool {
    let message_id = packet.message_id();
    if message_id == MESSAGE_ID_TIMESTAMPED_CONTENT {
        match action {
            Ok(action) => {
                &&& plays
                &&& action matches MediaAction::Play { timestamp_micros, content }
                &&& timestamp_micros == be_u64(packet.payload())
                &&& content@ == packet.payload().skip(8)
            },
            Err(_) => !plays,
        }
    } else if message_id == MESSAGE_ID_SETUP {
        action == Ok::<_, ()>(MediaAction::Setup)
    } else if message_id == MESSAGE_ID_START {
        action == (if is_setup {
            Ok(MediaAction::Start)
        } else {
            Err(())
        })
    } else if message_id == MESSAGE_ID_STOP {
        action == (if is_setup {
            Ok(MediaAction::Stop)
        } else {
            Err(())
        })
    } else {
        action == Ok::<_, ()>(MediaAction::Nothing)
    }
}

/// The acknowledgement that is due once one more content message has been
/// played, and what is unacknowledged after it.
pub open spec fn acknowledged(unacked: Seq<u64>, timestamp_micros: u64) -> (
    Option<Seq<u64>>,
    Seq<u64>,
) {
    let played = unacked.push(timestamp_micros);
    if played.len() >= MAX_UNACKED_CONTENT_MESSAGES - 1 {
        (Some(played), Seq::empty())
    } else {
        (None, played)
    }
}

/// The acknowledgements of a sequence of content messages, and what is
/// unacknowledged after them.
pub open spec fn acknowledgements(unacked: Seq<u64>, timestamps: Seq<u64>) -> (
    Seq<Seq<u64>>,
    Seq<u64>,
)
    decreases timestamps.len(),
{
    if timestamps.len() == 0 {
        (Seq::empty(), unacked)
    } else {
        let (acks, left) = acknowledgements(unacked, timestamps.drop_last());
        match acknowledged(left, timestamps.last()) {
            (Some(ack), left) => (acks.push(ack), left),
            (None, left) => (acks, left),
        }
    }
}

/// Whether a packet acknowledges the content messages with these timestamps.
pub open spec fn is_ack(
    packet: ProtoPacket,
    sender: ChannelPacketSender,
    session_id: i32,
    timestamps: Seq<u64>,
) -> bool {
    &&& packet == sender.proto_packet(MESSAGE_ID_ACK, packet.message)
    &&& packet.message matches ProtoMessage::Ack(ack)
    &&& ack.ack == Some(1u32)
    &&& ack.receive_timestamp_ns@ == timestamps
    &&& ack.session_id == session_id
}

/// Whether a packet tells the phone how it may send content.
pub open spec fn is_config(
    packet: ProtoPacket,
    sender: ChannelPacketSender,
    max_unacked: Option<u32>,
    status: ConfigStatus,
) -> bool {
    &&& packet == sender.proto_packet(MESSAGE_ID_CONFIG, packet.message)
    &&& packet.message matches ProtoMessage::Config(config)
    &&& config.max_unacked == max_unacked
    &&& config.configuration_indices@ == seq![0u32]
    &&& config.status == status
}

/// The message that tells the phone how it may send content.
pub fn build_config(
    sender: &ChannelPacketSender,
    max_unacked: Option<u32>,
    status: ConfigStatus,
) -> (packet: ProtoPacket)
    ensures
        is_config(packet, *sender, max_unacked, status),
{
    let configuration_indices: Vec<u32> = vec![0];
    assert(configuration_indices@ =~= seq![0u32]);
    sender.send_proto(
        MESSAGE_ID_CONFIG,
        ProtoMessage::Config(Config { max_unacked, configuration_indices, status }),
    )
}

/// The codec that a stream is offered in; where none is named, it is the first of
/// them.
pub open spec fn offered_codec(available_type: Option<MediaCodecType>) -> MediaCodecType {
    match available_type {
        Some(available) => available,
        None => MediaCodecType::MediaCodecAudioPcm,
    }
}

/// Whether the phone has asked for the codec that a stream is offered in.
pub fn is_offered_codec(descriptor: &MediaSinkService, requested: MediaCodecType) -> (offered: bool)
    ensures
        offered == (requested == offered_codec(descriptor.available_type)),
{
    match descriptor.available_type {
        Some(available) => available == requested,
        None => requested == MediaCodecType::MediaCodecAudioPcm,
    }
}

/// What a setup message comes to: `decoded` is whether there is now something that
/// plays the stream, or nothing where the message could not be decoded. That is an
/// error, on which nothing is sent.
pub open spec fn stream_set_up(
    before: MediaSession,
    sender: ChannelPacketSender,
    decoded: Option<bool>,
    response: Result<ProtoPacket, ()>,
    after: MediaSession,
) -> bool {
    &&& after.session() == before.session()
    &&& after.unacked() == before.unacked()
    &&& match decoded {
        Some(created) => {
            &&& after.is_setup() == created
            &&& response matches Ok(packet)
            &&& is_config(
                packet,
                sender,
                Some(MAX_UNACKED_CONTENT_MESSAGES as u32),
                if created {
                    ConfigStatus::Ready
                } else {
                    ConfigStatus::Wait
                },
            )
        },
        None => {
            &&& after.is_setup() == before.is_setup()
            &&& response is Err
        },
    }
}

/// What a start message comes to: `decoded` is the session that it starts, or
/// nothing where it could not be decoded. That is an error.
pub open spec fn stream_started(
    before: MediaSession,
    decoded: Option<i32>,
    result: Result<(), ()>,
    after: MediaSession,
) -> bool {
    &&& after.is_setup() == before.is_setup()
    &&& after.unacked() == before.unacked()
    &&& match decoded {
        Some(session_id) => {
            &&& after.session() == Some(session_id)
            &&& result is Ok
        },
        None => {
            &&& after.session() == before.session()
            &&& result is Err
        },
    }
}

/// What it comes to that content has been played.
pub open spec fn content_played(
    before: MediaSession,
    sender: ChannelPacketSender,
    timestamp_micros: u64,
    ack: Option<ProtoPacket>,
    after: MediaSession,
) -> bool {
    let (due, left) = acknowledged(before.unacked(), timestamp_micros);
    &&& after.is_setup() == before.is_setup()
    &&& after.session() == before.session()
    &&& after.unacked() == left
    &&& match ack {
        Some(packet) => {
            &&& due matches Some(timestamps)
            &&& is_ack(packet, sender, before.session()->0, timestamps)
        },
        None => due is None,
    }
}

impl MediaSession {
    /// Whether there is something that plays the stream.
    pub closed spec fn is_setup(&self) -> bool {
        self.is_setup
    }

    /// The session that the phone has started.
    pub closed spec fn session(&self) -> Option<i32> {
        self.session_id
    }

    /// The timestamps of the content that has not been acknowledged.
    pub closed spec fn unacked(&self) -> Seq<u64> {
        self.unacked_content_messages@
    }

    /// Whether content can be played.
    pub open spec fn plays(&self) -> bool {
        self.is_setup() && self.session() is Some
    }

    /// Whether an acknowledgement is never overdue.
    pub open spec fn wf(&self) -> bool {
        self.unacked().len() < MAX_UNACKED_CONTENT_MESSAGES - 1
    }

    pub fn new() -> (session: Self)
        ensures
            session.wf(),
            !session.is_setup(),
            session.session() is None,
            session.unacked() == Seq::<u64>::empty(),
    {
        MediaSession {
            is_setup: false,
            session_id: None,
            unacked_content_messages: Vec::new(),
        }
    }

    /// Whether a packet is long enough to be handled.
    pub open spec fn accepts(&self, packet: &Packet) -> bool {
        &&& packet@.has_message_id()
        &&& packet@.message_id() == MESSAGE_ID_TIMESTAMPED_CONTENT && self.plays()
            ==> packet@.payload().len() >= 8
    }

    /// Whether a packet is long enough to be handled.
    pub fn accepts_packet(&self, packet: &Packet) -> (accepted: bool)
        ensures
            accepted == self.accepts(packet),
    {
        packet.has_message_id() && (packet.message_id() != MESSAGE_ID_TIMESTAMPED_CONTENT || !(
        self.is_setup && self.session_id.is_some()) || packet.payload().len() >= 8)
    }

    /// What a packet asks for. Content for a stream that is not set up or not
    /// started is an error, and so is starting or stopping one that is not set
    /// up.
    pub fn handle_packet(&self, packet: &Packet) -> (action: Result<MediaAction, ()>)
        requires
            self.accepts(packet),
        ensures
            asked_of_stream(self.is_setup(), self.plays(), packet@, action),
    {
        match packet.message_id() {
            MESSAGE_ID_TIMESTAMPED_CONTENT => {
                if self.session_id.is_none() || !self.is_setup {
                    return Err(());
                }
                let payload: &[u8] = packet.payload();
                let timestamp_micros: u64 = read_u64(payload);
                let mut content: Vec<u8> = Vec::new();
                content.extend_from_slice(&payload[8..payload.len()]);
                assert(content@ =~= packet@.payload().skip(8));
                Ok(MediaAction::Play { timestamp_micros, content })
            },
            MESSAGE_ID_SETUP => Ok(MediaAction::Setup),
            MESSAGE_ID_START => if self.is_setup {
                Ok(MediaAction::Start)
            } else {
                Err(())
            },
            MESSAGE_ID_STOP => if self.is_setup {
                Ok(MediaAction::Stop)
            } else {
                Err(())
            },
            _ => Ok(MediaAction::Nothing),
        }
    }

    /// Takes in that the phone has asked for a setup, and whether there is now
    /// something that plays the stream; gives the answer.
    pub fn handle_setup(&mut self, sender: &ChannelPacketSender, created: bool) -> (response:
        ProtoPacket)
        requires
            old(self).wf(),
        ensures
            final(self).wf(),
            stream_set_up(*old(self), *sender, Some(created), Ok(response), *final(self)),
    {
        self.is_setup = created;
        build_config(
            sender,
            Some(MAX_UNACKED_CONTENT_MESSAGES as u32),
            if created {
                ConfigStatus::Ready
            } else {
                ConfigStatus::Wait
            },
        )
    }

    /// Takes in what a setup message has come to: whether there is now something
    /// that plays the stream, or nothing where the message could not be decoded.
    /// That is an error, on which nothing is sent.
    pub fn handle_decoded_setup(&mut self, sender: &ChannelPacketSender, decoded: Option<bool>) -> (
    response: Result<ProtoPacket, ()>)
        requires
            old(self).wf(),
        ensures
            final(self).wf(),
            stream_set_up(*old(self), *sender, decoded, response, *final(self)),
    {
        match decoded {
            Some(created) => Ok(self.handle_setup(sender, created)),
            None => Err(()),
        }
    }

    /// Takes in what a start message has come to: the session that it starts, or
    /// nothing where it could not be decoded. That is an error.
    pub fn handle_decoded_start(&mut self, decoded: Option<i32>) -> (result: Result<(), ()>)
        requires
            old(self).wf(),
        ensures
            final(self).wf(),
            stream_started(*old(self), decoded, result, *final(self)),
    {
        match decoded {
            Some(session_id) => {
                self.handle_start(session_id);
                Ok(())
            },
            None => Err(()),
        }
    }

    /// Takes in that the phone has started a session.
    pub fn handle_start(&mut self, session_id: i32)
        requires
            old(self).wf(),
        ensures
            final(self).wf(),
            stream_started(*old(self), Some(session_id), Ok(()), *final(self)),
    {
        self.session_id = Some(session_id);
    }

    /// Takes in that content has been played; gives the acknowledgement, if
    /// one is due.
    pub fn handle_played(&mut self, sender: &ChannelPacketSender, timestamp_micros: u64) -> (ack:
        Option<ProtoPacket>)
        requires
            old(self).wf(),
            old(self).session() is Some,
        ensures
            final(self).wf(),
            content_played(*old(self), *sender, timestamp_micros, ack, *final(self)),
    {
        self.unacked_content_messages.push(timestamp_micros);
        if self.unacked_content_messages.len() < MAX_UNACKED_CONTENT_MESSAGES - 1 {
            return None;
        }
        let session_id: i32 = match self.session_id {
            Some(session_id) => session_id,
            None => vstd::pervasive::unreached(),
        };
        let mut receive_timestamp_ns: Vec<u64> = Vec::new();
        receive_timestamp_ns.append(&mut self.unacked_content_messages);
        assert(receive_timestamp_ns@ =~= old(self).unacked().push(timestamp_micros));
        Some(
            sender.send_proto(
                MESSAGE_ID_ACK,
                ProtoMessage::Ack(Ack { ack: Some(1), receive_timestamp_ns, session_id }),
            ),
        )
    }
}

/// Every content message is acknowledged once, in the order in which the
/// messages came, and the phone never has to wait for an acknowledgement.
pub proof fn all_content_is_acknowledged(unacked: Seq<u64>, timestamps: Seq<u64>)
    requires
        unacked.len() < MAX_UNACKED_CONTENT_MESSAGES - 1,
    ensures
        ({
            let (acks, left) = acknowledgements(unacked, timestamps);
            &&& concat(acks) + left == unacked + timestamps
            &&& left.len() < MAX_UNACKED_CONTENT_MESSAGES - 1
            &&& forall|i: int|
                0 <= i < acks.len() ==> (#[trigger] acks[i]).len() == MAX_UNACKED_CONTENT_MESSAGES
                    - 1
        }),
    decreases timestamps.len(),
{
    let (acks, left) = acknowledgements(unacked, timestamps);
    if timestamps.len() == 0 {
        assert(concat(acks) + left =~= unacked + timestamps);
    } else {
        let earlier = timestamps.drop_last();
        all_content_is_acknowledged(unacked, earlier);
        let (acks_before, left_before) = acknowledgements(unacked, earlier);
        let played = left_before.push(timestamps.last());
        assert((concat(acks_before) + left_before).push(timestamps.last()) =~= concat(acks_before)
            + played);
        assert((unacked + earlier).push(timestamps.last()) =~= unacked + timestamps);
        lemma_concat_push(acks_before, played);
        assert(concat(acks_before) + played + Seq::<u64>::empty() =~= concat(acks_before) + played);
    }
}

/// What follows the front is what was put behind it.
proof fn lemma_skip_front(front: Seq<u8>, rest: Seq<u8>)
    ensures
        (front + rest).skip(front.len() as int) == rest,
{
    assert((front + rest).skip(front.len() as int) =~= rest);
}

/// Content carries its timestamp in front: both are read as they were put
/// together.
pub proof fn content_holds_its_timestamp(timestamp_micros: u64, content: Seq<u8>)
    ensures
        be_u64(be_bytes_u64(timestamp_micros) + content) == timestamp_micros,
        (be_bytes_u64(timestamp_micros) + content).skip(8) == content,
{
    be_u64_inverts_bytes(timestamp_micros, content);
    let time = be_bytes_u64(timestamp_micros);
    assert(time.len() == 8);
    lemma_skip_front(time, content);
}

/// What a packet asks for goes by the number of its message. Message 0 is content:
/// eight bytes with the time in microseconds, the most significant first, and then
/// the content itself; it is played where the stream is set up and started, and is
/// an error where it is not. Message 0x8000 sets the stream up. Messages 0x8001 and
/// 0x8002 start and stop it where it is set up, and are errors where it is not.
/// Nothing is done on others.
pub proof fn a_stream_does_what_it_is_asked_for(
    session: MediaSession,
    packet: PacketView,
    action: Result<MediaAction, ()>,
)
    requires
        asked_of_stream(session.is_setup(), session.plays(), packet, action),
        packet.message_id_and_payload.len() >= 2,
    ensures
        ({
            let bytes = packet.message_id_and_payload;
            let message_id = 0x100 * bytes[0] + bytes[1];
            &&& message_id == 0x8000 ==> action == Ok::<_, ()>(MediaAction::Setup)
            &&& message_id == 0x8001 ==> action == (if session.is_setup() {
                Ok(MediaAction::Start)
            } else {
                Err(())
            })
            &&& message_id == 0x8002 ==> action == (if session.is_setup() {
                Ok(MediaAction::Stop)
            } else {
                Err(())
            })
            &&& message_id == 0 ==> (action is Ok <==> session.is_setup() && session.session()
                is Some)
            &&& message_id == 0 && action is Ok && bytes.len() >= 10 ==> {
                &&& action->Ok_0 matches MediaAction::Play { timestamp_micros, content }
                &&& timestamp_micros == 0x1_0000_0000 * (0x100_0000 * bytes[2] + 0x1_0000 * bytes[3]
                    + 0x100 * bytes[4] + bytes[5]) + (0x100_0000 * bytes[6] + 0x1_0000 * bytes[7]
                    + 0x100 * bytes[8] + bytes[9])
                &&& content@.len() == bytes.len() - 10
                &&& forall|i: int|
                    0 <= i < content@.len() ==> #[trigger] content@[i] == bytes[i + 10]
            }
            &&& message_id != 0 && message_id != 0x8000 && message_id != 0x8001 && message_id
                != 0x8002 ==> action == Ok::<_, ()>(MediaAction::Nothing)
        }),
{
    crate::byte_order::the_first_byte_weighs_most(packet.payload());
}

/// Content is acknowledged once there are 19 messages of it, all of them at once,
/// and not before.
pub proof fn nineteen_messages_are_acknowledged(unacked: Seq<u64>, timestamp_micros: u64)
    requires
        unacked.len() <= 18,
    ensures
        ({
            let (ack, left) = acknowledged(unacked, timestamp_micros);
            &&& ack is Some <==> unacked.len() == 18
            &&& ack is Some ==> ack->0 == unacked.push(timestamp_micros) && left.len() == 0
            &&& ack is None ==> left == unacked.push(timestamp_micros)
        }),
{
}

/// An acknowledgement goes out on the channel of the service as message 0x8004. It
/// names the session and the times of all messages that it is for.
pub proof fn an_acknowledgement_names_its_messages(
    packet: ProtoPacket,
    sender: ChannelPacketSender,
    session_id: i32,
    timestamps: Seq<u64>,
)
    requires
        is_ack(packet, sender, session_id, timestamps),
    ensures
        packet.channel_id == sender.channel_id,
        packet.frame_type is ChannelSpecific,
        packet.encrypted,
        packet.message_id == 0x8004,
        packet.message is Ack,
        packet.message->Ack_0.ack == Some(1u32),
        packet.message->Ack_0.receive_timestamp_ns@ == timestamps,
        packet.message->Ack_0.session_id == session_id,
{
}

/// The answer to a setup goes out on the channel of the service as message 0x8003.
/// It names the first of the ways that the service offers, how many messages may
/// be under way, and whether the service is ready.
pub proof fn a_setup_is_answered_with_a_config(
    packet: ProtoPacket,
    sender: ChannelPacketSender,
    max_unacked: Option<u32>,
    status: ConfigStatus,
)
    requires
        is_config(packet, sender, max_unacked, status),
    ensures
        packet.channel_id == sender.channel_id,
        packet.frame_type is ChannelSpecific,
        packet.encrypted,
        packet.message_id == 0x8003,
        packet.message is Config,
        packet.message->Config_0.max_unacked == max_unacked,
        packet.message->Config_0.configuration_indices@.len() == 1,
        packet.message->Config_0.configuration_indices@[0] == 0,
        packet.message->Config_0.status == status,
{
}

/// The phone may have 20 messages under way, one more than are acknowledged at
/// once, so that it never waits for an acknowledgement that waits for it.
pub proof fn the_phone_need_not_wait(unacked: Seq<u64>, timestamp_micros: u64)
    requires
        unacked.len() < MAX_UNACKED_CONTENT_MESSAGES,
    ensures
        MAX_UNACKED_CONTENT_MESSAGES == 20,
        acknowledged(unacked, timestamp_micros).1.len() < MAX_UNACKED_CONTENT_MESSAGES - 1,
{
}

/// Content can be played if and only if the stream is set up and started; a packet
/// can be handled where it holds the number of its message and, for content that
/// can be played, its time.
pub proof fn content_needs_its_time(session: MediaSession, packet: Packet)
    ensures
        session.plays() <==> session.is_setup() && session.session() is Some,
        session.accepts(&packet) <==> {
            let bytes = packet.message_id_and_payload@;
            &&& bytes.len() >= 2
            &&& bytes[0] == 0 && bytes[1] == 0 && session.is_setup() && session.session() is Some
                ==> bytes.len() >= 10
        },
{
}

/// A request for another codec than the offered one is none for it; where no codec
/// is named, sound that is not compressed is offered.
pub proof fn one_codec_is_offered(available_type: Option<MediaCodecType>)
    ensures
        available_type is Some ==> offered_codec(available_type) == available_type->0,
        available_type is None ==> offered_codec(available_type) is MediaCodecAudioPcm,
{
}

/// After a setup, the phone is told on the channel of the service, by message
/// 0x8003, that it may have 20 messages under way, and that the stream is ready
/// where there is something that plays it, or has to wait where there is not. The
/// session that was started, and what is to be acknowledged, stay. A setup that
/// cannot be read is an error that changes nothing.
pub proof fn a_setup_is_answered_as_it_went(
    before: MediaSession,
    sender: ChannelPacketSender,
    decoded: Option<bool>,
    response: Result<ProtoPacket, ()>,
    after: MediaSession,
)
    requires
        stream_set_up(before, sender, decoded, response, after),
    ensures
        response is Ok <==> decoded is Some,
        after.session() == before.session(),
        after.unacked() == before.unacked(),
        decoded is None ==> after.is_setup() == before.is_setup(),
        decoded matches Some(created) ==> {
            let packet = response->Ok_0;
            &&& after.is_setup() == created
            &&& packet.channel_id == sender.channel_id
            &&& packet.encrypted
            &&& packet.message_id == 0x8003
            &&& packet.message matches ProtoMessage::Config(config)
            &&& config.max_unacked == Some(20u32)
            &&& config.status is Ready <==> created
            &&& config.status is Wait <==> !created
        },
{
}

/// The session that the phone starts is the one that is acknowledged to from then
/// on, and nothing else changes. A start that cannot be read is an error that
/// changes nothing.
pub proof fn a_start_begins_its_session(
    before: MediaSession,
    decoded: Option<i32>,
    result: Result<(), ()>,
    after: MediaSession,
)
    requires
        stream_started(before, decoded, result, after),
    ensures
        result is Ok <==> decoded is Some,
        after.is_setup() == before.is_setup(),
        after.unacked() == before.unacked(),
        after.session() == (if decoded is Some {
            decoded
        } else {
            before.session()
        }),
        decoded is Some && before.is_setup() ==> after.plays(),
{
}

/// Of content that is played, the time is kept until 19 messages have been played.
/// Then the phone is told of all of them, in the order in which they came, by
/// message 0x8004 on the channel of the service and for the session that it has
/// started. The stream plays on.
pub proof fn played_content_is_acknowledged(
    before: MediaSession,
    sender: ChannelPacketSender,
    timestamp_micros: u64,
    ack: Option<ProtoPacket>,
    after: MediaSession,
)
    requires
        content_played(before, sender, timestamp_micros, ack, after),
        before.wf(),
    ensures
        after.is_setup() == before.is_setup(),
        after.session() == before.session(),
        ack is Some <==> before.unacked().len() == 18,
        ack is None ==> after.unacked() == before.unacked().push(timestamp_micros),
        ack matches Some(packet) ==> {
            &&& after.unacked().len() == 0
            &&& packet.channel_id == sender.channel_id
            &&& packet.encrypted
            &&& packet.message_id == 0x8004
            &&& packet.message matches ProtoMessage::Ack(sent)
            &&& sent.receive_timestamp_ns@ == before.unacked().push(timestamp_micros)
            &&& before.session() matches Some(session_id) ==> sent.session_id == session_id
        },
{
}

/// The phone is told of a stream under the number of its service, and of nothing
/// else there.
pub proof fn a_stream_has_the_number_of_its_service(
    service_id: u8,
    stream: MediaSinkServiceView,
)
    ensures
        stream_descriptor(service_id, stream).id == service_id,
        stream_descriptor(service_id, stream).media_sink_service == Some(stream),
        stream_descriptor(service_id, stream).sensor_source_service is None,
        stream_descriptor(service_id, stream).media_source_service is None,
        stream_descriptor(service_id, stream).input_source_service is None,
{
}

} // verus!
