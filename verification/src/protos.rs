//! The messages of the protocol, as far as they are read or written. Fields
//! that are never set are left out.
use crate::frame::AAPFrameType;
use crate::packet::{packet_of, Packet, PacketView};
use vstd::prelude::*;

verus! {

#[derive(Debug, Clone, Copy, PartialEq, Eq, Structural)]
pub enum MessageStatus {
    StatusSuccess,
    StatusInvalidService,
}

#[derive(Debug, Clone, Copy, PartialEq, Eq, Structural)]
pub enum AudioFocusStateType {
    AudioFocusStateGainMediaOnly,
}

#[derive(Debug, Clone, Copy, PartialEq, Eq, Structural)]
pub enum VideoFocusMode {
    VideoFocusProjected,
}

/// A codec. The number of one that is not known is kept.
#[derive(Debug, Clone, Copy, PartialEq, Eq, Structural)]
pub enum MediaCodecType {
    MediaCodecAudioPcm,
    MediaCodecVideoH264Bp,
    Other(i32),
}

#[derive(Debug, Clone, Copy, PartialEq, Eq, Structural)]
pub enum AudioStreamType {
    AudioStreamGuidance,
    AudioStreamSystemAudio,
    AudioStreamMedia,
    AudioStreamTelephony,
}

#[derive(Debug, Clone, Copy, PartialEq, Eq, Structural)]
pub enum VideoCodecResolutionType {
    Video800x480,
    Video1280x720,
    Video1920x1080,
    Video2560x1440,
    Video3840x2160,
    Video720x1280,
    Video1080x1920,
    Video1440x2560,
    Video2160x3840,
}

#[derive(Debug, Clone, Copy, PartialEq, Eq, Structural)]
pub enum VideoFrameRateType {
    VideoFps60,
    VideoFps30,
}

#[derive(Debug, Clone, Copy, PartialEq, Eq, Structural)]
pub enum TouchScreenType {
    Capacitive,
}

#[derive(Debug, Clone, Copy, PartialEq, Eq, Structural)]
pub enum FuelType {
    Electric,
}

#[derive(Debug, Clone, Copy, PartialEq, Eq, Structural)]
pub enum EvConnectorType {
    Mennekes,
}

#[derive(Debug, Clone, Copy, PartialEq, Eq, Structural)]
pub enum PointerAction {
    ActionDown,
    ActionUp,
    ActionMoved,
    ActionPointerDown,
    ActionPointerUp,
}

#[derive(Debug, Clone, Copy, PartialEq, Eq, Structural)]
pub enum ConfigStatus {
    Ready,
    Wait,
}

#[derive(Debug, Clone, Copy, PartialEq, Eq, Structural)]
pub struct AudioConfiguration {
    pub sampling_rate: u32,
    pub number_of_bits: u32,
    pub number_of_channels: u32,
}

#[derive(Debug, Clone, Copy, PartialEq, Eq)]
pub struct VideoConfiguration {
    pub codec_resolution: Option<VideoCodecResolutionType>,
    pub frame_rate: Option<VideoFrameRateType>,
    pub width_margin: Option<u32>,
    pub height_margin: Option<u32>,
    pub density: Option<u32>,
    pub video_codec_type: Option<MediaCodecType>,
}

#[derive(Debug, Clone, Copy, PartialEq, Eq)]
pub struct TouchScreen {
    pub width: i32,
    pub height: i32,
    pub screen_type: Option<TouchScreenType>,
    pub is_secondary: Option<bool>,
}

#[derive(Debug, PartialEq, Eq)]
pub struct SensorSourceService {
    pub supported_fuel_types: Vec<FuelType>,
    pub supported_ev_connector_types: Vec<EvConnectorType>,
}

#[derive(Debug, PartialEq, Eq)]
pub struct MediaSinkService {
    pub available_type: Option<MediaCodecType>,
    pub audio_configs: Vec<AudioConfiguration>,
    pub audio_type: Option<AudioStreamType>,
    pub available_while_in_call: Option<bool>,
    pub video_configs: Vec<VideoConfiguration>,
}

#[derive(Debug, Clone, Copy, PartialEq, Eq)]
pub struct MediaSourceService {
    pub available_type: Option<MediaCodecType>,
    pub audio_config: Option<AudioConfiguration>,
}

#[derive(Debug, PartialEq, Eq)]
pub struct InputSourceService {
    pub touchscreen: Vec<TouchScreen>,
}

/// What a service says of itself when the phone asks what there is.
#[derive(Debug, PartialEq, Eq)]
pub struct Service {
    pub id: i32,
    pub sensor_source_service: Option<SensorSourceService>,
    pub media_sink_service: Option<MediaSinkService>,
    pub media_source_service: Option<MediaSourceService>,
    pub input_source_service: Option<InputSourceService>,
}

/// The value of a [`SensorSourceService`].
pub struct SensorSourceServiceView {
    pub supported_fuel_types: Seq<FuelType>,
    pub supported_ev_connector_types: Seq<EvConnectorType>,
}

/// The value of a [`MediaSinkService`].
pub struct MediaSinkServiceView {
    pub available_type: Option<MediaCodecType>,
    pub audio_configs: Seq<AudioConfiguration>,
    pub audio_type: Option<AudioStreamType>,
    pub available_while_in_call: Option<bool>,
    pub video_configs: Seq<VideoConfiguration>,
}

/// The value of an [`InputSourceService`].
pub struct InputSourceServiceView {
    pub touchscreen: Seq<TouchScreen>,
}

/// The value of a [`Service`].
pub struct ServiceView {
    pub id: i32,
    pub sensor_source_service: Option<SensorSourceServiceView>,
    pub media_sink_service: Option<MediaSinkServiceView>,
    pub media_source_service: Option<MediaSourceService>,
    pub input_source_service: Option<InputSourceServiceView>,
}

impl View for SensorSourceService {
    type V = SensorSourceServiceView;

    open spec fn view(&self) -> SensorSourceServiceView {
        SensorSourceServiceView {
            supported_fuel_types: self.supported_fuel_types@,
            supported_ev_connector_types: self.supported_ev_connector_types@,
        }
    }
}

impl View for MediaSinkService {
    type V = MediaSinkServiceView;

    open spec fn view(&self) -> MediaSinkServiceView {
        MediaSinkServiceView {
            available_type: self.available_type,
            audio_configs: self.audio_configs@,
            audio_type: self.audio_type,
            available_while_in_call: self.available_while_in_call,
            video_configs: self.video_configs@,
        }
    }
}

impl View for InputSourceService {
    type V = InputSourceServiceView;

    open spec fn view(&self) -> InputSourceServiceView {
        InputSourceServiceView { touchscreen: self.touchscreen@ }
    }
}

impl View for Service {
    type V = ServiceView;

    open spec fn view(&self) -> ServiceView {
        ServiceView {
            id: self.id,
            sensor_source_service: match self.sensor_source_service {
                Some(service) => Some(service@),
                None => None,
            },
            media_sink_service: match self.media_sink_service {
                Some(service) => Some(service@),
                None => None,
            },
            media_source_service: self.media_source_service,
            input_source_service: match self.input_source_service {
                Some(service) => Some(service@),
                None => None,
            },
        }
    }
}

/// The descriptor of a service that says nothing but its number.
pub open spec fn bare_service(id: i32) -> ServiceView {
    ServiceView {
        id,
        sensor_source_service: None,
        media_sink_service: None,
        media_source_service: None,
        input_source_service: None,
    }
}

impl MediaSinkService {
    /// A copy of the descriptor.
    pub fn duplicate(&self) -> (copy: Self)
        ensures
            copy@ == self@,
    {
        let audio_configs = self.audio_configs.clone();
        let video_configs = self.video_configs.clone();
        assert(audio_configs@ =~= self.audio_configs@);
        assert(video_configs@ =~= self.video_configs@);
        MediaSinkService {
            available_type: self.available_type,
            audio_configs,
            audio_type: self.audio_type,
            available_while_in_call: self.available_while_in_call,
            video_configs,
        }
    }
}

impl Service {
    /// The descriptor of a service that says nothing but its number.
    pub fn bare(id: i32) -> (service: Self)
        ensures
            service@ == bare_service(id),
    {
        Service {
            id,
            sensor_source_service: None,
            media_sink_service: None,
            media_source_service: None,
            input_source_service: None,
        }
    }

    /// A copy of the descriptor.
    pub fn duplicate(&self) -> (copy: Self)
        ensures
            copy@ == self@,
    {
        let sensor_source_service = match &self.sensor_source_service {
            Some(service) => {
                let fuel_types = service.supported_fuel_types.clone();
                let connector_types = service.supported_ev_connector_types.clone();
                assert(fuel_types@ =~= service.supported_fuel_types@);
                assert(connector_types@ =~= service.supported_ev_connector_types@);
                Some(
                    SensorSourceService {
                        supported_fuel_types: fuel_types,
                        supported_ev_connector_types: connector_types,
                    },
                )
            },
            None => None,
        };
        let media_sink_service = match &self.media_sink_service {
            Some(service) => Some(service.duplicate()),
            None => None,
        };
        let input_source_service = match &self.input_source_service {
            Some(service) => {
                let touchscreen = service.touchscreen.clone();
                assert(touchscreen@ =~= service.touchscreen@);
                Some(InputSourceService { touchscreen })
            },
            None => None,
        };
        Service {
            id: self.id,
            sensor_source_service,
            media_sink_service,
            media_source_service: self.media_source_service,
            input_source_service,
        }
    }
}

/// The values of a list of descriptors.
pub open spec fn service_views(services: Seq<Service>) -> Seq<ServiceView> {
    services.map_values(|service: Service| service@)
}

/// A copy of a list of descriptors.
pub fn duplicate_services(services: &Vec<Service>) -> (copy: Vec<Service>)
    ensures
        service_views(copy@) == service_views(services@),
{
    let mut copy: Vec<Service> = Vec::new();
    for i in 0..services.len()
        invariant
            copy@.len() == i,
            forall|j: int| 0 <= j < i ==> (#[trigger] copy@[j])@ == services@[j]@,
    {
        copy.push(services[i].duplicate());
    }
    assert(service_views(copy@) =~= service_views(services@));
    copy
}

#[derive(Debug, Clone, Copy, PartialEq, Eq)]
pub struct PingConfiguration {
    pub interval_ms: Option<u32>,
    pub timeout_ms: Option<u32>,
    pub high_latency_threshold_ms: Option<u32>,
}

#[derive(Debug, Clone, Copy, PartialEq, Eq)]
pub struct ConnectionConfiguration {
    pub ping_configuration: Option<PingConfiguration>,
}

#[derive(Debug, PartialEq, Eq)]
pub struct HeadUnitInfo {
    pub make: Option<String>,
    pub model: Option<String>,
    pub year: Option<String>,
    pub vehicle_id: Option<String>,
    pub head_unit_make: Option<String>,
    pub head_unit_model: Option<String>,
    pub head_unit_software_build: Option<String>,
    pub head_unit_software_version: Option<String>,
}

#[derive(Debug, PartialEq, Eq)]
pub struct ServiceDiscoveryResponse {
    pub services: Vec<Service>,
    pub display_name: Option<String>,
    pub connection_configuration: Option<ConnectionConfiguration>,
    pub headunit_info: Option<HeadUnitInfo>,
}

#[derive(Debug, Clone, Copy, PartialEq, Eq, Structural)]
pub struct AuthResponse {
    pub status: MessageStatus,
}

#[derive(Debug, PartialEq, Eq)]
pub struct PingRequest {
    /// Milliseconds since the beginning of 1970.
    pub timestamp: i64,
    pub bug_report: Option<bool>,
    pub data: Option<Vec<u8>>,
}

#[derive(Debug, Clone, Copy, PartialEq, Eq, Structural)]
pub struct AudioFocusNotification {
    pub focus_state: AudioFocusStateType,
}

#[derive(Debug, Clone, Copy, PartialEq, Eq, Structural)]
pub struct ChannelOpenResponse {
    pub status: MessageStatus,
}

#[derive(Debug, Clone, Copy, PartialEq, Eq, Structural)]
pub struct KeyBindingResponse {
    pub status: i32,
}

#[derive(Debug, PartialEq, Eq)]
pub struct Config {
    pub max_unacked: Option<u32>,
    pub configuration_indices: Vec<u32>,
    pub status: ConfigStatus,
}

#[derive(Debug, PartialEq, Eq)]
pub struct Ack {
    pub ack: Option<u32>,
    pub receive_timestamp_ns: Vec<u64>,
    pub session_id: i32,
}

#[derive(Debug, Clone, Copy, PartialEq, Eq)]
pub struct MicrophoneResponse {
    pub session_id: Option<i32>,
    pub status: u32,
}

#[derive(Debug, Clone, Copy, PartialEq, Eq, Structural)]
pub struct Pointer {
    pub x: u32,
    pub y: u32,
    pub pointer_id: u32,
}

#[derive(Debug, PartialEq, Eq)]
pub struct TouchEvent {
    pub pointer_data: Vec<Pointer>,
    pub action: Option<PointerAction>,
}

#[derive(Debug, PartialEq, Eq)]
pub struct InputReport {
    /// Microseconds since the beginning of 1970.
    pub timestamp: u64,
    pub touch_event: Option<TouchEvent>,
}

#[derive(Debug, Clone, Copy, PartialEq, Eq)]
pub struct VideoFocusNotification {
    pub focus: Option<VideoFocusMode>,
}

/// A message that is sent.
#[derive(Debug, PartialEq, Eq)]
pub enum ProtoMessage {
    AuthResponse(AuthResponse),
    ServiceDiscoveryResponse(ServiceDiscoveryResponse),
    PingRequest(PingRequest),
    AudioFocusNotification(AudioFocusNotification),
    ChannelOpenResponse(ChannelOpenResponse),
    KeyBindingResponse(KeyBindingResponse),
    Config(Config),
    Ack(Ack),
    MicrophoneResponse(MicrophoneResponse),
    InputReport(InputReport),
}

/// A message together with all that its packet says besides.
#[derive(Debug, PartialEq, Eq)]
pub struct ProtoPacket {
    pub channel_id: u8,
    pub frame_type: AAPFrameType,
    pub encrypted: bool,
    pub message_id: u16,
    pub message: ProtoMessage,
}

impl ProtoPacket {
    /// The packet for this message, which has been encoded to `encoded`.
    pub open spec fn packed(self, encoded: Seq<u8>) -> PacketView {
        packet_of(self.channel_id, self.frame_type, self.encrypted, self.message_id, encoded)
    }

    /// The packet for this message, which has been encoded to `encoded`.
    pub fn into_packet(self, encoded: &[u8]) -> (packet: Packet)
        ensures
            packet@ == self.packed(encoded@),
    {
        Packet::new_from_proto_message(
            self.channel_id,
            self.frame_type,
            self.encrypted,
            self.message_id,
            encoded,
        )
    }
}

/// The value of a descriptor leaves nothing out that the descriptor says.
pub proof fn a_descriptor_is_all_that_it_says(service: Service)
    ensures
        service@.id == service.id,
        service@.media_source_service == service.media_source_service,
        service@.sensor_source_service is Some <==> service.sensor_source_service is Some,
        service.sensor_source_service matches Some(sensors) ==> {
            let value = service@.sensor_source_service->0;
            &&& value.supported_fuel_types == sensors.supported_fuel_types@
            &&& value.supported_ev_connector_types == sensors.supported_ev_connector_types@
        },
        service@.media_sink_service is Some <==> service.media_sink_service is Some,
        service.media_sink_service matches Some(sink) ==> {
            let value = service@.media_sink_service->0;
            &&& value.available_type == sink.available_type
            &&& value.audio_configs == sink.audio_configs@
            &&& value.audio_type == sink.audio_type
            &&& value.available_while_in_call == sink.available_while_in_call
            &&& value.video_configs == sink.video_configs@
        },
        service@.input_source_service is Some <==> service.input_source_service is Some,
        service.input_source_service matches Some(input) ==>
            service@.input_source_service->0.touchscreen == input.touchscreen@,
{
}

/// A service that says nothing but its number has that number and nothing else.
pub proof fn a_bare_service_has_a_number(id: i32)
    ensures
        bare_service(id).id == id,
        bare_service(id).sensor_source_service is None,
        bare_service(id).media_sink_service is None,
        bare_service(id).media_source_service is None,
        bare_service(id).input_source_service is None,
{
}

/// The values of a list are those of its members, in their order.
pub proof fn a_list_has_the_values_of_its_members(services: Seq<Service>, index: int)
    requires
        0 <= index < services.len(),
    ensures
        service_views(services).len() == services.len(),
        service_views(services)[index] == services[index]@,
{
}

/// A message travels as all that its packet says besides has it: on its channel, of
/// its type, encrypted or not, with the two bytes of its number in front.
pub proof fn a_message_travels_as_it_says(message: ProtoPacket, encoded: Seq<u8>)
    ensures
        ({
            let packet = message.packed(encoded);
            let bytes = packet.message_id_and_payload;
            &&& packet.channel_id == message.channel_id
            &&& packet.frame_type == message.frame_type
            &&& packet.encrypted == message.encrypted
            &&& bytes.len() == encoded.len() + 2
            &&& 0x100 * bytes[0] + bytes[1] == message.message_id
            &&& forall|i: int|
                0 <= i < encoded.len() ==> bytes[i + 2] == #[trigger] encoded[i]
        }),
{
    crate::packet::a_packet_is_made_of_its_parts(
        message.channel_id,
        message.frame_type,
        message.encrypted,
        message.message_id,
        encoded,
    );
}

} // verus!
