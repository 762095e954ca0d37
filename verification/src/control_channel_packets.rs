//! The packets of the control channel.
use crate::frame::AAPFrameType;
use crate::packet::{packet_of, Packet, PacketView};
use crate::protos::{
    AudioFocusNotification, AudioFocusStateType, AuthResponse, ChannelOpenResponse, MessageStatus,
    PingRequest, ProtoMessage, ProtoPacket, ServiceDiscoveryResponse,
};
use vstd::prelude::*;

verus! {

pub const CHANNEL_ID_CONTROL: u8 = 0;

pub const MESSAGE_ID_GET_VERSION_REQUEST: u16 = 0x01;

pub const MESSAGE_ID_GET_VERSION_RESPONSE: u16 = 0x02;

pub const MESSAGE_ID_HANDSHAKE: u16 = 0x03;

pub const MESSAGE_ID_AUTH_COMPLETE: u16 = 0x04;

pub const MESSAGE_ID_SERVICE_DISCOVERY_REQUEST: u16 = 0x05;

pub const MESSAGE_ID_SERVICE_DISCOVERY_RESPONSE: u16 = 0x06;

pub const MESSAGE_ID_OPEN_CHANNEL_REQUEST: u16 = 0x07;

pub const MESSAGE_ID_OPEN_CHANNEL_RESPONSE: u16 = 0x08;

pub const MESSAGE_ID_PING_REQUEST: u16 = 0x0B;

pub const MESSAGE_ID_PING_RESPONSE: u16 = 0x0C;

pub const MESSAGE_ID_AUDIO_FOCUS_NOTIFICATION_REQUEST: u16 = 0x12;

pub const MESSAGE_ID_AUDIO_FOCUS_NOTIFICATION: u16 = 0x13;

pub const MESSAGE_ID_SHUTDOWN_REQUEST: u16 = 0x0f;

pub const MESSAGE_ID_SHUTDOWN_RESPONSE: u16 = 0x10;

/// The packet that carries a message on the control channel in the clear.
pub open spec fn control_message(message_id: u16, message: ProtoMessage) -> ProtoPacket {
    ProtoPacket {
        channel_id: CHANNEL_ID_CONTROL,
        frame_type: AAPFrameType::ChannelSpecific,
        encrypted: false,
        message_id,
        message,
    }
}

/// Tells the phone that the handshake has succeeded.
pub open spec fn auth_complete() -> ProtoPacket {
    control_message(
        MESSAGE_ID_AUTH_COMPLETE,
        ProtoMessage::AuthResponse(AuthResponse { status: MessageStatus::StatusSuccess }),
    )
}

/// Tells the phone which audio focus it has.
pub open spec fn focus_notification(focus_state: AudioFocusStateType) -> ProtoPacket {
    control_message(
        MESSAGE_ID_AUDIO_FOCUS_NOTIFICATION,
        ProtoMessage::AudioFocusNotification(AudioFocusNotification { focus_state }),
    )
}

/// Answers a request to open a channel, on that channel.
pub open spec fn channel_open_response(channel_id: u8, status: MessageStatus) -> ProtoPacket {
    ProtoPacket {
        channel_id,
        frame_type: AAPFrameType::Control,
        encrypted: false,
        message_id: MESSAGE_ID_OPEN_CHANNEL_RESPONSE,
        message: ProtoMessage::ChannelOpenResponse(ChannelOpenResponse { status }),
    }
}

/// Tells the phone of the services.
pub open spec fn service_discovery_response(message: ServiceDiscoveryResponse) -> ProtoPacket {
    ProtoPacket {
        channel_id: CHANNEL_ID_CONTROL,
        frame_type: AAPFrameType::ChannelSpecific,
        encrypted: true,
        message_id: MESSAGE_ID_SERVICE_DISCOVERY_RESPONSE,
        message: ProtoMessage::ServiceDiscoveryResponse(message),
    }
}

/// A ping, sent at `timestamp` (milliseconds since the beginning of 1970).
pub open spec fn ping_request(timestamp: i64, data: Vec<u8>) -> ProtoPacket {
    control_message(
        MESSAGE_ID_PING_REQUEST,
        ProtoMessage::PingRequest(
            (PingRequest { timestamp, bug_report: Some(false), data: Some(data) }),
        ),
    )
}

/// The packet that carries bytes on the control channel in the clear.
pub open spec fn clear_control_packet(message_id: u16, payload: Seq<u8>) -> PacketView {
    packet_of(
        CHANNEL_ID_CONTROL,
        AAPFrameType::ChannelSpecific,
        false,
        message_id,
        payload,
    )
}

/// Asks the phone for its protocol version, and offers version 1.1.
pub fn build_version_request_packet() -> (packet: Packet)
    ensures
        packet@ == clear_control_packet(MESSAGE_ID_GET_VERSION_REQUEST, seq![0u8, 1, 0, 1]),
{
    let version: [u8; 4] = [0, 1, 0, 1];
    assert(version@ =~= seq![0u8, 1, 0, 1]);
    Packet::new_from_parts(
        CHANNEL_ID_CONTROL,
        AAPFrameType::ChannelSpecific,
        false,
        MESSAGE_ID_GET_VERSION_REQUEST,
        version.as_slice(),
    )
}

pub fn build_handshake_packet(payload: &[u8]) -> (packet: Packet)
    ensures
        packet@ == clear_control_packet(MESSAGE_ID_HANDSHAKE, payload@),
{
    Packet::new_from_parts(
        CHANNEL_ID_CONTROL,
        AAPFrameType::ChannelSpecific,
        false,
        MESSAGE_ID_HANDSHAKE,
        payload,
    )
}

pub fn build_auth_complete_packet() -> (packet: ProtoPacket)
    ensures
        packet == auth_complete(),
{
    ProtoPacket {
        channel_id: CHANNEL_ID_CONTROL,
        frame_type: AAPFrameType::ChannelSpecific,
        encrypted: false,
        message_id: MESSAGE_ID_AUTH_COMPLETE,
        message: ProtoMessage::AuthResponse(
            AuthResponse { status: MessageStatus::StatusSuccess },
        ),
    }
}

pub fn build_service_discovery_response_packet(message: ServiceDiscoveryResponse) -> (packet:
    ProtoPacket)
    ensures
        packet == service_discovery_response(message),
{
    ProtoPacket {
        channel_id: CHANNEL_ID_CONTROL,
        frame_type: AAPFrameType::ChannelSpecific,
        encrypted: true,
        message_id: MESSAGE_ID_SERVICE_DISCOVERY_RESPONSE,
        message: ProtoMessage::ServiceDiscoveryResponse(message),
    }
}

/// A ping, sent at `timestamp` (milliseconds since the beginning of 1970).
pub fn build_ping_request_packet(timestamp: i64, data: Vec<u8>) -> (packet: ProtoPacket)
    ensures
        packet == ping_request(timestamp, data),
{
    ProtoPacket {
        channel_id: CHANNEL_ID_CONTROL,
        frame_type: AAPFrameType::ChannelSpecific,
        encrypted: false,
        message_id: MESSAGE_ID_PING_REQUEST,
        message: ProtoMessage::PingRequest(
            PingRequest { timestamp, bug_report: Some(false), data: Some(data) },
        ),
    }
}

pub fn build_focus_notification_packet(focus_state: AudioFocusStateType) -> (packet: ProtoPacket)
    ensures
        packet == focus_notification(focus_state),
{
    ProtoPacket {
        channel_id: CHANNEL_ID_CONTROL,
        frame_type: AAPFrameType::ChannelSpecific,
        encrypted: false,
        message_id: MESSAGE_ID_AUDIO_FOCUS_NOTIFICATION,
        message: ProtoMessage::AudioFocusNotification(AudioFocusNotification { focus_state }),
    }
}

/// The answer to a request to open a channel, which goes out on that channel.
pub fn build_channel_open_response(channel_id: u8, status: MessageStatus) -> (packet: ProtoPacket)
    ensures
        packet == channel_open_response(channel_id, status),
{
    ProtoPacket {
        channel_id,
        frame_type: AAPFrameType::Control,
        encrypted: false,
        message_id: MESSAGE_ID_OPEN_CHANNEL_RESPONSE,
        message: ProtoMessage::ChannelOpenResponse(ChannelOpenResponse { status }),
    }
}

pub fn build_shutdown_request() -> (packet: Packet)
    ensures
        packet@ == clear_control_packet(MESSAGE_ID_SHUTDOWN_REQUEST, Seq::empty()),
{
    let nothing: [u8; 0] = [];
    assert(nothing@ =~= Seq::<u8>::empty());
    Packet::new_from_parts(
        CHANNEL_ID_CONTROL,
        AAPFrameType::ChannelSpecific,
        false,
        MESSAGE_ID_SHUTDOWN_REQUEST,
        nothing.as_slice(),
    )
}

pub fn build_shutdown_response() -> (packet: Packet)
    ensures
        packet@ == clear_control_packet(MESSAGE_ID_SHUTDOWN_RESPONSE, Seq::empty()),
{
    let nothing: [u8; 0] = [];
    assert(nothing@ =~= Seq::<u8>::empty());
    Packet::new_from_parts(
        CHANNEL_ID_CONTROL,
        AAPFrameType::ChannelSpecific,
        false,
        MESSAGE_ID_SHUTDOWN_RESPONSE,
        nothing.as_slice(),
    )
}

/// The messages of the control channel have their numbers, and none has that of
/// another.
pub proof fn control_messages_have_their_numbers()
    ensures
        CHANNEL_ID_CONTROL == 0,
        MESSAGE_ID_GET_VERSION_REQUEST == 1,
        MESSAGE_ID_GET_VERSION_RESPONSE == 2,
        MESSAGE_ID_HANDSHAKE == 3,
        MESSAGE_ID_AUTH_COMPLETE == 4,
        MESSAGE_ID_SERVICE_DISCOVERY_REQUEST == 5,
        MESSAGE_ID_SERVICE_DISCOVERY_RESPONSE == 6,
        MESSAGE_ID_OPEN_CHANNEL_REQUEST == 7,
        MESSAGE_ID_OPEN_CHANNEL_RESPONSE == 8,
        MESSAGE_ID_PING_REQUEST == 11,
        MESSAGE_ID_PING_RESPONSE == 12,
        MESSAGE_ID_SHUTDOWN_REQUEST == 15,
        MESSAGE_ID_SHUTDOWN_RESPONSE == 16,
        MESSAGE_ID_AUDIO_FOCUS_NOTIFICATION_REQUEST == 18,
        MESSAGE_ID_AUDIO_FOCUS_NOTIFICATION == 19,
{
}

/// What the head unit says on the control channel goes out on channel 0 and in the
/// clear, and its packets are not marked as control packets.
pub proof fn control_messages_go_out_in_the_clear(message_id: u16, message: ProtoMessage)
    ensures
        control_message(message_id, message).channel_id == 0,
        control_message(message_id, message).frame_type is ChannelSpecific,
        !control_message(message_id, message).encrypted,
        control_message(message_id, message).message_id == message_id,
        control_message(message_id, message).message == message,
{
}

/// The phone is told of the audio focus by message 19 on channel 0, in the clear,
/// with just the focus that it has got.
pub proof fn the_focus_is_told_as_granted(focus_state: AudioFocusStateType)
    ensures
        ({
            let packet = focus_notification(focus_state);
            &&& packet.channel_id == 0
            &&& packet.frame_type is ChannelSpecific
            &&& !packet.encrypted
            &&& packet.message_id == 19
            &&& packet.message is AudioFocusNotification
            &&& packet.message->AudioFocusNotification_0.focus_state == focus_state
        }),
{
}

/// A request to open a channel is answered on that channel, by a control packet in
/// the clear with message 8 and the status.
pub proof fn an_open_request_is_answered_on_its_channel(channel_id: u8, status: MessageStatus)
    ensures
        ({
            let packet = channel_open_response(channel_id, status);
            &&& packet.channel_id == channel_id
            &&& packet.frame_type is Control
            &&& !packet.encrypted
            &&& packet.message_id == 8
            &&& packet.message is ChannelOpenResponse
            &&& packet.message->ChannelOpenResponse_0.status == status
        }),
{
}

/// Bytes on the control channel go out on channel 0, in the clear and unmarked,
/// behind the two bytes of the number of their message.
pub proof fn control_bytes_follow_their_number(message_id: u16, payload: Seq<u8>)
    ensures
        ({
            let packet = clear_control_packet(message_id, payload);
            let bytes = packet.message_id_and_payload;
            &&& packet.channel_id == 0
            &&& packet.frame_type is ChannelSpecific
            &&& !packet.encrypted
            &&& bytes.len() == payload.len() + 2
            &&& 0x100 * bytes[0] + bytes[1] == message_id
            &&& forall|i: int|
                0 <= i < payload.len() ==> bytes[i + 2] == #[trigger] payload[i]
        }),
{
    crate::packet::a_packet_is_made_of_its_parts(
        CHANNEL_ID_CONTROL,
        AAPFrameType::ChannelSpecific,
        false,
        message_id,
        payload,
    );
}

/// The end of the handshake is told by message 4, with success.
pub proof fn success_is_told_in_the_clear()
    ensures
        auth_complete().channel_id == 0,
        auth_complete().frame_type is ChannelSpecific,
        !auth_complete().encrypted,
        auth_complete().message_id == 4,
        auth_complete().message is AuthResponse,
        auth_complete().message->AuthResponse_0.status is StatusSuccess,
{
}

/// The services are told encrypted, by message 6 on channel 0.
pub proof fn services_are_told_encrypted(message: ServiceDiscoveryResponse)
    ensures
        service_discovery_response(message).channel_id == 0,
        service_discovery_response(message).frame_type is ChannelSpecific,
        service_discovery_response(message).encrypted,
        service_discovery_response(message).message_id == 6,
        service_discovery_response(message).message == ProtoMessage::ServiceDiscoveryResponse(
            message,
        ),
{
}

/// A ping goes out in the clear, as message 11 on channel 0, with its date and its
/// data, and asks for no report.
pub proof fn a_ping_has_its_date(timestamp: i64, data: Vec<u8>)
    ensures
        ({
            let packet = ping_request(timestamp, data);
            &&& packet.channel_id == 0
            &&& packet.frame_type is ChannelSpecific
            &&& !packet.encrypted
            &&& packet.message_id == 11
            &&& packet.message matches ProtoMessage::PingRequest(ping)
            &&& ping.timestamp == timestamp
            &&& ping.bug_report == Some(false)
            &&& ping.data == Some(data)
        }),
{
}

} // verus!
