use aa_player::control_channel_packets::{
    build_auth_complete_packet, build_channel_open_response, build_focus_notification_packet,
    build_handshake_packet, build_ping_request_packet, build_service_discovery_response_packet,
    build_shutdown_request, build_shutdown_response, build_version_request_packet,
};
use aa_player::frame::AAPFrameType;
use aa_player::heartbeat::{HeartbeatState, Heartbeater};
use aa_player::packet::{build_frame, Packet};
use aa_player::packet_router::ChannelPacketSender;
use aa_player::protos::{
    AudioFocusNotification, AudioFocusStateType, AuthResponse, ChannelOpenResponse,
    KeyBindingResponse, MessageStatus, PingRequest, ProtoMessage, ServiceDiscoveryResponse,
};

#[test]
fn packet_starts_with_its_message_id() {
    let packet = Packet::new_from_parts(3, AAPFrameType::ChannelSpecific, true, 0x8003, &[1, 2]);
    assert_eq!(packet.message_id_and_payload, vec![0x80, 0x03, 1, 2]);
    assert_eq!(packet.message_id(), 0x8003);
    assert_eq!(packet.payload(), &[1, 2]);
    assert!(packet.has_message_id());
}

#[test]
fn packet_payload_can_be_changed() {
    let mut packet = Packet::new_from_parts(3, AAPFrameType::Control, false, 1, &[1, 2]);
    packet.payload_mut()[1] = 7;
    assert_eq!(packet.message_id_and_payload, vec![0, 1, 1, 7]);
}

#[test]
fn packet_too_short_for_a_message_id() {
    let packet = Packet {
        channel_id: 0,
        frame_type: AAPFrameType::Control,
        encrypted: false,
        message_id_and_payload: vec![1],
    };
    assert!(!packet.has_message_id());
}

#[test]
fn raw_control_packets() {
    assert_eq!(
        build_version_request_packet().message_id_and_payload,
        vec![0, 1, 0, 1, 0, 1]
    );
    assert_eq!(
        build_handshake_packet(&[4, 5]).message_id_and_payload,
        vec![0, 3, 4, 5]
    );
    assert_eq!(build_shutdown_request().message_id_and_payload, vec![0, 0x0f]);
    assert_eq!(build_shutdown_response().message_id_and_payload, vec![0, 0x10]);
    for packet in [
        build_version_request_packet(),
        build_handshake_packet(&[]),
        build_shutdown_request(),
        build_shutdown_response(),
    ] {
        assert_eq!(packet.channel_id, 0);
        assert_eq!(packet.frame_type, AAPFrameType::ChannelSpecific);
        assert!(!packet.encrypted);
    }
}

#[test]
fn control_packets_with_messages() {
    let packet = build_auth_complete_packet();
    assert_eq!((packet.channel_id, packet.message_id, packet.encrypted), (0, 4, false));
    assert_eq!(
        packet.message,
        ProtoMessage::AuthResponse(AuthResponse {
            status: MessageStatus::StatusSuccess
        })
    );

    let packet = build_focus_notification_packet(AudioFocusStateType::AudioFocusStateGainMediaOnly);
    assert_eq!((packet.channel_id, packet.message_id, packet.encrypted), (0, 0x13, false));
    assert_eq!(
        packet.message,
        ProtoMessage::AudioFocusNotification(AudioFocusNotification {
            focus_state: AudioFocusStateType::AudioFocusStateGainMediaOnly
        })
    );

    let packet = build_ping_request_packet(1234, vec![1, 2]);
    assert_eq!((packet.channel_id, packet.message_id, packet.encrypted), (0, 0x0b, false));
    assert_eq!(
        packet.message,
        ProtoMessage::PingRequest(PingRequest {
            timestamp: 1234,
            bug_report: Some(false),
            data: Some(vec![1, 2]),
        })
    );

    let packet = build_channel_open_response(6, MessageStatus::StatusInvalidService);
    assert_eq!((packet.channel_id, packet.message_id, packet.encrypted), (6, 8, false));
    assert_eq!(packet.frame_type, AAPFrameType::Control);
    assert_eq!(
        packet.message,
        ProtoMessage::ChannelOpenResponse(ChannelOpenResponse {
            status: MessageStatus::StatusInvalidService
        })
    );

    let packet = build_service_discovery_response_packet(ServiceDiscoveryResponse {
        services: vec![],
        display_name: None,
        connection_configuration: None,
        headunit_info: None,
    });
    assert_eq!((packet.channel_id, packet.message_id, packet.encrypted), (0, 6, true));
    let packet = packet.into_packet(&[9]);
    assert!(packet.encrypted);
    assert_eq!(packet.message_id_and_payload, vec![0, 6, 9]);
}

#[test]
fn channel_packets_are_encrypted() {
    let sender = ChannelPacketSender { channel_id: 4 };
    let packet = sender.send_proto(
        0x8003,
        ProtoMessage::KeyBindingResponse(KeyBindingResponse { status: 0 }),
    );
    assert_eq!((packet.channel_id, packet.message_id, packet.encrypted), (4, 0x8003, true));
    assert_eq!(packet.frame_type, AAPFrameType::ChannelSpecific);
    let packet = sender.send_raw(0x8001, &[1]);
    assert_eq!(packet.message_id_and_payload, vec![0x80, 0x01, 1]);
    assert!(packet.encrypted);
}

#[test]
fn frames_of_a_long_packet_are_numbered() {
    let first = build_frame(1, AAPFrameType::ChannelSpecific, false, 0x8001, 0, vec![0; 0x4000]);
    assert_eq!(first.frag_info, aa_player::frame::AAPFrameFragmmentation::First);
    assert_eq!(first.total_payload_length, 0x8001);
    let second = build_frame(1, AAPFrameType::ChannelSpecific, false, 0x8001, 1, vec![0; 0x4000]);
    assert_eq!(second.frag_info, aa_player::frame::AAPFrameFragmmentation::Continuation);
    let third = build_frame(1, AAPFrameType::ChannelSpecific, false, 0x8001, 2, vec![0]);
    assert_eq!(third.frag_info, aa_player::frame::AAPFrameFragmmentation::Last);
    let only = build_frame(1, AAPFrameType::ChannelSpecific, false, 0x4000, 0, vec![0; 0x4000]);
    assert_eq!(only.frag_info, aa_player::frame::AAPFrameFragmmentation::Unfragmented);
}

#[test]
fn heart_beats_while_it_is_answered() {
    let mut heartbeat = Heartbeater::start(100);
    assert_eq!(heartbeat.next_timeout, 4_000_000_100);
    heartbeat.restart_ping_countdown_timer(500);
    assert_eq!(heartbeat.next_timeout, 4_000_000_500);
    heartbeat.handle_heartbeat_ping_response(600);
    assert_eq!(heartbeat.counter, 0);
    assert_eq!(heartbeat.next_timeout, 4_000_000_500);

    let ping = heartbeat.handle_timer_elapsed(4_000_000_500, 77).unwrap();
    assert_eq!(
        ping.message,
        ProtoMessage::PingRequest(PingRequest {
            timestamp: 77,
            bug_report: Some(false),
            data: Some(vec![0, 0, 0, 0]),
        })
    );
    assert_eq!(heartbeat.state, HeartbeatState::WaitingForPingResponse);
    assert_eq!(heartbeat.next_timeout, 5_800_000_500);
    heartbeat.restart_ping_countdown_timer(5_000_000_000);
    assert_eq!(heartbeat.next_timeout, 5_800_000_500);

    heartbeat.handle_heartbeat_ping_response(5_000_000_000);
    assert_eq!(heartbeat.counter, 1);
    assert_eq!(heartbeat.next_timeout, 9_000_000_000);
    heartbeat.handle_heartbeat_ping_response(5_000_000_001);
    assert_eq!(heartbeat.counter, 1);
}

#[test]
fn heart_stops_without_an_answer() {
    let mut heartbeat = Heartbeater::start(0);
    assert!(heartbeat.handle_timer_elapsed(4_000_000_000, 1).is_ok());
    assert!(heartbeat.handle_timer_elapsed(5_800_000_000, 2).is_err());
}
