use aa_player::encryption::{accept_server_cert, CertificateVerdict};
use aa_player::frame::AAPFrameType;
use aa_player::packet::Packet;
use aa_player::packet_router::ChannelPacketSender;
use aa_player::protos::{
    Ack, AudioConfiguration, AudioStreamType, Config, ConfigStatus, EvConnectorType, FuelType,
    InputReport, KeyBindingResponse, MediaCodecType, MediaSinkService, MicrophoneResponse, Pointer,
    PointerAction, ProtoMessage, ProtoPacket, SensorSourceService, Service, TouchEvent,
    TouchScreen, TouchScreenType, VideoCodecResolutionType, VideoConfiguration, VideoFocusMode,
    VideoFrameRateType,
};
use aa_player::service::audio_renderer::{
    choose_output_config, AudioStreamRendererFactory, AudioStreamSpec, Channels, ChosenOutput,
    OutputConfig, SampleQueue, SamplingDepth,
};
use aa_player::service::audio_source::{
    self, build_content_packet, choose_input_config, AudioSourceAction, AudioSourceService,
    InputConfig, MicrophoneAction, MicrophoneSession,
};
use aa_player::service::input_service::{
    InputEventReceiver, InputEventReceiverInner, InputService,
};
use aa_player::service::media_sink::{is_offered_codec, MediaAction, MediaService, MediaSession};
use aa_player::service::media_sink::StreamRendererFactory;
use aa_player::service::video_renderer::{
    handle_video_focus_notification_request, is_navigation_event, pointer_action,
    report_navigation_event, VideoSpec, VideoStreamRendererFactory,
};
use aa_player::service::{Service as _, StubService};
use std::sync::Arc;

const SENDER: ChannelPacketSender = ChannelPacketSender { channel_id: 6 };

fn packet(message_id: u16, payload: &[u8]) -> Packet {
    Packet::new_from_parts(6, AAPFrameType::ChannelSpecific, true, message_id, payload)
}

fn key_binding_response() -> ProtoPacket {
    ProtoPacket {
        channel_id: 6,
        frame_type: AAPFrameType::ChannelSpecific,
        encrypted: true,
        message_id: 0x8003,
        message: ProtoMessage::KeyBindingResponse(KeyBindingResponse { status: 0 }),
    }
}

#[test]
fn stub_service_answers_key_binding_requests() {
    let mut descriptor = Service::bare(1);
    descriptor.sensor_source_service = Some(SensorSourceService {
        supported_fuel_types: vec![FuelType::Electric],
        supported_ev_connector_types: vec![EvConnectorType::Mennekes],
    });
    let copy = descriptor.duplicate();
    let service = StubService::new(descriptor);
    assert_eq!(service.get_id(), 1);
    assert_eq!(service.get_descriptor(), copy);
    assert_eq!(service.answer(&SENDER, &packet(0x8002, &[])), Some(key_binding_response()));
    assert_eq!(service.answer(&SENDER, &packet(0x8001, &[])), None);
}

#[test]
fn input_service_describes_its_screen() {
    let service = InputService::new(3, (1920, 1080));
    assert_eq!(service.get_id(), 3);
    let descriptor = service.get_descriptor();
    assert_eq!(descriptor.id, 3);
    assert_eq!(
        descriptor.input_source_service.unwrap().touchscreen,
        vec![TouchScreen {
            width: 1920,
            height: 1080,
            screen_type: Some(TouchScreenType::Capacitive),
            is_secondary: Some(false),
        }]
    );
    assert_eq!(service.answer(&SENDER, &packet(0x8002, &[])), Some(key_binding_response()));
    assert_eq!(service.answer(&SENDER, &packet(0x8004, &[])), None);
}

#[test]
fn video_service_describes_its_picture() {
    let spec = VideoSpec {
        resolution: VideoCodecResolutionType::Video1920x1080,
        frame_rate: VideoFrameRateType::VideoFps60,
        dpi: 300,
    };
    let service = MediaService::new(2, Arc::new(VideoStreamRendererFactory::new()), spec);
    assert_eq!(service.get_id(), 2);
    let descriptor = service.get_descriptor();
    assert_eq!(descriptor.id, 2);
    let sink = descriptor.media_sink_service.unwrap();
    assert_eq!(sink.available_type, Some(MediaCodecType::MediaCodecVideoH264Bp));
    assert_eq!(sink.available_while_in_call, Some(true));
    assert_eq!(sink.audio_type, None);
    assert_eq!(sink.audio_configs, vec![]);
    assert_eq!(
        sink.video_configs,
        vec![VideoConfiguration {
            codec_resolution: Some(VideoCodecResolutionType::Video1920x1080),
            frame_rate: Some(VideoFrameRateType::VideoFps60),
            width_margin: Some(0),
            height_margin: Some(0),
            density: Some(300),
            video_codec_type: Some(MediaCodecType::MediaCodecVideoH264Bp),
        }]
    );
    assert!(is_offered_codec(&sink, MediaCodecType::MediaCodecVideoH264Bp));
    assert!(!is_offered_codec(&sink, MediaCodecType::MediaCodecAudioPcm));
    // where no codec is named, it is the first one
    let unnamed = MediaSinkService {
        available_type: None,
        ..sink
    };
    assert!(is_offered_codec(&unnamed, MediaCodecType::MediaCodecAudioPcm));
    assert!(!is_offered_codec(&unnamed, MediaCodecType::MediaCodecVideoH264Bp));
}

#[test]
fn video_sizes_and_frame_rates() {
    for (resolution, size) in [
        (VideoCodecResolutionType::Video800x480, (800, 400)),
        (VideoCodecResolutionType::Video1280x720, (1280, 720)),
        (VideoCodecResolutionType::Video1920x1080, (1920, 1080)),
        (VideoCodecResolutionType::Video2560x1440, (2560, 1440)),
        (VideoCodecResolutionType::Video3840x2160, (3840, 2160)),
        (VideoCodecResolutionType::Video720x1280, (720, 1280)),
        (VideoCodecResolutionType::Video1080x1920, (1080, 1920)),
        (VideoCodecResolutionType::Video1440x2560, (1440, 2560)),
        (VideoCodecResolutionType::Video2160x3840, (2160, 3840)),
    ] {
        for (frame_rate, fps) in [
            (VideoFrameRateType::VideoFps60, 60),
            (VideoFrameRateType::VideoFps30, 30),
        ] {
            let spec = VideoSpec {
                resolution,
                frame_rate,
                dpi: 160,
            };
            assert_eq!(spec.size(), size);
            assert_eq!(spec.fps(), fps);
        }
    }
}

#[test]
fn navigation_events_move_the_pointer() {
    assert!(is_navigation_event("application/x-gst-navigation"));
    assert!(!is_navigation_event("application/x-gst"));
    assert_eq!(pointer_action("mouse-move"), Some(PointerAction::ActionMoved));
    assert_eq!(pointer_action("mouse-button-release"), Some(PointerAction::ActionUp));
    assert_eq!(pointer_action("mouse-button-press"), Some(PointerAction::ActionDown));
    assert_eq!(pointer_action("key-press"), None);
    assert_eq!(
        handle_video_focus_notification_request().focus,
        Some(VideoFocusMode::VideoFocusProjected)
    );
}

fn audio_spec(channels: Channels) -> AudioStreamSpec {
    AudioStreamSpec {
        sampling_rate: 16000,
        sampling_depth: SamplingDepth::Bits16,
        channels,
        stream_type: AudioStreamType::AudioStreamGuidance,
    }
}

#[test]
fn audio_service_describes_its_sound() {
    let factory = AudioStreamRendererFactory::new();
    let sink = factory.get_descriptor(&audio_spec(Channels::Stereo));
    assert_eq!(sink.available_type, Some(MediaCodecType::MediaCodecAudioPcm));
    assert_eq!(sink.audio_type, Some(AudioStreamType::AudioStreamGuidance));
    assert_eq!(sink.available_while_in_call, Some(true));
    assert_eq!(sink.video_configs, vec![]);
    assert_eq!(
        sink.audio_configs,
        vec![AudioConfiguration {
            sampling_rate: 16000,
            number_of_bits: 16,
            number_of_channels: 2,
        }]
    );
    assert_eq!((Channels::Mono.count(), Channels::Stereo.count()), (1, 2));
    assert_eq!((SamplingDepth::Bits8.bits(), SamplingDepth::Bits16.bits()), (8, 16));
    assert_eq!((SamplingDepth::Bits8.bytes(), SamplingDepth::Bits16.bytes()), (1, 2));
}

fn output(channels: u16, sample_size: usize, min: u32, max: u32) -> OutputConfig {
    OutputConfig {
        channels,
        sample_size,
        min_sample_rate: min,
        max_sample_rate: max,
    }
}

#[test]
fn output_with_the_least_replication_is_chosen() {
    let configs = vec![
        output(1, 4, 16000, 16000),
        output(2, 2, 44100, 48000),
        output(1, 2, 48000, 48000),
        output(6, 2, 16000, 16000),
        output(1, 2, 40000, 50000),
    ];
    assert_eq!(
        choose_output_config(&audio_spec(Channels::Mono), &configs),
        Some(ChosenOutput {
            index: 2,
            sample_rate: 48000,
            replicate_sample_count: 3,
        })
    );
    // stereo sound is not replicated
    assert_eq!(choose_output_config(&audio_spec(Channels::Stereo), &configs), None);
    let configs = vec![output(2, 2, 8000, 48000), output(1, 2, 8000, 48000)];
    assert_eq!(
        choose_output_config(&audio_spec(Channels::Stereo), &configs),
        Some(ChosenOutput {
            index: 0,
            sample_rate: 16000,
            replicate_sample_count: 1,
        })
    );
    assert_eq!(
        choose_output_config(&audio_spec(Channels::Mono), &configs).map(|chosen| chosen.index),
        Some(1)
    );
    assert_eq!(choose_output_config(&audio_spec(Channels::Mono), &vec![output(1, 2, 96000, 96000)]), None);
}

#[test]
fn sound_is_played_as_it_came() {
    let mut queue = SampleQueue::new();
    queue.add_content(&[1, 0, 2, 0, 0xff, 0xff, 4]);
    let mut data = [9i16; 2];
    // silence at first
    queue.fill_output(&mut data, 1, false);
    assert_eq!(data, [0, 0]);
    assert_eq!(queue.len(), 7);
    queue.fill_output(&mut data, 1, false);
    assert_eq!(data, [1, 2]);
    queue.fill_output(&mut data, 1, false);
    assert_eq!(data, [-1, 0]);
    assert_eq!(queue.len(), 1);
    queue.add_content(&[1]);
    queue.fill_output(&mut data, 1, true);
    assert_eq!(data, [0x0401, 0]);
    queue.fill_output(&mut data, 1, false);
    assert_eq!(data, [0, 0]);
}

#[test]
fn sound_is_replicated() {
    let mut queue = SampleQueue::new();
    queue.fill_output(&mut [], 2, false);
    assert!(!queue.is_ready(6, 2));
    queue.add_content(&[1, 0, 2, 0, 3, 0, 4, 0, 5, 0, 6, 0]);
    assert!(queue.is_ready(7, 2));
    assert!(!queue.is_ready(1, 2));
    assert!(!queue.is_ready(7, 0));
    let mut data = [9i16; 7];
    queue.fill_output(&mut data, 2, false);
    // half of the queue, and the second place keeps what stood there
    assert_eq!(data, [1, 2, 2, 2, 3, 3, 0]);
    assert_eq!(queue.len(), 6);
    let mut data = [9i16; 8];
    queue.fill_output(&mut data, 3, false);
    assert_eq!(data, [4, 9, 9, 0, 0, 0, 0, 0]);
    assert_eq!(queue.len(), 4);
}

#[test]
fn media_session_demands_setup_and_start() {
    let mut session = MediaSession::new();
    let content = packet(0x0000, &[0, 0, 0, 0, 0, 0, 1, 2, 7, 8]);
    assert!(session.handle_packet(&content).is_err());
    assert!(session.handle_packet(&packet(0x8001, &[])).is_err());
    assert!(session.handle_packet(&packet(0x8002, &[])).is_err());
    assert!(matches!(session.handle_packet(&packet(0x8000, &[])), Ok(MediaAction::Setup)));

    let config = |status| ProtoPacket {
        channel_id: 6,
        frame_type: AAPFrameType::ChannelSpecific,
        encrypted: true,
        message_id: 0x8003,
        message: ProtoMessage::Config(Config {
            max_unacked: Some(20),
            configuration_indices: vec![0],
            status,
        }),
    };
    assert_eq!(session.handle_setup(&SENDER, false), config(ConfigStatus::Wait));
    assert!(session.handle_packet(&packet(0x8001, &[])).is_err());
    assert_eq!(session.handle_setup(&SENDER, true), config(ConfigStatus::Ready));
    assert!(session.handle_packet(&content).is_err());
    assert!(matches!(session.handle_packet(&packet(0x8001, &[])), Ok(MediaAction::Start)));
    assert!(matches!(session.handle_packet(&packet(0x8002, &[])), Ok(MediaAction::Stop)));
    assert!(matches!(session.handle_packet(&packet(0x0001, &[])), Ok(MediaAction::Nothing)));

    session.handle_start(5);
    match session.handle_packet(&content) {
        Ok(MediaAction::Play {
            timestamp_micros,
            content,
        }) => {
            assert_eq!(timestamp_micros, 258);
            assert_eq!(content, vec![7, 8]);
        }
        _ => panic!("not played"),
    }
    assert!(!session.accepts_packet(&packet(0x0000, &[1, 2, 3])));
}

#[test]
fn messages_that_do_not_decode_are_errors() {
    let mut session = MediaSession::new();
    assert_eq!(session.handle_decoded_setup(&SENDER, None), Err(()));
    assert!(session.handle_packet(&packet(0x8001, &[])).is_err());
    let response = session.handle_decoded_setup(&SENDER, Some(true)).unwrap();
    assert_eq!(response.message_id, 0x8003);
    // what was set up stays
    assert_eq!(session.handle_decoded_setup(&SENDER, None), Err(()));
    assert!(matches!(session.handle_packet(&packet(0x8001, &[])), Ok(MediaAction::Start)));

    let content = packet(0x0000, &[0; 8]);
    assert_eq!(session.handle_decoded_start(None), Err(()));
    assert!(session.handle_packet(&content).is_err());
    assert_eq!(session.handle_decoded_start(Some(5)), Ok(()));
    assert!(session.handle_packet(&content).is_ok());
    assert_eq!(session.handle_decoded_start(None), Err(()));
    assert!(session.handle_packet(&content).is_ok());

    assert_eq!(audio_source::handle_decoded_setup(&SENDER, false), Err(()));
    assert_eq!(
        audio_source::handle_decoded_setup(&SENDER, true),
        Ok(audio_source::handle_setup(&SENDER))
    );
    let mut microphone = MicrophoneSession::new();
    assert_eq!(microphone.handle_decoded_request(&SENDER, None), Err(()));
    assert_eq!(
        microphone.handle_decoded_request(&SENDER, Some(true)),
        Ok(vec![microphone_response(0), MicrophoneAction::BeginRecording])
    );
    assert_eq!(microphone.handle_decoded_request(&SENDER, None), Err(()));
    assert_eq!(
        microphone.handle_decoded_request(&SENDER, Some(false)),
        Ok(vec![MicrophoneAction::EndRecording, microphone_response(1)])
    );
}

#[test]
fn content_is_acknowledged_in_bundles() {
    let mut session = MediaSession::new();
    session.handle_setup(&SENDER, true);
    session.handle_start(5);
    for bundle in 0..2u64 {
        for i in 0..18 {
            assert_eq!(session.handle_played(&SENDER, bundle * 100 + i), None);
        }
        let ack = session.handle_played(&SENDER, bundle * 100 + 18).unwrap();
        assert_eq!((ack.channel_id, ack.message_id), (6, 0x8004));
        assert_eq!(
            ack.message,
            ProtoMessage::Ack(Ack {
                ack: Some(1),
                receive_timestamp_ns: (0..19).map(|i| bundle * 100 + i).collect(),
                session_id: 5,
            })
        );
    }
}

#[test]
fn microphone_service_describes_its_sound() {
    let service = AudioSourceService::new(9);
    assert_eq!(service.get_id(), 9);
    let descriptor = service.get_descriptor();
    assert_eq!(descriptor.id, 9);
    let source = descriptor.media_source_service.unwrap();
    assert_eq!(source.available_type, Some(MediaCodecType::MediaCodecAudioPcm));
    assert_eq!(
        source.audio_config,
        Some(AudioConfiguration {
            sampling_rate: 16000,
            number_of_bits: 16,
            number_of_channels: 1,
        })
    );
}

#[test]
fn microphone_requests_are_answered() {
    assert_eq!(audio_source::handle_packet(&packet(0x8000, &[])), AudioSourceAction::Setup);
    assert_eq!(
        audio_source::handle_packet(&packet(0x8005, &[])),
        AudioSourceAction::MicrophoneRequest
    );
    assert_eq!(audio_source::handle_packet(&packet(0x8004, &[])), AudioSourceAction::Nothing);
    assert_eq!(audio_source::handle_packet(&packet(0x9999, &[])), AudioSourceAction::Nothing);
    assert_eq!(
        audio_source::handle_setup(&SENDER).message,
        ProtoMessage::Config(Config {
            max_unacked: None,
            configuration_indices: vec![0],
            status: ConfigStatus::Ready,
        })
    );
}

fn microphone_response(status: u32) -> MicrophoneAction {
    MicrophoneAction::Send(ProtoPacket {
        channel_id: 6,
        frame_type: AAPFrameType::ChannelSpecific,
        encrypted: true,
        message_id: 0x8006,
        message: ProtoMessage::MicrophoneResponse(MicrophoneResponse {
            session_id: Some(0),
            status,
        }),
    })
}

#[test]
fn there_is_at_most_one_recording() {
    let mut session = MicrophoneSession::new();
    assert_eq!(
        session.handle_microphone_request(&SENDER, false),
        vec![microphone_response(1)]
    );
    assert_eq!(
        session.handle_microphone_request(&SENDER, true),
        vec![microphone_response(0), MicrophoneAction::BeginRecording]
    );
    assert_eq!(
        session.handle_microphone_request(&SENDER, true),
        vec![
            MicrophoneAction::EndRecording,
            microphone_response(0),
            MicrophoneAction::BeginRecording,
        ]
    );
    assert_eq!(
        session.handle_microphone_request(&SENDER, false),
        vec![MicrophoneAction::EndRecording, microphone_response(1)]
    );
    assert_eq!(
        session.handle_microphone_request(&SENDER, false),
        vec![microphone_response(1)]
    );
}

#[test]
fn recorded_sound_carries_its_time() {
    let sound = build_content_packet(&SENDER, 0x0102_0304_0506_0708, &[9, 10]);
    assert_eq!(
        sound.message_id_and_payload,
        vec![0, 0, 1, 2, 3, 4, 5, 6, 7, 8, 9, 10]
    );
    assert!(sound.encrypted);
    // a sink reads it back
    let mut session = MediaSession::new();
    session.handle_setup(&SENDER, true);
    session.handle_start(1);
    match session.handle_packet(&sound) {
        Ok(MediaAction::Play {
            timestamp_micros,
            content,
        }) => {
            assert_eq!(timestamp_micros, 0x0102_0304_0506_0708);
            assert_eq!(content, vec![9, 10]);
        }
        _ => panic!("not played"),
    }
}

#[test]
fn first_usable_microphone_is_chosen() {
    let input = |channels, is_i16| InputConfig { channels, is_i16 };
    assert_eq!(
        choose_input_config(&vec![input(2, true), input(1, false), input(1, true), input(1, true)]),
        Some(2)
    );
    assert_eq!(choose_input_config(&vec![input(2, true)]), None);
    assert_eq!(choose_input_config(&vec![]), None);
}

fn report(action: PointerAction, x: u32, y: u32, timestamp: u64) -> Option<ProtoPacket> {
    Some(ProtoPacket {
        channel_id: 6,
        frame_type: AAPFrameType::ChannelSpecific,
        encrypted: true,
        message_id: 0x8001,
        message: ProtoMessage::InputReport(InputReport {
            timestamp,
            touch_event: Some(TouchEvent {
                pointer_data: vec![Pointer { x, y, pointer_id: 0 }],
                action: Some(action),
            }),
        }),
    })
}

const MS: u64 = 1_000_000;

#[test]
fn distances_are_squared() {
    assert_eq!(InputEventReceiverInner::calc_distance_squared((1, 10), (4, 6)), 25);
    assert_eq!(InputEventReceiverInner::calc_distance_squared((4, 6), (1, 10)), 25);
    assert_eq!(InputEventReceiverInner::calc_distance_squared((65535, 0), (0, 0)), 65535 * 65535);
}

#[test]
fn moves_are_debounced() {
    let mut inner = InputEventReceiverInner::new(SENDER);
    let moved = PointerAction::ActionMoved;
    // nothing moves before it is down
    assert_eq!(inner.report_touch_event(moved, (1, 1), 1000 * MS), None);
    assert_eq!(
        inner.report_touch_event(PointerAction::ActionDown, (1, 1), 1000 * MS),
        report(PointerAction::ActionDown, 1, 1, 1_000_000)
    );
    assert_eq!(
        inner.report_touch_event(moved, (100, 100), 1001 * MS),
        report(moved, 100, 100, 1_001_000)
    );
    // soon and near
    assert_eq!(inner.report_touch_event(moved, (109, 111), 1030 * MS), None);
    // soon and far
    assert_eq!(
        inner.report_touch_event(moved, (109, 112), 1030 * MS),
        report(moved, 109, 112, 1_030_000)
    );
    // the clock went back
    assert_eq!(inner.report_touch_event(moved, (109, 112), 900 * MS), None);
    // near and late
    assert_eq!(
        inner.report_touch_event(moved, (109, 112), 1060 * MS),
        report(moved, 109, 112, 1_060_000)
    );
    assert_eq!(
        inner.report_touch_event(PointerAction::ActionPointerUp, (109, 112), 1061 * MS),
        report(PointerAction::ActionPointerUp, 109, 112, 1_061_000)
    );
    assert_eq!(inner.report_touch_event(moved, (900, 900), 2000 * MS), None);
}

#[test]
fn touches_need_a_channel() {
    let mut receiver = InputEventReceiver::new();
    assert_eq!(receiver.report_touch_event(PointerAction::ActionDown, (1, 2), MS), None);
    receiver.register_packet_sender(SENDER);
    assert_eq!(
        receiver.report_touch_event(PointerAction::ActionDown, (1, 2), MS),
        report(PointerAction::ActionDown, 1, 2, 1000)
    );
    receiver.handle_sent(Ok(Some(())));
    assert!(receiver.report_touch_event(PointerAction::ActionUp, (1, 2), MS).is_some());
    receiver.handle_sent(Ok(None));
    assert_eq!(receiver.report_touch_event(PointerAction::ActionUp, (1, 2), MS), None);
    receiver.register_packet_sender(SENDER);
    receiver.handle_sent(Err(()));
    assert_eq!(receiver.report_touch_event(PointerAction::ActionUp, (1, 2), MS), None);
    receiver.register_packet_sender(SENDER);
    receiver.unregister_packet_sender();
    assert_eq!(receiver.report_touch_event(PointerAction::ActionUp, (1, 2), MS), None);
}

#[test]
fn far_jumps_cannot_be_measured() {
    let mut receiver = InputEventReceiver::new();
    receiver.register_packet_sender(SENDER);
    receiver.report_touch_event(PointerAction::ActionDown, (0, 0), MS);
    receiver.report_touch_event(PointerAction::ActionMoved, (0, 0), MS);
    let moved = PointerAction::ActionMoved;
    assert!(!receiver.accepts_touch_event(moved, (u32::MAX, 0), 2 * MS));
    assert!(receiver.accepts_touch_event(moved, (u32::MAX, 0), 40 * MS));
    assert!(receiver.accepts_touch_event(moved, (5, 0), 2 * MS));
}

#[test]
fn certificates_need_not_name_the_phone() {
    assert!(accept_server_cert(CertificateVerdict::Valid));
    assert!(accept_server_cert(CertificateVerdict::NotValidForName));
    assert!(!accept_server_cert(CertificateVerdict::Rejected));
}

#[test]
fn navigation_events_are_reported_without_debouncing() {
    for _ in 0..2 {
        let outcome = report_navigation_event(Some(SENDER), "mouse-move", (3, 4), 5 * MS);
        assert!(outcome.handled);
        assert_eq!(outcome.packet, report(PointerAction::ActionMoved, 3, 4, 5000));
    }
    let outcome = report_navigation_event(None, "mouse-button-press", (3, 4), 5 * MS);
    assert!(outcome.handled);
    assert_eq!(outcome.packet, None);
    let outcome = report_navigation_event(Some(SENDER), "key-press", (3, 4), 5 * MS);
    assert!(!outcome.handled);
    assert_eq!(outcome.packet, None);
}
