use aa_player::aoa::{
    find_aoa_endpoints, is_aoa_device, AltSettingDescriptor, AoaEndpoints, AoaSwitch,
    ConfigurationDescriptor, ControlTransfer, EndpointDescriptor, InterfaceDescriptor,
    TransferDirection, TransferType,
};
use aa_player::frame::{
    AAPFrame, AAPFrameCodec, AAPFrameFragmmentation, AAPFrameType, FrameRead,
};
use aa_player::usb::{
    begin_receiving, handle_outgoing_event, handle_received_frame, received_event, DeviceDecision,
    IncomingEvent, OutgoingEvent, PhoneTakeover, SendStep, UsbInternalState,
};
use aa_player::usb_stream::{UsbReader, UsbWriter};

fn endpoint(
    transfer_type: TransferType,
    direction: TransferDirection,
    address: u8,
    max_packet_size: usize,
) -> EndpointDescriptor {
    EndpointDescriptor {
        transfer_type,
        direction,
        address,
        max_packet_size,
    }
}

fn interface(interface_number: u8, alt_settings: Vec<Vec<EndpointDescriptor>>) -> InterfaceDescriptor {
    InterfaceDescriptor {
        interface_number,
        alt_settings: alt_settings
            .into_iter()
            .map(|endpoints| AltSettingDescriptor { endpoints })
            .collect(),
    }
}

fn frame(payload: &[u8]) -> AAPFrame {
    AAPFrame {
        channel_id: 1,
        frag_info: AAPFrameFragmmentation::Unfragmented,
        frame_type: AAPFrameType::ChannelSpecific,
        encrypted: false,
        total_payload_length: payload.len(),
        payload: payload.to_vec(),
    }
}

#[test]
fn accessory_mode_is_recognised() {
    assert!(is_aoa_device(0x18d1, 0x2d00));
    assert!(is_aoa_device(0x18d1, 0x2d01));
    assert!(!is_aoa_device(0x18d1, 0x4ee1));
    assert!(!is_aoa_device(0x04e8, 0x2d00));
}

#[test]
fn first_pair_of_bulk_endpoints_is_taken() {
    let bulk_in = endpoint(TransferType::Bulk, TransferDirection::In, 0x81, 512);
    let bulk_out = endpoint(TransferType::Bulk, TransferDirection::Out, 0x02, 64);
    let interrupt = endpoint(TransferType::Interrupt, TransferDirection::In, 0x83, 8);
    let configurations = vec![
        ConfigurationDescriptor {
            configuration_value: 1,
            interfaces: vec![
                interface(0, vec![vec![interrupt], vec![interrupt, bulk_in]]),
                interface(1, vec![vec![bulk_out]]),
            ],
        },
        ConfigurationDescriptor {
            configuration_value: 2,
            interfaces: vec![
                interface(4, vec![vec![]]),
                interface(5, vec![vec![interrupt], vec![bulk_out, interrupt, bulk_in]]),
                interface(6, vec![vec![bulk_in, bulk_out]]),
            ],
        },
    ];
    assert_eq!(
        find_aoa_endpoints(&configurations),
        Some(AoaEndpoints {
            configuration_value: 2,
            interface_number: 5,
            in_endpoint_address: 0x81,
            out_endpoint_address: 0x02,
            max_packet_size: 512,
        })
    );
    assert_eq!(find_aoa_endpoints(&configurations[..1].iter().map(|c| ConfigurationDescriptor {
        configuration_value: c.configuration_value,
        interfaces: vec![],
    }).collect()), None);
}

#[test]
fn phone_is_switched_to_accessory_mode() {
    let mut switch = AoaSwitch::AskForProtocol;
    let mut log = Vec::new();
    while let Some(transfer) = switch.transfer() {
        let reply: Vec<u8> = match transfer {
            ControlTransfer::In { request, index, length } => {
                assert_eq!((request, index, length), (51, 0, 2));
                vec![2, 0]
            }
            ControlTransfer::Out { request, index, data } => {
                log.push((request, index, data));
                vec![]
            }
        };
        switch = switch.advance(Ok(&reply)).unwrap();
    }
    assert_eq!(switch, AoaSwitch::Done);
    assert_eq!(
        log,
        vec![
            (52, 0, b"Android\0".to_vec()),
            (52, 1, b"Android\0".to_vec()),
            (52, 2, b"Auto\0".to_vec()),
            (52, 3, b"1.0\0".to_vec()),
            (52, 4, b"\0".to_vec()),
            (52, 5, b"\0".to_vec()),
            (53, 0, vec![]),
        ]
    );
}

#[test]
fn other_devices_are_not_switched() {
    assert_eq!(AoaSwitch::AskForProtocol.advance(Ok(&[1, 0])), Ok(AoaSwitch::Done));
    assert_eq!(AoaSwitch::AskForProtocol.advance(Ok(&[2])), Ok(AoaSwitch::Done));
    assert_eq!(AoaSwitch::AskForProtocol.advance(Err(())), Ok(AoaSwitch::Done));
    assert_eq!(AoaSwitch::SendString(2).advance(Err(())), Err(()));
    assert_eq!(AoaSwitch::Start.advance(Err(())), Err(()));
}

#[test]
fn reads_span_packets() {
    let mut reader = UsbReader::new();
    let mut buf = Vec::new();
    assert_eq!(reader.read_available(&mut buf, 3), 3);
    assert!(reader.refill_buffer(vec![1, 2]));
    assert_eq!(reader.read_available(&mut buf, 3), 1);
    assert!(!reader.refill_buffer(vec![]));
    assert_eq!(reader.read_available(&mut buf, 1), 1);
    assert!(reader.refill_buffer(vec![3, 4, 5]));
    assert_eq!(reader.read_available(&mut buf, 1), 0);
    assert_eq!(buf, vec![1, 2, 3]);
    assert_eq!(reader.read_available(&mut buf, 2), 0);
    assert_eq!(buf, vec![1, 2, 3, 4, 5]);
    assert_eq!(reader.read_available(&mut buf, 0), 0);
}

#[test]
fn writes_are_cut_into_packets() {
    let mut writer = UsbWriter::new(4);
    assert_eq!(writer.write_all(&[1, 2, 3]), Vec::<Vec<u8>>::new());
    assert_eq!(writer.write_all(&[4]), vec![vec![1, 2, 3, 4]]);
    assert_eq!(
        writer.write_all(&[5, 6, 7, 8, 9, 10, 11, 12, 13]),
        vec![vec![5, 6, 7, 8], vec![9, 10, 11, 12]]
    );
    assert_eq!(writer.flush_buffer(), vec![13]);
    assert_eq!(writer.flush_buffer(), Vec::<u8>::new());
    assert_eq!(writer.write_all(&[]), Vec::<Vec<u8>>::new());
}

#[test]
fn frames_cross_the_link() {
    let mut writer = UsbWriter::new(8);
    let packets = writer.frame_packets(&mut AAPFrameCodec::new(), frame(&[9; 12]));
    assert_eq!(packets.iter().map(|packet| packet.len()).collect::<Vec<_>>(), vec![8, 8, 0]);

    let mut reader = UsbReader::new();
    let mut packets = packets.into_iter();
    let mut bytes = Vec::new();
    let frame = loop {
        match AAPFrameCodec::new().read_frame(&bytes) {
            FrameRead::Frame(frame, consumed) => {
                assert_eq!(consumed, 16);
                break frame;
            }
            FrameRead::NeedMore(count) => {
                let mut pending = count;
                loop {
                    pending = reader.read_available(&mut bytes, pending);
                    if pending == 0 {
                        break;
                    }
                    reader.refill_buffer(packets.next().unwrap());
                }
            }
        }
    };
    assert_eq!(frame.channel_id, 1);
    assert_eq!(frame.payload, vec![9; 12]);
}

#[test]
fn one_phone_is_talked_to_at_a_time() {
    let mut state = UsbInternalState::new();
    assert_eq!(
        state.handle_connected_device(0x18d1, 0x2d00, false),
        DeviceDecision::Talk
    );
    assert_eq!(
        state.handle_connected_device(0x18d1, 0x4ee1, false),
        DeviceDecision::Switch
    );
    state.connect(7);
    assert_eq!(state.connected_device(), Some(7));
    assert_eq!(
        state.handle_connected_device(0x18d1, 0x2d00, false),
        DeviceDecision::Ignore
    );
    assert_eq!(
        state.handle_connected_device(0x18d1, 0x2d01, true),
        DeviceDecision::Talk
    );
    assert!(!state.handle_disconnected_device(8));
    assert_eq!(state.connected_device(), Some(7));
    assert!(state.handle_disconnected_device(7));
    assert_eq!(state.connected_device(), None);
    assert!(!state.handle_disconnected_device(7));
}

fn phone_configurations() -> Vec<ConfigurationDescriptor> {
    vec![ConfigurationDescriptor {
        configuration_value: 1,
        interfaces: vec![interface(
            4,
            vec![vec![
                endpoint(TransferType::Bulk, TransferDirection::In, 0x81, 512),
                endpoint(TransferType::Bulk, TransferDirection::Out, 0x02, 512),
            ]],
        )],
    }]
}

const PHONE_ENDPOINTS: AoaEndpoints = AoaEndpoints {
    configuration_value: 1,
    interface_number: 4,
    in_endpoint_address: 0x81,
    out_endpoint_address: 0x02,
    max_packet_size: 512,
};

#[test]
fn a_phone_is_taken_over_step_by_step() {
    let mut state = UsbInternalState::new();
    let next = state.advance_takeover(7, PhoneTakeover::Open, Ok(phone_configurations()));
    assert_eq!(next, Ok(PhoneTakeover::Wait(PHONE_ENDPOINTS)));
    let next = state.advance_takeover(7, next.unwrap(), Ok(vec![]));
    assert_eq!(next, Ok(PhoneTakeover::Claim(PHONE_ENDPOINTS)));
    assert_eq!(state.connected_device(), None);
    let next = state.advance_takeover(7, next.unwrap(), Ok(vec![]));
    assert_eq!(next, Ok(PhoneTakeover::EmptyQueue(PHONE_ENDPOINTS)));
    assert_eq!(state.connected_device(), Some(7));
    let next = state.advance_takeover(7, next.unwrap(), Ok(vec![]));
    assert_eq!(next, Ok(PhoneTakeover::StartTasks(PHONE_ENDPOINTS)));
    let next = state.advance_takeover(7, next.unwrap(), Ok(vec![]));
    assert_eq!(next, Ok(PhoneTakeover::Done));
    assert_eq!(state.advance_takeover(7, next.unwrap(), Ok(vec![])), Ok(PhoneTakeover::Done));
    assert_eq!(state.connected_device(), Some(7));
}

#[test]
fn a_failed_takeover_changes_nothing() {
    let mut state = UsbInternalState::new();
    assert_eq!(state.advance_takeover(7, PhoneTakeover::Open, Err(())), Err(()));
    assert_eq!(
        state.advance_takeover(7, PhoneTakeover::Open, Ok(vec![])),
        Ok(PhoneTakeover::Done)
    );
    assert_eq!(
        state.advance_takeover(7, PhoneTakeover::Claim(PHONE_ENDPOINTS), Err(())),
        Err(())
    );
    assert_eq!(state.connected_device(), None);
}

#[test]
fn a_failed_read_closes_the_link() {
    let step = handle_received_frame(Err(()), false);
    assert!(matches!(step.event, IncomingEvent::Closed));
    assert!(step.terminate && step.stop);
    let step = handle_received_frame(Err(()), true);
    assert!(!step.terminate && step.stop);
    let step = handle_received_frame(Ok(frame(&[1])), false);
    assert!(matches!(step.event, IncomingEvent::Frame(_)));
    assert!(!step.terminate && !step.stop);
}

#[test]
fn the_link_is_reported_from_its_beginning_to_its_end() {
    let results = [Ok(frame(&[1])), Ok(frame(&[2])), Err(()), Ok(frame(&[3]))];
    let mut events = vec![begin_receiving()];
    let mut terminated = false;
    for result in results {
        let step = handle_received_frame(result, terminated);
        terminated = terminated || step.terminate;
        events.push(step.event);
        if step.stop {
            break;
        }
    }
    assert!(terminated);
    assert_eq!(events.len(), 4);
    assert!(matches!(&events[0], IncomingEvent::Connected));
    assert!(matches!(&events[1], IncomingEvent::Frame(frame) if frame.payload == [1]));
    assert!(matches!(&events[2], IncomingEvent::Frame(frame) if frame.payload == [2]));
    assert!(matches!(&events[3], IncomingEvent::Closed));
}

#[test]
fn outgoing_events_become_packets() {
    let mut codec = AAPFrameCodec::new();
    let mut writer = UsbWriter::new(512);
    match handle_outgoing_event(
        Some(OutgoingEvent::Frame(frame(&[1]))),
        &mut codec,
        &mut writer,
    ) {
        SendStep::Send(packets) => assert_eq!(packets, vec![vec![1, 3, 0, 1, 1]]),
        _ => panic!("not sent"),
    }
    assert!(matches!(
        handle_outgoing_event(Some(OutgoingEvent::Close), &mut codec, &mut writer),
        SendStep::Terminate
    ));
    assert!(matches!(
        handle_outgoing_event(None, &mut codec, &mut writer),
        SendStep::Stop
    ));
}

#[test]
fn the_end_of_the_queue_is_the_end_of_the_link() {
    assert!(matches!(received_event(None), IncomingEvent::Closed));
    assert!(matches!(
        received_event(Some(IncomingEvent::Connected)),
        IncomingEvent::Connected
    ));
}
