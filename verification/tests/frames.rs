use aa_player::frame::{
    AAPFrame, AAPFrameCodec, AAPFrameFragmmentation, AAPFrameType, FrameRead,
};

fn frame(frag_info: AAPFrameFragmmentation, payload: &[u8]) -> AAPFrame {
    AAPFrame {
        channel_id: 5,
        frag_info,
        frame_type: AAPFrameType::ChannelSpecific,
        encrypted: false,
        total_payload_length: payload.len(),
        payload: payload.to_vec(),
    }
}

fn read(bytes: &[u8]) -> (AAPFrame, usize) {
    match AAPFrameCodec::new().read_frame(bytes) {
        FrameRead::Frame(frame, consumed) => (frame, consumed),
        FrameRead::NeedMore(count) => panic!("{} more bytes needed", count),
    }
}

fn missing(bytes: &[u8]) -> usize {
    match AAPFrameCodec::new().read_frame(bytes) {
        FrameRead::NeedMore(count) => count,
        FrameRead::Frame(_, _) => panic!("no more bytes needed"),
    }
}

#[test]
fn unfragmented_frame_is_written_with_a_short_header() {
    let bytes = AAPFrameCodec::new()
        .write_frame(frame(AAPFrameFragmmentation::Unfragmented, &[7, 8, 9]));
    assert_eq!(bytes, vec![5, 3, 0, 3, 7, 8, 9]);
}

#[test]
fn flags_tell_type_and_encryption() {
    let mut item = frame(AAPFrameFragmmentation::Last, &[1]);
    item.frame_type = AAPFrameType::Control;
    item.encrypted = true;
    let bytes = AAPFrameCodec::new().write_frame(item);
    assert_eq!(bytes, vec![5, 0b1110, 0, 1, 1]);
    let (frame, consumed) = read(&bytes);
    assert_eq!(consumed, 5);
    assert_eq!(frame.frag_info, AAPFrameFragmmentation::Last);
    assert_eq!(frame.frame_type, AAPFrameType::Control);
    assert!(frame.encrypted);
}

#[test]
fn first_frame_is_written_with_the_length_of_the_packet() {
    let mut item = frame(AAPFrameFragmmentation::First, &[1, 2]);
    item.total_payload_length = 0x0102_0304;
    let bytes = AAPFrameCodec::new().write_frame(item);
    assert_eq!(bytes, vec![5, 3, 0, 2, 1, 2, 3, 4, 1, 2]);
}

#[test]
fn first_frame_is_read_with_two_more_header_bytes() {
    let (frame, consumed) = read(&[5, 1, 0, 2, 0, 9, 1, 2]);
    assert_eq!(consumed, 8);
    assert_eq!(frame.frag_info, AAPFrameFragmmentation::First);
    assert_eq!(frame.total_payload_length, 0x0002_0009);
    assert_eq!(frame.payload, vec![1, 2]);
}

#[test]
fn written_frames_are_read_back() {
    for frag_info in [
        AAPFrameFragmmentation::Continuation,
        AAPFrameFragmmentation::Last,
        AAPFrameFragmmentation::Unfragmented,
    ] {
        let mut bytes = AAPFrameCodec::new().write_frame(frame(frag_info, &[0xaa; 300]));
        let len = bytes.len();
        assert_eq!(bytes[2..4], [1, 44]);
        bytes.extend([1, 2, 3]);
        let (frame, consumed) = read(&bytes);
        assert_eq!(consumed, len);
        assert_eq!(frame.channel_id, 5);
        assert_eq!(frame.frag_info, frag_info);
        assert_eq!(frame.total_payload_length, 300);
        assert_eq!(frame.payload, vec![0xaa; 300]);
        // and written back
        assert_eq!(AAPFrameCodec::new().write_frame(frame), bytes[..len]);
    }
}

#[test]
fn long_payload_lengths_are_cut_to_sixteen_bits() {
    let bytes = AAPFrameCodec::new()
        .write_frame(frame(AAPFrameFragmmentation::Unfragmented, &[0; 0x1_0002]));
    assert_eq!(bytes[2..4], [0, 2]);
    assert_eq!(bytes.len(), 4 + 0x1_0002);
}

#[test]
fn reader_asks_for_what_is_missing() {
    assert_eq!(missing(&[]), 4);
    assert_eq!(missing(&[5, 3, 0]), 1);
    assert_eq!(missing(&[5, 3, 0, 7]), 7);
    assert_eq!(missing(&[5, 1, 0, 7]), 2);
    assert_eq!(missing(&[5, 1, 0, 7, 0, 0]), 7);
    assert_eq!(missing(&[5, 3, 0, 7, 1, 2]), 5);
}

#[test]
fn what_follows_a_frame_is_left_alone() {
    let (frame, consumed) = read(&[5, 0, 0, 1, 9, 5, 0, 0, 1, 8]);
    assert_eq!(frame.payload, vec![9]);
    assert_eq!(frame.frag_info, AAPFrameFragmmentation::Continuation);
    assert_eq!(consumed, 5);
}
