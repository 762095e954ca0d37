//! Frames: the unit that travels over the accessory link, and its byte form.
use crate::byte_order::{
    be_bytes_u16, be_bytes_u32, be_u16, be_u32, read_u16, read_u32, write_u16, write_u32,
};
use vstd::prelude::*;

verus! {

/// Where in a fragmented packet the payload of a frame belongs.
#[derive(Debug, Clone, Copy, PartialEq, Eq, Structural)]
pub enum AAPFrameFragmmentation {
    Continuation,
    First,
    Last,
    Unfragmented,
}

/// What the payload of a frame is addressed to.
#[derive(Debug, Clone, Copy, PartialEq, Eq, Structural)]
pub enum AAPFrameType {
    ChannelSpecific,
    Control,
}

/// One frame of the link.
#[derive(Debug)]
pub struct AAPFrame {
    pub channel_id: u8,
    pub frag_info: AAPFrameFragmmentation,
    pub frame_type: AAPFrameType,
    pub encrypted: bool,
    pub total_payload_length: usize,
    pub payload: Vec<u8>,
}

/// The value of an [`AAPFrame`].
pub struct FrameView {
    pub channel_id: u8,
    pub frag_info: AAPFrameFragmmentation,
    pub frame_type: AAPFrameType,
    pub encrypted: bool,
    pub total_payload_length: nat,
    pub payload: Seq<u8>,
}

impl View for AAPFrame {
    type V = FrameView;

    open spec fn view(&self) -> FrameView {
        FrameView {
            channel_id: self.channel_id,
            frag_info: self.frag_info,
            frame_type: self.frame_type,
            encrypted: self.encrypted,
            total_payload_length: self.total_payload_length as nat,
            payload: self.payload@,
        }
    }
}

/// Both fragmentation bits, which mark a header that carries the long
/// payload length.
pub const LONG_PAYLOAD_LENGTH_MASK: u8 = 0x03;

/// The bits of the flags that hold the fragmentation.
pub const FRAGMENTATION_MASK: u8 = 0x03;

/// The bit of the flags that is set on control frames.
pub const TYPE_MASK: u8 = 0x04;

/// The bit of the flags that is set on encrypted frames.
pub const ENCRYPTED_PAYLOAD_MASK: u8 = 0x08;

/// The fragmentation that the two low bits of `flags` stand for.
pub open spec fn flags_fragmentation(flags: u8) -> AAPFrameFragmmentation {
    if flags % 4 == 0 {
        AAPFrameFragmmentation::Continuation
    } else if flags % 4 == 1 {
        AAPFrameFragmmentation::First
    } else if flags % 4 == 2 {
        AAPFrameFragmmentation::Last
    } else {
        AAPFrameFragmmentation::Unfragmented
    }
}

/// The frame type that the third bit of `flags` stands for.
pub open spec fn flags_type(flags: u8) -> AAPFrameType {
    if (flags / 4) % 2 == 1 {
        AAPFrameType::Control
    } else {
        AAPFrameType::ChannelSpecific
    }
}

/// Whether the fourth bit of `flags` marks the payload as encrypted.
pub open spec fn flags_encrypted(flags: u8) -> bool {
    (flags / 8) % 2 == 1
}

/// The flags that a frame is written with. The first fragment of a packet is
/// written with both fragmentation bits set, as is an unfragmented frame.
pub open spec fn frame_flags(frame: FrameView) -> u8 {
    let fragmentation: int = match frame.frag_info {
        AAPFrameFragmmentation::Continuation => 0,
        AAPFrameFragmmentation::First => 3,
        AAPFrameFragmmentation::Last => 2,
        AAPFrameFragmmentation::Unfragmented => 3,
    };
    let control: int = if frame.frame_type is Control { 4 } else { 0 };
    let encrypted: int = if frame.encrypted { 8 } else { 0 };
    (fragmentation + control + encrypted) as u8
}

/// The header that a frame is written with: channel, flags, the low sixteen
/// bits of the payload length and, on the first fragment of a packet, the low
/// thirty-two bits of the length of the whole packet.
pub open spec fn encoded_header(frame: FrameView) -> Seq<u8> {
    seq![frame.channel_id, frame_flags(frame)]
        + be_bytes_u16((frame.payload.len() % 0x1_0000) as u16)
        + if frame.frag_info is First {
            be_bytes_u32((frame.total_payload_length % 0x1_0000_0000) as u32)
        } else {
            Seq::empty()
        }
}

/// The bytes that a frame is written as.
pub open spec fn encoded_frame(frame: FrameView) -> Seq<u8> {
    encoded_header(frame) + frame.payload
}

/// What reading a frame from the front of a byte stream comes to.
pub enum FrameParse {
    /// This many bytes are to be read before the next decision can be taken.
    NeedMore(nat),
    /// The frame, and how many bytes of the stream it took.
    Frame(FrameView, nat),
}

/// The header length that the flags in the second byte announce.
pub open spec fn read_header_len(bytes: Seq<u8>) -> nat {
    if flags_fragmentation(bytes[1]) is First {
        6
    } else {
        4
    }
}

/// The frame whose header and payload stand at the front of `bytes`.
pub open spec fn frame_at_front(bytes: Seq<u8>) -> FrameView {
    let header_len = read_header_len(bytes);
    let payload_len = be_u16(bytes.skip(2));
    FrameView {
        channel_id: bytes[0],
        frag_info: flags_fragmentation(bytes[1]),
        frame_type: flags_type(bytes[1]),
        encrypted: flags_encrypted(bytes[1]),
        total_payload_length: if flags_fragmentation(bytes[1]) is First {
            be_u32(bytes.skip(2)) as nat
        } else {
            payload_len as nat
        },
        payload: bytes.subrange(header_len as int, header_len + payload_len),
    }
}

/// Reads one frame from the front of `bytes`. A header has four bytes, or six
/// where it announces the first fragment of a packet; then the payload
/// follows, as long as the third and fourth byte say.
pub open spec fn parse_frame(bytes: Seq<u8>) -> FrameParse {
    if bytes.len() < 4 {
        FrameParse::NeedMore((4 - bytes.len()) as nat)
    } else {
        let header_len = read_header_len(bytes);
        let frame_len = (header_len + be_u16(bytes.skip(2))) as nat;
        if bytes.len() < header_len {
            FrameParse::NeedMore((header_len - bytes.len()) as nat)
        } else if bytes.len() < frame_len {
            FrameParse::NeedMore((frame_len - bytes.len()) as nat)
        } else {
            FrameParse::Frame(frame_at_front(bytes), frame_len)
        }
    }
}

/// What [`AAPFrameCodec::read_frame`] made of the bytes that have arrived.
#[derive(Debug)]
pub enum FrameRead {
    /// This many bytes are to be read before the next decision can be taken.
    NeedMore(usize),
    /// The frame, and how many bytes of the stream it took.
    Frame(AAPFrame, usize),
}

impl View for FrameRead {
    type V = FrameParse;

    open spec fn view(&self) -> FrameParse {
        match self {
            FrameRead::NeedMore(count) => FrameParse::NeedMore(*count as nat),
            FrameRead::Frame(frame, consumed) => FrameParse::Frame(frame@, *consumed as nat),
        }
    }
}

/// Turns frames into bytes and bytes into frames.
#[derive(Debug)]
pub struct AAPFrameCodec;

impl AAPFrameCodec {
    pub fn new() -> (codec: Self)
        ensures
            codec == AAPFrameCodec,
    {
        AAPFrameCodec
    }

    /// Reads one frame from the front of the bytes that have arrived since
    /// the last frame. Where they do not suffice, the result says how many
    /// more to wait for: four for the header, two more on the first fragment
    /// of a packet, and then the whole payload.
    pub fn read_frame(&mut self, available: &[u8]) -> (read: FrameRead)
        ensures
            read@ == parse_frame(available@),
            *final(self) == *old(self),
    {
        if available.len() < 4 {
            return FrameRead::NeedMore(4 - available.len());
        }
        let channel_id: u8 = available[0];
        let flags: u8 = available[1];
        proof {
            lemma_flag_bits(flags);
        }
        let fragmentation_bits: u8 = flags & FRAGMENTATION_MASK;
        let frag_info = if fragmentation_bits == 0 {
            AAPFrameFragmmentation::Continuation
        } else if fragmentation_bits == 1 {
            AAPFrameFragmmentation::First
        } else if fragmentation_bits == 2 {
            AAPFrameFragmmentation::Last
        } else {
            AAPFrameFragmmentation::Unfragmented
        };
        let length_bytes: &[u8] = &available[2..available.len()];
        assert(length_bytes@ =~= available@.skip(2));
        let fragment_payload_length: usize = read_u16(length_bytes) as usize;
        let first: bool = matches!(frag_info, AAPFrameFragmmentation::First);
        let header_len: usize = if first {
            6
        } else {
            4
        };
        if available.len() < header_len {
            return FrameRead::NeedMore(header_len - available.len());
        }
        let frame_len: usize = header_len + fragment_payload_length;
        if available.len() < frame_len {
            return FrameRead::NeedMore(frame_len - available.len());
        }
        let total_payload_length: usize = if first {
            read_u32(length_bytes) as usize
        } else {
            fragment_payload_length
        };
        let encrypted: bool = (flags & ENCRYPTED_PAYLOAD_MASK) == ENCRYPTED_PAYLOAD_MASK;
        let frame_type = if (flags & TYPE_MASK) == TYPE_MASK {
            AAPFrameType::Control
        } else {
            AAPFrameType::ChannelSpecific
        };
        let mut payload: Vec<u8> = Vec::new();
        payload.extend_from_slice(&available[header_len..frame_len]);
        assert(payload@ =~= available@.subrange(header_len as int, frame_len as int));
        FrameRead::Frame(
            AAPFrame {
                channel_id,
                frag_info,
                frame_type,
                encrypted,
                total_payload_length,
                payload,
            },
            frame_len,
        )
    }

    /// The bytes to write for `item`: its header, then its payload.
    pub fn write_frame(&mut self, item: AAPFrame) -> (bytes: Vec<u8>)
        ensures
            bytes@ == encoded_frame(item@),
            *final(self) == *old(self),
    {
        let mut flags: u8 = 0;
        if matches!(item.frame_type, AAPFrameType::Control) {
            flags = flags | TYPE_MASK;
        }
        if item.encrypted {
            flags = flags | ENCRYPTED_PAYLOAD_MASK;
        }
        let fragmentation_bits: u8 = match item.frag_info {
            AAPFrameFragmmentation::Continuation => 0,
            AAPFrameFragmmentation::First => 1,
            AAPFrameFragmmentation::Last => 2,
            AAPFrameFragmmentation::Unfragmented => 3,
        };
        flags = flags | fragmentation_bits;

        let first: bool = matches!(item.frag_info, AAPFrameFragmmentation::First);
        let header_len: usize = if first {
            8
        } else {
            4
        };
        let mut bytes: Vec<u8> = vec![0u8; header_len];
        if first {
            flags = flags | LONG_PAYLOAD_LENGTH_MASK;
        }
        proof {
            lemma_flags_value(item@, flags, fragmentation_bits);
        }
        bytes[0] = item.channel_id;
        bytes[1] = flags;
        {
            let (_, lengths) = bytes.as_mut_slice().split_at_mut(2);
            write_u16(lengths, #[verifier::truncate] (item.payload.len() as u16));
        }
        if first {
            let (_, total) = bytes.as_mut_slice().split_at_mut(4);
            write_u32(total, #[verifier::truncate] (item.total_payload_length as u32));
        }
        proof {
            lemma_truncation(item.payload.len(), item.total_payload_length);
            assert(bytes@ =~= encoded_header(item@));
        }
        bytes.extend_from_slice(item.payload.as_slice());
        assert(bytes@ =~= encoded_frame(item@));
        bytes
    }
}

/// Reading back what was written gives the frame, whatever follows it in the
/// stream: all of it but the length of the whole packet, which only a first
/// fragment carries and which elsewhere is read as the length of the payload.
/// It speaks of every frame that is not a first fragment and whose payload
/// length fits in its sixteen bits.
pub proof fn read_inverts_write(frame: FrameView, rest: Seq<u8>)
    requires
        !(frame.frag_info is First),
        frame.payload.len() < 0x1_0000,
    ensures
        parse_frame(encoded_frame(frame) + rest) == FrameParse::Frame(
            FrameView { total_payload_length: frame.payload.len(), ..frame },
            encoded_frame(frame).len(),
        ),
{
    let bytes = encoded_frame(frame) + rest;
    let length = frame.payload.len() as u16;
    assert(bytes[1] == frame_flags(frame));
    assert(bytes.skip(2) =~= be_bytes_u16(length) + (frame.payload + rest));
    crate::byte_order::be_u16_inverts_bytes(length, frame.payload + rest);
    assert(bytes.subrange(4, 4int + frame.payload.len()) =~= frame.payload);
}

/// Writing back a frame that was read gives the bytes that it was read from,
/// where it is not a first fragment and the unused high bits of its flags
/// are clear.
pub proof fn write_inverts_read(bytes: Seq<u8>)
    requires
        parse_frame(bytes) is Frame,
        !(flags_fragmentation(bytes[1]) is First),
        bytes[1] < 16,
    ensures
        encoded_frame(parse_frame(bytes)->Frame_0) == bytes.take(parse_frame(bytes)->1 as int),
{
    let frame = parse_frame(bytes)->Frame_0;
    let length = be_u16(bytes.skip(2));
    assert(frame.payload.len() == length);
    assert(frame_flags(frame) == bytes[1]);
    crate::byte_order::be_bytes_u16_inverts_read(bytes.skip(2));
    assert(be_bytes_u16(length as u16) =~= seq![bytes[2], bytes[3]]);
    assert(encoded_frame(frame) =~= bytes.take(4 + length));
}

/// A frame that has arrived is not changed by what arrives after it.
pub proof fn read_ignores_what_follows(bytes: Seq<u8>, rest: Seq<u8>)
    requires
        parse_frame(bytes) is Frame,
    ensures
        parse_frame(bytes + rest) == parse_frame(bytes),
{
    let length = be_u16(bytes.skip(2));
    let header_len = read_header_len(bytes);
    assert((bytes + rest).skip(2) =~= bytes.skip(2) + rest);
    assert((bytes + rest).skip(2).skip(2) =~= bytes.skip(2).skip(2) + rest);
    assert((bytes + rest).subrange(header_len as int, header_len + length) =~= bytes.subrange(
        header_len as int,
        header_len + length,
    ));
}

/// What is asked for is never more than the frame takes: fewer further bytes
/// than were asked for never complete a frame, and leave the difference to
/// ask for.
pub proof fn read_asks_for_no_more_than_needed(bytes: Seq<u8>, arrived: Seq<u8>)
    requires
        parse_frame(bytes) is NeedMore,
        arrived.len() < parse_frame(bytes)->NeedMore_0,
    ensures
        parse_frame(bytes + arrived) == FrameParse::NeedMore(
            (parse_frame(bytes)->NeedMore_0 - arrived.len()) as nat,
        ),
{
    if bytes.len() >= 4 {
        assert((bytes + arrived).skip(2) =~= bytes.skip(2) + arrived);
    }
}

/// The masks pick the bits that the arithmetic reading of the flags speaks of.
proof fn lemma_flag_bits(flags: u8)
    ensures
        flags & FRAGMENTATION_MASK == flags % 4,
        (flags & TYPE_MASK == TYPE_MASK) == ((flags / 4) % 2 == 1),
        (flags & ENCRYPTED_PAYLOAD_MASK == ENCRYPTED_PAYLOAD_MASK) == ((flags / 8) % 2 == 1),
{
    assert(flags & 3 == flags % 4) by (bit_vector);
    assert((flags & 4 == 4) == ((flags / 4) % 2 == 1)) by (bit_vector);
    assert((flags & 8 == 8) == ((flags / 8) % 2 == 1)) by (bit_vector);
}

/// Setting the flags bit by bit gives their sum.
proof fn lemma_flags_value(frame: FrameView, flags: u8, fragmentation_bits: u8)
    requires
        ({
            let control: u8 = if frame.frame_type is Control { 0u8 | TYPE_MASK } else { 0u8 };
            let encrypted: u8 = if frame.encrypted {
                control | ENCRYPTED_PAYLOAD_MASK
            } else {
                control
            };
            let fragmented: u8 = encrypted | fragmentation_bits;
            flags == if frame.frag_info is First {
                fragmented | LONG_PAYLOAD_LENGTH_MASK
            } else {
                fragmented
            }
        }),
        fragmentation_bits == match frame.frag_info {
            AAPFrameFragmmentation::Continuation => 0u8,
            AAPFrameFragmmentation::First => 1u8,
            AAPFrameFragmmentation::Last => 2u8,
            AAPFrameFragmmentation::Unfragmented => 3u8,
        },
    ensures
        flags == frame_flags(frame),
{
    assert(0u8 | 4u8 == 4u8 && 0u8 | 8u8 == 8u8 && 4u8 | 8u8 == 12u8) by (bit_vector);
    assert(forall|base: u8, bits: u8|
        (base == 0 || base == 4 || base == 8 || base == 12) && bits <= 3 ==> #[trigger] (base
            | bits) == base + bits) by (bit_vector);
    assert(forall|base: u8|
        (base == 0 || base == 4 || base == 8 || base == 12) ==> #[trigger] ((base | 1u8) | 3u8)
            == base + 3) by (bit_vector);
}

/// A cast to a shorter integer keeps the low bits.
proof fn lemma_truncation(payload_len: usize, total: usize)
    ensures
        payload_len as u16 == payload_len % 0x1_0000,
        total as u32 == total as int % 0x1_0000_0000,
{
    assert(payload_len as u16 == payload_len % 0x1_0000) by (bit_vector);
    let wide = total as u64;
    assert(wide as u32 == wide % 0x1_0000_0000) by (bit_vector);
}

/// What is read is what the bytes of the header say, whatever the fragmentation.
/// The first byte is the channel. The bits of the second are, from the lowest: two
/// for the fragmentation, one for a control frame, one for an encrypted payload.
/// The third and the fourth are the length of the payload, which follows behind
/// four bytes, or behind six on a first fragment; there, the third to the sixth
/// are the length of the whole packet. Nothing is read before all of it is there,
/// and what is asked for until then is what is missing of the next part.
pub proof fn a_frame_is_what_its_bytes_say(bytes: Seq<u8>)
    ensures
        ({
            let first = bytes[1] & 3 == 1;
            let header_len: int = if first {
                6
            } else {
                4
            };
            let payload_len = 0x100 * bytes[2] + bytes[3];
            match parse_frame(bytes) {
                FrameParse::Frame(frame, consumed) => {
                    &&& bytes.len() >= 4
                    &&& bytes.len() >= consumed
                    &&& consumed == header_len + payload_len
                    &&& frame.channel_id == bytes[0]
                    &&& frame.encrypted <==> bytes[1] & 8 == 8
                    &&& frame.frame_type is Control <==> bytes[1] & 4 == 4
                    &&& frame.frag_info is Continuation <==> bytes[1] & 3 == 0
                    &&& frame.frag_info is First <==> bytes[1] & 3 == 1
                    &&& frame.frag_info is Last <==> bytes[1] & 3 == 2
                    &&& frame.frag_info is Unfragmented <==> bytes[1] & 3 == 3
                    &&& frame.payload.len() == payload_len
                    &&& forall|i: int|
                        0 <= i < payload_len ==> #[trigger] frame.payload[i] == bytes[header_len
                            + i]
                    &&& frame.total_payload_length == if first {
                        0x100_0000 * bytes[2] + 0x1_0000 * bytes[3] + 0x100 * bytes[4] + bytes[5]
                    } else {
                        payload_len
                    }
                },
                FrameParse::NeedMore(count) => {
                    &&& count > 0
                    &&& bytes.len() + count == if bytes.len() < 4 {
                        4
                    } else if bytes.len() < header_len {
                        header_len
                    } else {
                        header_len + payload_len
                    }
                },
            }
        }),
{
    lemma_flag_bits(bytes[1]);
}

/// What is written says what the frame is: the channel, then the bits for the
/// fragmentation, for a control frame and for an encrypted payload, then the low
/// sixteen bits of the payload length, on a first fragment the low thirty-two bits
/// of the length of the whole packet, and then the payload as it is. A first
/// fragment has both fragmentation bits set.
pub proof fn the_bytes_say_what_the_frame_is(frame: FrameView)
    ensures
        ({
            let bytes = encoded_frame(frame);
            let header_len: int = if frame.frag_info is First {
                8
            } else {
                4
            };
            &&& bytes.len() == header_len + frame.payload.len()
            &&& bytes[0] == frame.channel_id
            &&& bytes[1] < 16
            &&& bytes[1] & 8 == 8 <==> frame.encrypted
            &&& bytes[1] & 4 == 4 <==> frame.frame_type is Control
            &&& bytes[1] & 3 == 0 <==> frame.frag_info is Continuation
            &&& bytes[1] & 3 == 2 <==> frame.frag_info is Last
            &&& bytes[1] & 3 == 3 <==> frame.frag_info is First || frame.frag_info is Unfragmented
            &&& 0x100 * bytes[2] + bytes[3] == frame.payload.len() % 0x1_0000
            &&& frame.frag_info is First ==> 0x100_0000 * bytes[4] + 0x1_0000 * bytes[5] + 0x100
                * bytes[6] + bytes[7] == frame.total_payload_length % 0x1_0000_0000
            &&& forall|i: int|
                0 <= i < frame.payload.len() ==> bytes[header_len + i]
                    == #[trigger] frame.payload[i]
        }),
{
    let bytes = encoded_frame(frame);
    lemma_flag_bits(bytes[1]);
    assert(bytes[1] == frame_flags(frame));
    let short = (frame.payload.len() % 0x1_0000) as u16;
    let long = (frame.total_payload_length % 0x1_0000_0000) as u32;
    crate::byte_order::the_first_byte_is_written_first(short, long, 0);
    assert(bytes[2] == be_bytes_u16(short)[0] && bytes[3] == be_bytes_u16(short)[1]);
    if frame.frag_info is First {
        assert(bytes.subrange(4, 8) =~= be_bytes_u32(long));
        assert(bytes[4] == bytes.subrange(4, 8)[0] && bytes[5] == bytes.subrange(4, 8)[1]
            && bytes[6] == bytes.subrange(4, 8)[2] && bytes[7] == bytes.subrange(4, 8)[3]);
    }
}

/// The value of a frame leaves nothing out that the frame says; nor does that of
/// what was read.
pub proof fn a_frame_is_all_that_it_says(frame: AAPFrame, read: FrameRead)
    ensures
        frame@.channel_id == frame.channel_id,
        frame@.frag_info == frame.frag_info,
        frame@.frame_type == frame.frame_type,
        frame@.encrypted == frame.encrypted,
        frame@.total_payload_length == frame.total_payload_length,
        frame@.payload == frame.payload@,
        match read {
            FrameRead::NeedMore(count) => read@ == FrameParse::NeedMore(count as nat),
            FrameRead::Frame(frame, consumed) => read@ == FrameParse::Frame(
                frame@,
                consumed as nat,
            ),
        },
{
}

} // verus!
