//! Bytes over USB packets: the stream that is read out of the packets that
//! come, and the packets that the bytes to be written are cut into.
use crate::frame::{
    encoded_frame, parse_frame, read_inverts_write, AAPFrame, AAPFrameCodec, FrameParse, FrameView,
};
use crate::sequences::{concat, lemma_concat_add, lemma_concat_push, views};
use vstd::prelude::*;

verus! {

/// Reads a stream of bytes out of packets.
pub struct UsbReader {
    buffer: Vec<u8>,
    buffer_offset: usize,
}

/// What a read of `pending` bytes takes from the bytes at hand.
pub open spec fn readable(available: Seq<u8>, pending: nat) -> Seq<u8> {
    if available.len() >= pending {
        available.take(pending as int)
    } else {
        available
    }
}

/// What a read of `pending` bytes does: it puts those that it can take behind those
/// in `buf`, leaves the others, and tells how many are missing.
pub open spec fn bytes_taken(
    available: Seq<u8>,
    buf: Seq<u8>,
    pending: nat,
    missing: nat,
    filled: Seq<u8>,
    left: Seq<u8>,
) -> bool {
    let taken = readable(available, pending);
    &&& filled == buf + taken
    &&& left == available.skip(taken.len() as int)
    &&& missing == pending - taken.len()
    &&& missing > 0 ==> left.len() == 0
}

/// What a read of `pending` bytes gives, with the packets that come in while
/// it waits, and what is then left of the bytes at hand and of the packets.
pub open spec fn read_through(available: Seq<u8>, packets: Seq<Seq<u8>>, pending: nat) -> (
    Seq<u8>,
    Seq<u8>,
    Seq<Seq<u8>>,
)
    decreases packets.len(),
{
    let now = readable(available, pending);
    if now.len() == pending || packets.len() == 0 {
        (now, available.skip(now.len() as int), packets)
    } else {
        let (later, left, left_packets) = read_through(
            packets.first(),
            packets.drop_first(),
            (pending - now.len()) as nat,
        );
        (now + later, left, left_packets)
    }
}

impl UsbReader {
    /// The bytes that have come and have not been read.
    pub closed spec fn available(&self) -> Seq<u8> {
        self.buffer@.skip(self.buffer_offset as int)
    }

    pub closed spec fn wf(&self) -> bool {
        self.buffer_offset <= self.buffer@.len()
    }

    pub fn new() -> (reader: Self)
        ensures
            reader.wf(),
            reader.available() == Seq::<u8>::empty(),
    {
        let reader = UsbReader { buffer: Vec::new(), buffer_offset: 0 };
        assert(reader.available() =~= Seq::<u8>::empty());
        reader
    }

    /// Puts up to `pending` bytes behind those in `buf`, and gives the number
    /// that is missing. Where some are, a packet has to come first.
    pub fn read_available(&mut self, buf: &mut Vec<u8>, pending: usize) -> (missing: usize)
        requires
            old(self).wf(),
        ensures
            final(self).wf(),
            bytes_taken(
                old(self).available(),
                old(buf)@,
                pending as nat,
                missing as nat,
                final(buf)@,
                final(self).available(),
            ),
    {
        let bytes_available: usize = self.buffer.len() - self.buffer_offset;
        let bytes_to_copy: usize = if bytes_available >= pending {
            pending
        } else {
            bytes_available
        };
        let end: usize = self.buffer_offset + bytes_to_copy;
        let part: &[u8] = &self.buffer.as_slice()[self.buffer_offset..end];
        assert(part@ =~= readable(self.available(), pending as nat));
        buf.extend_from_slice(part);
        assert(buf@ =~= old(buf)@ + part@);
        self.buffer_offset = end;
        assert(self.available() =~= old(self).available().skip(bytes_to_copy as int));
        pending - bytes_to_copy
    }

    /// Takes in a packet, once all that came before has been read; gives
    /// whether there is anything in it to go on with.
    pub fn refill_buffer(&mut self, packet: Vec<u8>) -> (filled: bool)
        requires
            old(self).wf(),
            old(self).available().len() == 0,
        ensures
            final(self).wf(),
            final(self).available() == packet@,
            filled == (packet@.len() > 0),
    {
        self.buffer = packet;
        self.buffer_offset = 0;
        assert(self.available() =~= packet@);
        self.buffer.len() > 0
    }
}

/// However the bytes of a stream are spread over packets, empty ones among
/// them, a read gives the next bytes of the stream, and leaves the rest.
pub proof fn reads_follow_the_stream(available: Seq<u8>, packets: Seq<Seq<u8>>, pending: nat)
    requires
        pending <= available.len() + concat(packets).len(),
    ensures
        ({
            let stream = available + concat(packets);
            let (bytes, left, left_packets) = read_through(available, packets, pending);
            &&& bytes == stream.take(pending as int)
            &&& left + concat(left_packets) == stream.skip(pending as int)
        }),
    decreases packets.len(),
{
    let stream = available + concat(packets);
    let now = readable(available, pending);
    let (bytes, left, left_packets) = read_through(available, packets, pending);
    if now.len() == pending || packets.len() == 0 {
        assert(bytes =~= stream.take(pending as int));
        assert(left + concat(left_packets) =~= stream.skip(pending as int));
    } else {
        let first = packets.first();
        let rest = packets.drop_first();
        assert(packets =~= seq![first] + rest);
        lemma_concat_add(seq![first], rest);
        lemma_concat_push(Seq::empty(), first);
        assert(Seq::<Seq<u8>>::empty().push(first) =~= seq![first]);
        assert(concat(Seq::<Seq<u8>>::empty()) =~= Seq::<u8>::empty());
        assert(concat(seq![first]) =~= first);
        assert(concat(packets) =~= first + concat(rest));
        let missing = (pending - now.len()) as nat;
        reads_follow_the_stream(first, rest, missing);
        let inner = first + concat(rest);
        assert(bytes =~= now + inner.take(missing as int));
        assert(bytes =~= stream.take(pending as int));
        assert(left + concat(left_packets) =~= stream.skip(pending as int));
    }
}

/// Cuts a stream of bytes into packets.
pub struct UsbWriter {
    packet_size: usize,
    buffer: Vec<u8>,
}

/// Whether all packets are of the given size.
pub open spec fn are_full(packets: Seq<Vec<u8>>, packet_size: usize) -> bool {
    forall|i: int| 0 <= i < packets.len() ==> (#[trigger] packets[i])@.len() == packet_size
}

/// Whether bytes that are written, behind those that did not fill a packet, are cut
/// into full packets, with the others left.
pub open spec fn is_cut(
    buffered: Seq<u8>,
    packet_size: usize,
    bytes: Seq<u8>,
    packets: Seq<Vec<u8>>,
    left: Seq<u8>,
) -> bool {
    &&& are_full(packets, packet_size)
    &&& concat(views(packets)) + left == buffered + bytes
}

impl UsbWriter {
    pub closed spec fn packet_size(&self) -> usize {
        self.packet_size
    }

    /// The bytes that do not fill a packet yet.
    pub closed spec fn buffered(&self) -> Seq<u8> {
        self.buffer@
    }

    pub open spec fn wf(&self) -> bool {
        self.buffered().len() < self.packet_size()
    }

    pub fn new(packet_size: usize) -> (writer: Self)
        requires
            packet_size > 0,
        ensures
            writer.wf(),
            writer.packet_size() == packet_size,
            writer.buffered() == Seq::<u8>::empty(),
    {
        UsbWriter { packet_size, buffer: Vec::new() }
    }

    /// Hands out what has been written and not been sent.
    pub fn flush_buffer(&mut self) -> (packet: Vec<u8>)
        requires
            old(self).wf(),
        ensures
            final(self).wf(),
            final(self).packet_size() == old(self).packet_size(),
            final(self).buffered() == Seq::<u8>::empty(),
            packet@ == old(self).buffered(),
    {
        let mut packet: Vec<u8> = Vec::new();
        packet.append(&mut self.buffer);
        assert(packet@ =~= old(self).buffered());
        packet
    }

    /// Writes `buf`, and gives the packets that are full with it, in the order
    /// in which they are to be sent.
    pub fn write_all(&mut self, buf: &[u8]) -> (packets: Vec<Vec<u8>>)
        requires
            old(self).wf(),
        ensures
            final(self).wf(),
            final(self).packet_size() == old(self).packet_size(),
            is_cut(
                old(self).buffered(),
                old(self).packet_size(),
                buf@,
                packets@,
                final(self).buffered(),
            ),
    {
        let mut packets: Vec<Vec<u8>> = Vec::new();
        let mut position: usize = 0;
        proof {
            assert(views(packets@) =~= Seq::<Seq<u8>>::empty());
            assert(concat(views(packets@)) + self.buffered() =~= old(self).buffered()
                + buf@.take(0));
        }
        while position < buf.len()
            invariant
                position <= buf@.len(),
                self.wf(),
                self.packet_size() == old(self).packet_size(),
                are_full(packets@, old(self).packet_size()),
                concat(views(packets@)) + self.buffered() == old(self).buffered() + buf@.take(
                    position as int,
                ),
            decreases buf@.len() - position,
        {
            let ghost before = self.buffered();
            let bytes_available: usize = self.packet_size - self.buffer.len();
            let pending: usize = buf.len() - position;
            let bytes_to_copy: usize = if bytes_available > pending {
                pending
            } else {
                bytes_available
            };
            let end: usize = position + bytes_to_copy;
            let part: &[u8] = &buf[position..end];
            self.buffer.extend_from_slice(part);
            proof {
                assert(self.buffer@ =~= before + part@);
                assert(buf@.take(end as int) =~= buf@.take(position as int) + part@);
                assert(concat(views(packets@)) + (before + part@) =~= (concat(views(packets@))
                    + before) + part@);
                assert(old(self).buffered() + (buf@.take(position as int) + part@) =~= (old(
                    self,
                ).buffered() + buf@.take(position as int)) + part@);
            }
            position = end;
            if self.buffer.len() == self.packet_size {
                let ghost sent = packets@;
                let mut packet: Vec<u8> = Vec::new();
                packet.append(&mut self.buffer);
                proof {
                    assert(packet@ =~= before + part@);
                    lemma_concat_push(views(sent), packet@);
                    assert(views(sent.push(packet)) =~= views(sent).push(packet@));
                }
                packets.push(packet);
                assert(concat(views(packets@)) + self.buffered() =~= concat(views(sent))
                    + packet@);
            }
        }
        assert(buf@.take(position as int) =~= buf@);
        packets
    }

    /// The packets to send for a frame. The last one is not full, and where
    /// the frame ends with a full one it is empty.
    pub fn frame_packets(&mut self, codec: &mut AAPFrameCodec, frame: AAPFrame) -> (packets: Vec<
        Vec<u8>,
    >)
        requires
            old(self).wf(),
        ensures
            final(self).wf(),
            final(self).packet_size() == old(self).packet_size(),
            final(self).buffered() == Seq::<u8>::empty(),
            packets@.len() > 0,
            are_full(packets@.drop_last(), old(self).packet_size()),
            packets@.last()@.len() < old(self).packet_size(),
            concat(views(packets@)) == old(self).buffered() + encoded_frame(frame@),
    {
        let bytes: Vec<u8> = codec.write_frame(frame);
        let mut packets = self.write_all(bytes.as_slice());
        let ghost full = packets@;
        let last = self.flush_buffer();
        packets.push(last);
        proof {
            lemma_concat_push(views(full), last@);
            assert(views(packets@) =~= views(full).push(last@));
            assert(packets@.drop_last() =~= full);
        }
        packets
    }
}

/// A frame that is not a first fragment, and whose payload length fits in its
/// sixteen bits, is read back as it was written, however its bytes are cut
/// into packets.
pub proof fn a_frame_crosses_the_link(frame: FrameView, packets: Seq<Seq<u8>>)
    requires
        !(frame.frag_info is First),
        frame.payload.len() < 0x1_0000,
        concat(packets) == encoded_frame(frame),
    ensures
        parse_frame(read_through(Seq::empty(), packets, encoded_frame(frame).len()).0)
            == FrameParse::Frame(
            FrameView { total_payload_length: frame.payload.len(), ..frame },
            encoded_frame(frame).len(),
        ),
{
    let bytes = encoded_frame(frame);
    reads_follow_the_stream(Seq::empty(), packets, bytes.len());
    assert(Seq::<u8>::empty() + bytes =~= bytes);
    assert(bytes.take(bytes.len() as int) =~= bytes);
    assert(bytes + Seq::<u8>::empty() =~= bytes);
    read_inverts_write(frame, Seq::empty());
}

/// A read takes the oldest bytes at hand: as many as it wants where there are so
/// many, and else all of them.
pub proof fn the_oldest_bytes_are_read(available: Seq<u8>, pending: nat, index: int)
    ensures
        readable(available, pending).len() <= pending,
        readable(available, pending).len() <= available.len(),
        readable(available, pending).len() == pending || readable(available, pending).len()
            == available.len(),
        0 <= index < readable(available, pending).len() ==> readable(available, pending)[index]
            == available[index],
{
}

/// A read moves the oldest bytes at hand behind those that were read before, and
/// nothing is lost: what it has added and what it leaves are, one after the other,
/// what was at hand. It takes as many as it wants where there are so many, and tells
/// how many are missing where there are not; then it has taken all.
pub proof fn a_read_loses_nothing(
    available: Seq<u8>,
    buf: Seq<u8>,
    pending: nat,
    missing: nat,
    filled: Seq<u8>,
    left: Seq<u8>,
)
    requires
        bytes_taken(available, buf, pending, missing, filled, left),
    ensures
        filled + left == buf + available,
        filled.len() + missing == buf.len() + pending,
        filled.take(buf.len() as int) == buf,
        missing > 0 ==> left.len() == 0,
        missing == 0 <==> available.len() >= pending,
{
    assert(filled + left =~= buf + available);
    assert(filled.take(buf.len() as int) =~= buf);
}

/// What is written is sent in the order in which it was written, in packets of just
/// the size of a packet; less than that is left to be sent, where the writer is in
/// order, and nothing is lost.
pub proof fn a_write_loses_nothing(
    buffered: Seq<u8>,
    packet_size: usize,
    bytes: Seq<u8>,
    packets: Seq<Vec<u8>>,
    left: Seq<u8>,
    index: int,
)
    requires
        is_cut(buffered, packet_size, bytes, packets, left),
        left.len() < packet_size,
    ensures
        0 <= index < packets.len() ==> packets[index]@.len() == packet_size,
        concat(views(packets)) + left == buffered + bytes,
        packets.len() * packet_size + left.len() == buffered.len() + bytes.len(),
{
    lemma_full_len(packets, packet_size);
    assert((concat(views(packets)) + left).len() == (buffered + bytes).len());
}

/// Full packets hold as many bytes as their number and their size say.
proof fn lemma_full_len(packets: Seq<Vec<u8>>, packet_size: usize)
    requires
        are_full(packets, packet_size),
    ensures
        concat(views(packets)).len() == packets.len() * packet_size,
    decreases packets.len(),
{
    if packets.len() > 0 {
        let earlier = packets.drop_last();
        lemma_full_len(earlier, packet_size);
        assert(views(packets) =~= views(earlier).push(packets.last()@));
        lemma_concat_push(views(earlier), packets.last()@);
        assert(packets.last()@.len() == packet_size);
        assert(earlier.len() * packet_size + packet_size == packets.len() * packet_size)
            by (nonlinear_arith)
            requires
                earlier.len() + 1 == packets.len(),
        ;
    } else {
        assert(packets.len() * packet_size == 0) by (nonlinear_arith)
            requires
                packets.len() == 0,
        ;
    }
}

} // verus!
