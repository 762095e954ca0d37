//! Packets: messages with their numbers, and how they are split over frames
//! and put together again.
use crate::byte_order::{be_bytes_u16, be_u16, read_u16, u16_to_be_bytes};
use crate::encryption::{
    handshake_message_processed, message_decrypted, message_encrypted, EncryptedConnectionManager,
    TlsFailure,
};
use crate::frame::{AAPFrame, AAPFrameFragmmentation, AAPFrameType, FrameView};
use crate::sequences::concat;
use vstd::prelude::*;

verus! {

/// The longest payload that a frame is given.
pub const MAX_FRAME_PAYLOAD_LENGTH: usize = 0x4000;

/// A message together with its channel. The first two of its bytes are the
/// number of the message.
#[derive(Debug)]
pub struct Packet {
    pub channel_id: u8,
    pub frame_type: AAPFrameType,
    pub encrypted: bool,
    pub message_id_and_payload: Vec<u8>,
}

/// The value of a [`Packet`].
pub struct PacketView {
    pub channel_id: u8,
    pub frame_type: AAPFrameType,
    pub encrypted: bool,
    pub message_id_and_payload: Seq<u8>,
}

impl View for Packet {
    type V = PacketView;

    open spec fn view(&self) -> PacketView {
        PacketView {
            channel_id: self.channel_id,
            frame_type: self.frame_type,
            encrypted: self.encrypted,
            message_id_and_payload: self.message_id_and_payload@,
        }
    }
}

impl PacketView {
    /// Whether the packet is long enough to hold the number of a message.
    pub open spec fn has_message_id(self) -> bool {
        self.message_id_and_payload.len() >= 2
    }

    /// The number of the message.
    pub open spec fn message_id(self) -> int {
        be_u16(self.message_id_and_payload)
    }

    /// The message without its number.
    pub open spec fn payload(self) -> Seq<u8> {
        self.message_id_and_payload.skip(2)
    }
}

/// The packet that carries `payload` as message `message_id`.
pub open spec fn packet_of(
    channel_id: u8,
    frame_type: AAPFrameType,
    encrypted: bool,
    message_id: u16,
    payload: Seq<u8>,
) -> PacketView {
    PacketView {
        channel_id,
        frame_type,
        encrypted,
        message_id_and_payload: be_bytes_u16(message_id) + payload,
    }
}

/// A packet gives back the number and the payload that it was made of.
pub proof fn packet_holds_its_parts(
    channel_id: u8,
    frame_type: AAPFrameType,
    encrypted: bool,
    message_id: u16,
    payload: Seq<u8>,
)
    ensures
        ({
            let packet = packet_of(channel_id, frame_type, encrypted, message_id, payload);
            &&& packet.has_message_id()
            &&& packet.message_id() == message_id
            &&& packet.payload() == payload
        }),
{
    let packet = packet_of(channel_id, frame_type, encrypted, message_id, payload);
    crate::byte_order::be_u16_inverts_bytes(message_id, payload);
    assert(packet.payload() =~= payload);
}

impl Packet {
    pub fn new_from_parts(
        channel_id: u8,
        frame_type: AAPFrameType,
        encrypted: bool,
        message_id: u16,
        payload: &[u8],
    ) -> (packet: Self)
        ensures
            packet@ == packet_of(channel_id, frame_type, encrypted, message_id, payload@),
    {
        let mut message_id_and_payload: Vec<u8> = Vec::new();
        let id_bytes: [u8; 2] = u16_to_be_bytes(message_id);
        message_id_and_payload.extend_from_slice(id_bytes.as_slice());
        message_id_and_payload.extend_from_slice(payload);
        assert(message_id_and_payload@ =~= be_bytes_u16(message_id) + payload@);
        Packet { channel_id, frame_type, encrypted, message_id_and_payload }
    }

    /// The packet for a message that has been encoded to `encoded_payload`.
    pub fn new_from_proto_message(
        channel_id: u8,
        frame_type: AAPFrameType,
        encrypted: bool,
        message_id: u16,
        encoded_payload: &[u8],
    ) -> (packet: Self)
        ensures
            packet@ == packet_of(channel_id, frame_type, encrypted, message_id, encoded_payload@),
    {
        Packet::new_from_parts(channel_id, frame_type, encrypted, message_id, encoded_payload)
    }

    /// Whether the packet is long enough to hold the number of a message.
    pub fn has_message_id(&self) -> (holds: bool)
        ensures
            holds == self@.has_message_id(),
    {
        self.message_id_and_payload.len() >= 2
    }

    pub fn message_id(&self) -> (message_id: u16)
        requires
            self@.has_message_id(),
        ensures
            message_id == self@.message_id(),
    {
        read_u16(self.message_id_and_payload.as_slice())
    }

    pub fn payload(&self) -> (payload: &[u8])
        requires
            self@.has_message_id(),
        ensures
            payload@ == self@.payload(),
    {
        let bytes: &[u8] = self.message_id_and_payload.as_slice();
        let payload: &[u8] = &bytes[2..bytes.len()];
        assert(payload@ =~= self@.payload());
        payload
    }

    pub fn payload_mut(&mut self) -> (payload: &mut [u8])
        requires
            old(self)@.has_message_id(),
        ensures
            payload@ == old(self)@.payload(),
            final(self)@ == (PacketView {
                message_id_and_payload: old(self)@.message_id_and_payload.take(2)
                    + final(payload)@,
                ..old(self)@
            }),
    {
        let (_, payload) = self.message_id_and_payload.as_mut_slice().split_at_mut(2);
        payload
    }
}

/// How many frames a packet of `len` bytes takes.
pub open spec fn fragment_count(len: int) -> int {
    if len <= MAX_FRAME_PAYLOAD_LENGTH {
        1
    } else {
        (len + MAX_FRAME_PAYLOAD_LENGTH - 1) / MAX_FRAME_PAYLOAD_LENGTH as int
    }
}

/// The bytes of a packet that its frame number `index` carries.
pub open spec fn fragment(bytes: Seq<u8>, index: int) -> Seq<u8> {
    let start = index * MAX_FRAME_PAYLOAD_LENGTH;
    let end = (index + 1) * MAX_FRAME_PAYLOAD_LENGTH;
    bytes.subrange(
        start,
        if end < bytes.len() {
            end
        } else {
            bytes.len() as int
        },
    )
}

/// Where in a packet of `len` bytes the frame number `index` belongs.
pub open spec fn fragmentation_at(len: int, index: int) -> AAPFrameFragmmentation {
    if len <= MAX_FRAME_PAYLOAD_LENGTH {
        AAPFrameFragmmentation::Unfragmented
    } else if index == 0 {
        AAPFrameFragmmentation::First
    } else if index == fragment_count(len) - 1 {
        AAPFrameFragmmentation::Last
    } else {
        AAPFrameFragmmentation::Continuation
    }
}

/// The frame number `index` of a packet of `packet_len` bytes, given the
/// bytes that travel in it.
pub open spec fn numbered_frame(
    channel_id: u8,
    frame_type: AAPFrameType,
    encrypted: bool,
    packet_len: nat,
    index: int,
    payload: Seq<u8>,
) -> FrameView {
    FrameView {
        channel_id,
        frag_info: fragmentation_at(packet_len as int, index),
        frame_type,
        encrypted,
        total_payload_length: if packet_len <= MAX_FRAME_PAYLOAD_LENGTH {
            payload.len()
        } else {
            packet_len
        },
        payload,
    }
}

/// The frame number `index` of a packet, given the bytes that travel in it:
/// its fragment, or what the fragment has been encrypted to.
pub open spec fn outgoing_frame(packet: PacketView, index: int, payload: Seq<u8>) -> FrameView {
    numbered_frame(
        packet.channel_id,
        packet.frame_type,
        packet.encrypted,
        packet.message_id_and_payload.len(),
        index,
        payload,
    )
}

/// Whether `frames` are the frames of `packet`: one for each of its fragments
/// and in their order, with the fragment as it is or, where the packet is to
/// be encrypted, with other bytes in its place.
pub open spec fn are_frames_of(packet: PacketView, frames: Seq<AAPFrame>) -> bool {
    let bytes = packet.message_id_and_payload;
    &&& frames.len() == fragment_count(bytes.len() as int)
    &&& forall|i: int|
        #![trigger frames[i]]
        0 <= i < frames.len() ==> {
            &&& frames[i]@ == outgoing_frame(packet, i, frames[i].payload@)
            &&& !packet.encrypted ==> frames[i].payload@ == fragment(bytes, i)
        }
}

/// The payloads of frames.
pub open spec fn payloads_of(frames: Seq<AAPFrame>) -> Seq<Vec<u8>> {
    frames.map_values(|frame: AAPFrame| frame.payload)
}

/// Whether a session has encrypted the fragments of `bytes` to `payloads`, each
/// of them once, one after the other: `sessions` are the session before each
/// fragment and after the last.
pub open spec fn are_encrypted_in_order(
    sessions: Seq<EncryptedConnectionManager>,
    bytes: Seq<u8>,
    payloads: Seq<Vec<u8>>,
) -> bool {
    &&& sessions.len() == payloads.len() + 1
    &&& forall|i: int|
        #![trigger payloads[i]]
        0 <= i < payloads.len() ==> message_encrypted(
            sessions[i],
            fragment(bytes, i),
            Ok(payloads[i]),
            sessions[i + 1],
        )
}

/// Whether a session, from `before` to `after`, has encrypted the fragments of
/// `bytes` to `payloads`, each of them once, one after the other.
pub open spec fn is_encrypted_in_order(
    before: EncryptedConnectionManager,
    bytes: Seq<u8>,
    payloads: Seq<Vec<u8>>,
    after: EncryptedConnectionManager,
) -> bool {
    exists|sessions: Seq<EncryptedConnectionManager>|
        {
            &&& #[trigger] are_encrypted_in_order(sessions, bytes, payloads)
            &&& sessions.first() == before
            &&& sessions.last() == after
        }
}

/// Nothing has been encrypted before the first fragment.
proof fn lemma_encrypted_none(session: EncryptedConnectionManager, bytes: Seq<u8>)
    ensures
        is_encrypted_in_order(session, bytes, Seq::empty(), session),
{
    assert(are_encrypted_in_order(seq![session], bytes, Seq::empty()));
}

/// Where the next fragment is encrypted too, one more has been encrypted.
proof fn lemma_encrypted_one_more(
    before: EncryptedConnectionManager,
    bytes: Seq<u8>,
    payloads: Seq<Vec<u8>>,
    reached: EncryptedConnectionManager,
    payload: Vec<u8>,
    after: EncryptedConnectionManager,
)
    requires
        is_encrypted_in_order(before, bytes, payloads, reached),
        message_encrypted(reached, fragment(bytes, payloads.len() as int), Ok(payload), after),
    ensures
        is_encrypted_in_order(before, bytes, payloads.push(payload), after),
{
    let sessions = choose|sessions: Seq<EncryptedConnectionManager>|
        {
            &&& #[trigger] are_encrypted_in_order(sessions, bytes, payloads)
            &&& sessions.first() == before
            &&& sessions.last() == reached
        };
    let longer = sessions.push(after);
    assert forall|i: int|
        #![trigger payloads.push(payload)[i]]
        0 <= i < payloads.push(payload).len() implies message_encrypted(
        longer[i],
        fragment(bytes, i),
        Ok(payloads.push(payload)[i]),
        longer[i + 1],
    ) by {
        if i < payloads.len() {
            assert(payloads.push(payload)[i] == payloads[i]);
        }
    }
    assert(are_encrypted_in_order(longer, bytes, payloads.push(payload)));
    assert(longer.first() == before);
}

/// What the framing of a packet comes to. A packet in the clear leaves the
/// session alone. For one that is encrypted, the session goes from fragment to
/// fragment, up to the last one or to the first that fails.
pub open spec fn is_framed(
    before: EncryptedConnectionManager,
    packet: PacketView,
    result: Result<Vec<AAPFrame>, TlsFailure>,
    after: EncryptedConnectionManager,
) -> bool {
    let bytes = packet.message_id_and_payload;
    match result {
        Ok(frames) => {
            &&& are_frames_of(packet, frames@)
            &&& if packet.encrypted {
                is_encrypted_in_order(before, bytes, payloads_of(frames@), after)
            } else {
                after == before
            }
        },
        Err(failure) => {
            &&& packet.encrypted
            &&& exists|payloads: Seq<Vec<u8>>, reached: EncryptedConnectionManager|
                {
                    &&& #[trigger] is_encrypted_in_order(before, bytes, payloads, reached)
                    &&& payloads.len() < fragment_count(bytes.len() as int)
                    &&& message_encrypted(
                        reached,
                        fragment(bytes, payloads.len() as int),
                        Err(failure),
                        after,
                    )
                }
        },
    }
}

/// Whether a frame can follow what has arrived of a fragmented packet: a
/// first fragment only where none is under way, and a further fragment only
/// where one is that it agrees with.
pub open spec fn accepts_frame(pending: Option<FrameView>, frame: FrameView) -> bool {
    match frame.frag_info {
        AAPFrameFragmmentation::First => pending is None,
        AAPFrameFragmmentation::Continuation | AAPFrameFragmmentation::Last => {
            &&& pending matches Some(first)
            &&& first.channel_id == frame.channel_id
            &&& first.encrypted == frame.encrypted
            &&& first.frame_type == frame.frame_type
        },
        AAPFrameFragmmentation::Unfragmented => true,
    }
}

/// The packet that a frame holds.
pub open spec fn packet_in(frame: FrameView) -> PacketView {
    PacketView {
        channel_id: frame.channel_id,
        frame_type: frame.frame_type,
        encrypted: frame.encrypted,
        message_id_and_payload: frame.payload,
    }
}

/// What is under way, and the packet that is complete, once a frame has
/// joined what was under way before.
pub open spec fn defragmented(pending: Option<FrameView>, frame: FrameView) -> (
    Option<FrameView>,
    Option<PacketView>,
) {
    let joined = FrameView { payload: pending->0.payload + frame.payload, ..pending->0 };
    match frame.frag_info {
        AAPFrameFragmmentation::First => (Some(frame), None),
        AAPFrameFragmmentation::Continuation => (Some(joined), None),
        AAPFrameFragmmentation::Last => (None, Some(packet_in(joined))),
        AAPFrameFragmmentation::Unfragmented => (pending, Some(packet_in(frame))),
    }
}

/// The value of an optional frame.
pub open spec fn frame_view(frame: Option<AAPFrame>) -> Option<FrameView> {
    match frame {
        Some(frame) => Some(frame@),
        None => None,
    }
}

/// The value of an optional packet.
pub open spec fn packet_view(packet: Option<Packet>) -> Option<PacketView> {
    match packet {
        Some(packet) => Some(packet@),
        None => None,
    }
}

/// The frame number `index` of a packet of `packet_len` bytes, given the
/// bytes that travel in it.
pub fn build_frame(
    channel_id: u8,
    frame_type: AAPFrameType,
    encrypted: bool,
    packet_len: usize,
    index: usize,
    payload: Vec<u8>,
) -> (frame: AAPFrame)
    ensures
        frame@ == numbered_frame(
            channel_id,
            frame_type,
            encrypted,
            packet_len as nat,
            index as int,
            payload@,
        ),
        frame.payload == payload,
{
    if packet_len <= MAX_FRAME_PAYLOAD_LENGTH {
        return AAPFrame {
            channel_id,
            frag_info: AAPFrameFragmmentation::Unfragmented,
            frame_type,
            encrypted,
            total_payload_length: payload.len(),
            payload,
        };
    }
    let rounds: usize = packet_len / MAX_FRAME_PAYLOAD_LENGTH;
    let count: usize = if packet_len % MAX_FRAME_PAYLOAD_LENGTH == 0 {
        rounds
    } else {
        rounds + 1
    };
    let frag_info = if index == 0 {
        AAPFrameFragmmentation::First
    } else if index == count - 1 {
        AAPFrameFragmmentation::Last
    } else {
        AAPFrameFragmmentation::Continuation
    };
    AAPFrame {
        channel_id,
        frag_info,
        frame_type,
        encrypted,
        total_payload_length: packet_len,
        payload,
    }
}

/// Splits the packets of one connection over frames, and puts them together
/// again.
pub struct PacketFramer {
    pending_frame: Option<AAPFrame>,
    encrypted_connection_manager: EncryptedConnectionManager,
}

/// What the arrival of a frame does to a framer. An encrypted frame is decrypted
/// first; where that fails, the frame is dropped.
pub open spec fn takes_frame(
    before: PacketFramer,
    frame: AAPFrame,
    result: Result<Option<Packet>, TlsFailure>,
    after: PacketFramer,
) -> bool {
    &&& after.wf()
    &&& after.session().is_opened_like(&before.session())
    &&& after.session().handshaking() == before.session().handshaking()
    &&& if frame.encrypted {
        exists|decrypted: Result<Vec<u8>, TlsFailure>|
            {
                &&& #[trigger] message_decrypted(
                    before.session(),
                    frame.payload@,
                    decrypted,
                    after.session(),
                )
                &&& match decrypted {
                    Ok(message) => {
                        &&& result matches Ok(packet)
                        &&& (after.pending(), packet_view(packet)) == defragmented(
                            before.pending(),
                            FrameView { payload: message@, ..frame@ },
                        )
                    },
                    Err(failure) => {
                        &&& result == Err::<Option<Packet>, _>(failure)
                        &&& after.pending() == before.pending()
                    },
                }
            }
    } else {
        &&& after.session() == before.session()
        &&& result matches Ok(packet)
        &&& (after.pending(), packet_view(packet)) == defragmented(before.pending(), frame@)
    }
}

impl PacketFramer {
    /// What has arrived of a fragmented packet that is not complete yet.
    pub closed spec fn pending(&self) -> Option<FrameView> {
        frame_view(self.pending_frame)
    }

    /// The TLS session of the connection.
    pub closed spec fn session(&self) -> EncryptedConnectionManager {
        self.encrypted_connection_manager
    }

    pub open spec fn wf(&self) -> bool {
        self.session().wf()
    }

    pub fn new(encrypted_connection_manager: EncryptedConnectionManager) -> (framer: Self)
        ensures
            framer.pending() is None,
            framer.session() == encrypted_connection_manager,
    {
        PacketFramer { pending_frame: None, encrypted_connection_manager }
    }

    pub fn is_handshaking(&self) -> (handshaking: bool)
        ensures
            handshaking == self.session().handshaking(),
    {
        self.encrypted_connection_manager.is_handshaking()
    }

    /// The frames to send for a packet.
    pub fn process_outgoing_packet(&mut self, packet: Packet) -> (result: Result<
        Vec<AAPFrame>,
        TlsFailure,
    >)
        requires
            old(self).wf(),
            packet.encrypted ==> !old(self).session().handshaking(),
        ensures
            final(self).wf(),
            final(self).pending() == old(self).pending(),
            final(self).session().is_opened_like(&old(self).session()),
            final(self).session().handshaking() == old(self).session().handshaking(),
            is_framed(old(self).session(), packet@, result, final(self).session()),
    {
        let Packet { channel_id, frame_type, encrypted, message_id_and_payload } = packet;
        let packet_len: usize = message_id_and_payload.len();
        let mut frames: Vec<AAPFrame> = Vec::new();
        let mut start: usize = 0;
        let mut index: usize = 0;
        proof {
            lemma_encrypted_none(self.session(), message_id_and_payload@);
            assert(payloads_of(frames@) =~= Seq::<Vec<u8>>::empty());
        }
        loop
            invariant
                packet_len == message_id_and_payload@.len(),
                packet@ == (PacketView {
                    channel_id,
                    frame_type,
                    encrypted,
                    message_id_and_payload: message_id_and_payload@,
                }),
                index == frames@.len(),
                index < fragment_count(packet_len as int),
                start == index * MAX_FRAME_PAYLOAD_LENGTH,
                start <= packet_len,
                self.wf(),
                self.pending() == old(self).pending(),
                self.session().is_opened_like(&old(self).session()),
                self.session().handshaking() == old(self).session().handshaking(),
                !encrypted ==> self.session() == old(self).session(),
                encrypted ==> !self.session().handshaking(),
                encrypted ==> is_encrypted_in_order(
                    old(self).session(),
                    message_id_and_payload@,
                    payloads_of(frames@),
                    self.session(),
                ),
                forall|i: int|
                    #![trigger frames@[i]]
                    0 <= i < frames@.len() ==> {
                        &&& frames@[i]@ == outgoing_frame(packet@, i, frames@[i].payload@)
                        &&& !encrypted ==> frames@[i].payload@ == fragment(
                            message_id_and_payload@,
                            i,
                        )
                    },
            decreases packet_len - start,
        {
            let end: usize = if packet_len - start > MAX_FRAME_PAYLOAD_LENGTH {
                start + MAX_FRAME_PAYLOAD_LENGTH
            } else {
                packet_len
            };
            let part: &[u8] = &message_id_and_payload.as_slice()[start..end];
            assert(part@ =~= fragment(message_id_and_payload@, index as int));
            let ghost reached = self.session();
            let ghost earlier = payloads_of(frames@);
            let payload: Vec<u8> = if encrypted {
                match self.encrypted_connection_manager.encrypt_message(part) {
                    Ok(records) => records,
                    Err(failure) => {
                        return Err(failure);
                    },
                }
            } else {
                let mut copy: Vec<u8> = Vec::new();
                copy.extend_from_slice(part);
                assert(copy@ =~= part@);
                copy
            };
            let frame = build_frame(
                channel_id,
                frame_type,
                encrypted,
                packet_len,
                index,
                payload,
            );
            assert(frame@ == outgoing_frame(packet@, index as int, payload@));
            frames.push(frame);
            proof {
                if encrypted {
                    lemma_encrypted_one_more(
                        old(self).session(),
                        message_id_and_payload@,
                        earlier,
                        reached,
                        payload,
                        self.session(),
                    );
                    assert(payloads_of(frames@) =~= earlier.push(payload));
                }
            }
            if end == packet_len {
                assert(frames@.len() == fragment_count(packet_len as int)) by (nonlinear_arith)
                    requires
                        frames@.len() == index + 1,
                        start == index * MAX_FRAME_PAYLOAD_LENGTH,
                        index < fragment_count(packet_len as int),
                        packet_len - start <= MAX_FRAME_PAYLOAD_LENGTH,
                        0 <= start <= packet_len,
                ;
                return Ok(frames);
            }
            start = end;
            index = index + 1;
        }
    }

    /// Hands a handshake message of the phone to the TLS session.
    pub fn process_handshake_message(&mut self, payload: &mut [u8]) -> (result: Result<
        Option<Vec<u8>>,
        TlsFailure,
    >)
        requires
            old(self).wf(),
            old(self).session().handshaking(),
        ensures
            final(self).wf(),
            final(self).pending() == old(self).pending(),
            final(self).session().is_opened_like(&old(self).session()),
            final(payload)@.len() == old(payload)@.len(),
            handshake_message_processed(
                old(self).session(),
                old(payload)@,
                result,
                final(self).session(),
            ),
    {
        self.encrypted_connection_manager.process_handshake_message(payload)
    }

    /// Whether a frame can follow what has arrived so far.
    pub fn accepts(&self, frame: &AAPFrame) -> (accepted: bool)
        ensures
            accepted == accepts_frame(self.pending(), frame@),
    {
        match frame.frag_info {
            AAPFrameFragmmentation::First => self.pending_frame.is_none(),
            AAPFrameFragmmentation::Continuation | AAPFrameFragmmentation::Last => {
                match &self.pending_frame {
                    Some(first) => first.channel_id == frame.channel_id && first.encrypted
                        == frame.encrypted && first.frame_type == frame.frame_type,
                    None => false,
                }
            },
            AAPFrameFragmmentation::Unfragmented => true,
        }
    }

    /// Joins a frame whose payload is in the clear to what has arrived so far.
    pub fn defragment(&mut self, frame: AAPFrame) -> (packet: Option<Packet>)
        requires
            accepts_frame(old(self).pending(), frame@),
        ensures
            (final(self).pending(), packet_view(packet)) == defragmented(
                old(self).pending(),
                frame@,
            ),
            final(self).session() == old(self).session(),
    {
        let complete = match frame.frag_info {
            AAPFrameFragmmentation::First => {
                self.pending_frame = Some(frame);
                return None;
            },
            AAPFrameFragmmentation::Continuation | AAPFrameFragmmentation::Last => {
                let mut pending_frame = self.pending_frame.take().unwrap();
                let ghost first = pending_frame@;
                pending_frame.payload.extend_from_slice(frame.payload.as_slice());
                assert(pending_frame.payload@ =~= first.payload + frame.payload@);
                if matches!(frame.frag_info, AAPFrameFragmmentation::Continuation) {
                    self.pending_frame = Some(pending_frame);
                    return None;
                }
                pending_frame
            },
            AAPFrameFragmmentation::Unfragmented => frame,
        };
        Some(
            Packet {
                channel_id: complete.channel_id,
                frame_type: complete.frame_type,
                encrypted: complete.encrypted,
                message_id_and_payload: complete.payload,
            },
        )
    }

    /// Takes in a frame, and gives the packet that it completes. An encrypted
    /// frame is decrypted first; where that fails, the frame is dropped.
    pub fn process_incoming_frame(&mut self, frame: AAPFrame) -> (result: Result<
        Option<Packet>,
        TlsFailure,
    >)
        requires
            old(self).wf(),
            accepts_frame(old(self).pending(), frame@),
        ensures
            takes_frame(*old(self), frame, result, *final(self)),
    {
        let ghost before = frame.payload@;
        let mut frame = frame;
        if frame.encrypted {
            match self.encrypted_connection_manager.decrypt_message(
                frame.payload.as_mut_slice(),
            ) {
                Ok(message) => {
                    frame.payload = message;
                },
                Err(failure) => {
                    assert(message_decrypted(
                        old(self).session(),
                        before,
                        Err(failure),
                        self.session(),
                    ));
                    return Err(failure);
                },
            }
        }
        let packet = self.defragment(frame);
        Ok(packet)
    }
}

/// The fragments of a packet, in order.
pub open spec fn fragments(bytes: Seq<u8>) -> Seq<Seq<u8>> {
    Seq::new(fragment_count(bytes.len() as int) as nat, |i: int| fragment(bytes, i))
}

/// The numbers of the fragments reach just as far as the packet.
proof fn lemma_fragment_count(len: int)
    requires
        len > MAX_FRAME_PAYLOAD_LENGTH,
    ensures
        fragment_count(len) >= 2,
        (fragment_count(len) - 1) * MAX_FRAME_PAYLOAD_LENGTH < len,
        len <= fragment_count(len) * MAX_FRAME_PAYLOAD_LENGTH,
{
}

/// The first fragments hold the first bytes of a packet.
proof fn lemma_fragments_hold_front(bytes: Seq<u8>, count: int)
    requires
        0 <= count <= fragment_count(bytes.len() as int),
    ensures
        concat(fragments(bytes).take(count)) == bytes.take(
            if count * MAX_FRAME_PAYLOAD_LENGTH < bytes.len() {
                count * MAX_FRAME_PAYLOAD_LENGTH
            } else {
                bytes.len() as int
            },
        ),
    decreases count,
{
    let front = fragments(bytes).take(count);
    if count == 0 {
        assert(concat(front) =~= bytes.take(0));
    } else {
        lemma_fragments_hold_front(bytes, count - 1);
        assert(front.drop_last() =~= fragments(bytes).take(count - 1));
        if bytes.len() > MAX_FRAME_PAYLOAD_LENGTH {
            lemma_fragment_count(bytes.len() as int);
        }
        assert(concat(front) =~= bytes.take(
            if count * MAX_FRAME_PAYLOAD_LENGTH < bytes.len() {
                count * MAX_FRAME_PAYLOAD_LENGTH
            } else {
                bytes.len() as int
            },
        ));
    }
}

/// Splitting a packet loses nothing: its fragments, one after the other, are
/// its bytes; and none is longer than a frame may be.
pub proof fn fragments_make_up_the_packet(bytes: Seq<u8>)
    ensures
        concat(fragments(bytes)) == bytes,
        forall|i: int|
            0 <= i < fragments(bytes).len() ==> (#[trigger] fragments(bytes)[i]).len()
                <= MAX_FRAME_PAYLOAD_LENGTH,
{
    let count = fragment_count(bytes.len() as int);
    if bytes.len() > MAX_FRAME_PAYLOAD_LENGTH {
        lemma_fragment_count(bytes.len() as int);
    }
    lemma_fragments_hold_front(bytes, count);
    assert(fragments(bytes).take(count) =~= fragments(bytes));
    assert(bytes.take(bytes.len() as int) =~= bytes);
}

/// What is under way, and which packets are complete, after a number of
/// frames.
pub open spec fn received(pending: Option<FrameView>, frames: Seq<FrameView>) -> (
    Option<FrameView>,
    Seq<PacketView>,
)
    decreases frames.len(),
{
    if frames.len() == 0 {
        (pending, Seq::empty())
    } else {
        let before = received(pending, frames.drop_last());
        let (after, packet) = defragmented(before.0, frames.last());
        (
            after,
            match packet {
                Some(packet) => before.1.push(packet),
                None => before.1,
            },
        )
    }
}

/// Whether `frames` are the frames of `packet` with their payloads in the
/// clear.
pub open spec fn are_clear_frames_of(packet: PacketView, frames: Seq<FrameView>) -> bool {
    let bytes = packet.message_id_and_payload;
    &&& frames.len() == fragment_count(bytes.len() as int)
    &&& forall|i: int|
        #![trigger frames[i]]
        0 <= i < frames.len() ==> {
            &&& frames[i].channel_id == packet.channel_id
            &&& frames[i].frag_info == fragmentation_at(bytes.len() as int, i)
            &&& frames[i].frame_type == packet.frame_type
            &&& frames[i].encrypted == packet.encrypted
            &&& frames[i].payload == fragment(bytes, i)
        }
}

/// While the frames of a packet come in, they collect its first bytes.
proof fn lemma_reassembly(packet: PacketView, frames: Seq<FrameView>, count: int)
    requires
        are_clear_frames_of(packet, frames),
        packet.message_id_and_payload.len() > MAX_FRAME_PAYLOAD_LENGTH,
        1 <= count < frames.len(),
    ensures
        ({
            let bytes = packet.message_id_and_payload;
            let (pending, packets) = received(None, frames.take(count));
            &&& packets.len() == 0
            &&& pending == Some(
                FrameView { payload: bytes.take(count * MAX_FRAME_PAYLOAD_LENGTH), ..frames[0] },
            )
        }),
    decreases count,
{
    let bytes = packet.message_id_and_payload;
    lemma_fragment_count(bytes.len() as int);
    assert(frames.take(count).drop_last() =~= frames.take(count - 1));
    assert(frames.take(count).last() == frames[count - 1]);
    if count == 1 {
        assert(frames.take(0) =~= Seq::<FrameView>::empty());
        assert(frames[0].payload =~= bytes.take(MAX_FRAME_PAYLOAD_LENGTH as int));
    } else {
        lemma_reassembly(packet, frames, count - 1);
        assert(bytes.take((count - 1) * MAX_FRAME_PAYLOAD_LENGTH) + fragment(bytes, count - 1)
            =~= bytes.take(count * MAX_FRAME_PAYLOAD_LENGTH));
    }
}

/// The frames of a packet, received in order where no other packet is under
/// way and with their payloads in the clear, are all accepted, give back that
/// packet and no other, and leave nothing under way.
pub proof fn frames_reassemble_to_their_packet(packet: PacketView, frames: Seq<FrameView>)
    requires
        are_clear_frames_of(packet, frames),
    ensures
        received(None, frames) == (None::<FrameView>, seq![packet]),
        forall|i: int|
            #![trigger frames[i]]
            0 <= i < frames.len() ==> accepts_frame(received(None, frames.take(i)).0, frames[i]),
{
    let bytes = packet.message_id_and_payload;
    let count = frames.len() as int;
    assert(frames.take(0) =~= Seq::<FrameView>::empty());
    if bytes.len() <= MAX_FRAME_PAYLOAD_LENGTH {
        assert(frames.drop_last() =~= Seq::<FrameView>::empty());
        assert(fragment(bytes, 0) =~= bytes);
        let before = received(None, frames.drop_last());
        assert(before == received(None, Seq::empty()));
        assert(frames.last() == frames[0]);
        assert(packet_in(frames[0]) == packet);
        assert(before.1.push(packet) =~= seq![packet]);
    } else {
        lemma_fragment_count(bytes.len() as int);
        lemma_reassembly(packet, frames, count - 1);
        assert(frames.drop_last() =~= frames.take(count - 1));
        assert(bytes.take((count - 1) * MAX_FRAME_PAYLOAD_LENGTH) + fragment(bytes, count - 1)
            =~= bytes);
        let before = received(None, frames.drop_last());
        assert(frames[0].payload == fragment(bytes, 0));
        assert(frames.last() == frames[count - 1]);
        assert(defragmented(before.0, frames.last()) == (None::<FrameView>, Some(packet)));
        assert(before.1.push(packet) =~= seq![packet]);
        assert forall|i: int|
            #![trigger frames[i]]
            0 <= i < frames.len() implies accepts_frame(
            received(None, frames.take(i)).0,
            frames[i],
        ) by {
            if i > 0 {
                lemma_reassembly(packet, frames, i);
            }
        }
    }
}

/// What is sent for a packet in the clear gives that packet back where it is
/// received.
pub proof fn a_clear_packet_is_received_as_sent(packet: PacketView, frames: Seq<AAPFrame>)
    requires
        !packet.encrypted,
        are_frames_of(packet, frames),
    ensures
        received(None, frames.map_values(|frame: AAPFrame| frame@)) == (
            None::<FrameView>,
            seq![packet],
        ),
{
    let views = frames.map_values(|frame: AAPFrame| frame@);
    assert forall|i: int| 0 <= i < views.len() implies #[trigger] views[i] == outgoing_frame(
        packet,
        i,
        fragment(packet.message_id_and_payload, i),
    ) by {
        assert(views[i] == frames[i]@);
    }
    frames_reassemble_to_their_packet(packet, views);
}

/// The first two bytes of a packet are the number of its message, the more
/// significant one first; the others are its payload.
pub proof fn a_packet_begins_with_its_number(packet: PacketView)
    ensures
        packet.has_message_id() <==> packet.message_id_and_payload.len() >= 2,
        packet.has_message_id() ==> {
            let bytes = packet.message_id_and_payload;
            &&& packet.message_id() == 0x100 * bytes[0] + bytes[1]
            &&& packet.payload().len() == bytes.len() - 2
            &&& forall|i: int|
                0 <= i < packet.payload().len() ==> #[trigger] packet.payload()[i] == bytes[i + 2]
        },
{
}

/// A packet that is put together from its parts holds just these.
pub proof fn a_packet_is_made_of_its_parts(
    channel_id: u8,
    frame_type: AAPFrameType,
    encrypted: bool,
    message_id: u16,
    payload: Seq<u8>,
)
    ensures
        ({
            let packet = packet_of(channel_id, frame_type, encrypted, message_id, payload);
            let bytes = packet.message_id_and_payload;
            &&& packet.channel_id == channel_id
            &&& packet.frame_type == frame_type
            &&& packet.encrypted == encrypted
            &&& bytes.len() == payload.len() + 2
            &&& 0x100 * bytes[0] + bytes[1] == message_id
            &&& forall|i: int|
                0 <= i < payload.len() ==> bytes[i + 2] == #[trigger] payload[i]
        }),
{
    crate::byte_order::the_first_byte_is_written_first(message_id, 0, 0);
}

/// A packet of up to 16384 bytes travels in one frame, a longer one in as many
/// frames as it fills with such pieces. Each frame has the channel and the type of
/// the packet, is encrypted where the packet is, and says where it belongs. On
/// their own, frames name the length of their payload; the others the length of
/// the packet, before any encryption.
pub proof fn frames_tell_what_they_belong_to(
    before: EncryptedConnectionManager,
    packet: PacketView,
    frames: Vec<AAPFrame>,
    after: EncryptedConnectionManager,
    index: int,
)
    requires
        is_framed(before, packet, Ok(frames), after),
        0 <= index < frames@.len(),
    ensures
        ({
            let len = packet.message_id_and_payload.len();
            let count = frames@.len();
            let frame = frames@[index];
            &&& count == 1 <==> len <= 0x4000
            &&& count > 1 ==> (count - 1) * 0x4000 < len <= count * 0x4000
            &&& frame.channel_id == packet.channel_id
            &&& frame.frame_type == packet.frame_type
            &&& frame.encrypted == packet.encrypted
            &&& frame.frag_info is Unfragmented <==> count == 1
            &&& frame.frag_info is First <==> count > 1 && index == 0
            &&& frame.frag_info is Last <==> count > 1 && index == count - 1
            &&& frame.frag_info is Continuation <==> 0 < index < count - 1
            &&& frame.total_payload_length == if count == 1 {
                frame.payload@.len()
            } else {
                len
            }
        }),
{
    let len = packet.message_id_and_payload.len();
    if len > 0x4000 {
        lemma_fragment_count(len as int);
    }
    assert(frames@[index]@ == outgoing_frame(packet, index, frames@[index].payload@));
}

/// A packet in the clear is cut, and nothing else: each frame carries the next
/// bytes of it, and the session is not touched.
pub proof fn clear_frames_carry_the_bytes(
    before: EncryptedConnectionManager,
    packet: PacketView,
    result: Result<Vec<AAPFrame>, TlsFailure>,
    after: EncryptedConnectionManager,
    index: int,
)
    requires
        is_framed(before, packet, result, after),
        !packet.encrypted,
    ensures
        result is Ok,
        after == before,
        0 <= index < result->Ok_0@.len() ==> {
            let bytes = packet.message_id_and_payload;
            let payload = result->Ok_0@[index].payload@;
            &&& payload.len() <= 0x4000
            &&& payload.len() == 0x4000 || index * 0x4000 + payload.len() == bytes.len()
            &&& forall|i: int|
                0 <= i < payload.len() ==> #[trigger] payload[i] == bytes[index * 0x4000 + i]
        },
{
    let bytes = packet.message_id_and_payload;
    if bytes.len() > 0x4000 {
        lemma_fragment_count(bytes.len() as int);
    }
    if 0 <= index < result->Ok_0@.len() {
        assert(result->Ok_0@[index].payload@ == fragment(bytes, index));
    }
}

/// An encrypted packet is cut first. Then the session encrypts the pieces one
/// after the other, each of them once, and each to the payload of its frame.
pub proof fn encrypted_frames_carry_encrypted_pieces(
    before: EncryptedConnectionManager,
    packet: PacketView,
    frames: Vec<AAPFrame>,
    after: EncryptedConnectionManager,
)
    requires
        is_framed(before, packet, Ok(frames), after),
        packet.encrypted,
    ensures
        exists|sessions: Seq<EncryptedConnectionManager>|
            {
                &&& #[trigger] sessions.len() == frames@.len() + 1
                &&& sessions[0] == before
                &&& sessions[frames@.len() as int] == after
                &&& forall|i: int|
                    0 <= i < frames@.len() ==> message_encrypted(
                        sessions[i],
                        packet.message_id_and_payload.subrange(
                            i * 0x4000,
                            if (i + 1) * 0x4000 <= packet.message_id_and_payload.len() {
                                (i + 1) * 0x4000
                            } else {
                                packet.message_id_and_payload.len() as int
                            },
                        ),
                        Ok((#[trigger] frames@[i]).payload),
                        sessions[i + 1],
                    )
            },
{
    let bytes = packet.message_id_and_payload;
    let payloads = payloads_of(frames@);
    let sessions = choose|sessions: Seq<EncryptedConnectionManager>|
        {
            &&& #[trigger] are_encrypted_in_order(sessions, bytes, payloads)
            &&& sessions.first() == before
            &&& sessions.last() == after
        };
    if bytes.len() > 0x4000 {
        lemma_fragment_count(bytes.len() as int);
    }
    assert forall|i: int| 0 <= i < frames@.len() implies message_encrypted(
        sessions[i],
        bytes.subrange(
            i * 0x4000,
            if (i + 1) * 0x4000 <= bytes.len() {
                (i + 1) * 0x4000
            } else {
                bytes.len() as int
            },
        ),
        Ok((#[trigger] frames@[i]).payload),
        sessions[i + 1],
    ) by {
        assert(payloads[i] == frames@[i].payload);
    }
    assert(sessions.len() == frames@.len() + 1);
}

/// Of the frames that come, a packet is made as follows. The payload of a first
/// fragment, those of the continuations, however many and however long, and that
/// of the last fragment make up one packet, on the channel and of the type of the
/// first. Before the last has come, there is no packet.
pub proof fn fragments_are_joined_in_order(
    first: FrameView,
    middle: Seq<FrameView>,
    last: FrameView,
)
    requires
        first.frag_info is First,
        forall|i: int| 0 <= i < middle.len() ==> (#[trigger] middle[i]).frag_info is Continuation,
        last.frag_info is Last,
    ensures
        ({
            let begun = received(None, seq![first] + middle);
            let bytes = concat(
                (seq![first] + middle + seq![last]).map_values(|frame: FrameView| frame.payload),
            );
            &&& begun.1.len() == 0
            &&& begun.0 is Some
            &&& received(None, seq![first] + middle + seq![last]) == (
                None::<FrameView>,
                seq![
                    PacketView {
                        channel_id: first.channel_id,
                        frame_type: first.frame_type,
                        encrypted: first.encrypted,
                        message_id_and_payload: bytes,
                    },
                ],
            )
        }),
{
    let payload = |frame: FrameView| frame.payload;
    let begun = seq![first] + middle;
    let all = begun + seq![last];
    lemma_joined(first, middle);
    assert(all.drop_last() =~= begun);
    assert(all.last() == last);
    assert(all.map_values(payload) =~= begun.map_values(payload).push(last.payload));
    crate::sequences::lemma_concat_push(begun.map_values(payload), last.payload);
    assert(received(None, all).1 =~= seq![
        PacketView {
            channel_id: first.channel_id,
            frame_type: first.frame_type,
            encrypted: first.encrypted,
            message_id_and_payload: concat(all.map_values(payload)),
        },
    ]);
}

/// Until the last fragment comes, what has come is under way.
proof fn lemma_joined(first: FrameView, middle: Seq<FrameView>)
    requires
        first.frag_info is First,
        forall|i: int| 0 <= i < middle.len() ==> (#[trigger] middle[i]).frag_info is Continuation,
    ensures
        received(None, seq![first] + middle) == (
            Some(
                FrameView {
                    payload: concat(
                        (seq![first] + middle).map_values(|frame: FrameView| frame.payload),
                    ),
                    ..first
                },
            ),
            Seq::<PacketView>::empty(),
        ),
    decreases middle.len(),
{
    let payload = |frame: FrameView| frame.payload;
    let begun = seq![first] + middle;
    if middle.len() == 0 {
        assert(begun =~= seq![first]);
        assert(begun.drop_last() =~= Seq::<FrameView>::empty());
        assert(received(None, begun.drop_last()) == (None::<FrameView>, Seq::<PacketView>::empty()));
        assert(begun.map_values(payload).drop_last() =~= Seq::<Seq<u8>>::empty());
        assert(concat(begun.map_values(payload).drop_last()) == Seq::<u8>::empty());
        assert(concat(begun.map_values(payload)) =~= first.payload);
    } else {
        lemma_joined(first, middle.drop_last());
        assert(begun.drop_last() =~= seq![first] + middle.drop_last());
        assert(begun.last() == middle.last());
        assert(middle.last().frag_info is Continuation);
        let earlier = begun.drop_last().map_values(payload);
        assert(begun.map_values(payload) =~= earlier.push(middle.last().payload));
        crate::sequences::lemma_concat_push(earlier, middle.last().payload);
    }
}

/// A frame that is not fragmented is a packet by itself, with all that it says,
/// and passes by what is under way.
pub proof fn an_unfragmented_frame_is_a_packet(pending: Option<FrameView>, frame: FrameView)
    requires
        frame.frag_info is Unfragmented,
    ensures
        accepts_frame(pending, frame),
        defragmented(pending, frame) == (
            pending,
            Some(
                PacketView {
                    channel_id: frame.channel_id,
                    frame_type: frame.frame_type,
                    encrypted: frame.encrypted,
                    message_id_and_payload: frame.payload,
                },
            ),
        ),
{
}

/// A fragmented packet begins with its first fragment and is not begun twice;
/// what continues it has its channel and its type, and is encrypted where it is.
pub proof fn fragments_have_to_agree(pending: Option<FrameView>, frame: FrameView)
    ensures
        frame.frag_info is First ==> (accepts_frame(pending, frame) <==> pending is None),
        frame.frag_info is Continuation || frame.frag_info is Last ==> (accepts_frame(
            pending,
            frame,
        ) <==> pending is Some && pending->0.channel_id == frame.channel_id && pending->0.frame_type
            == frame.frame_type && pending->0.encrypted == frame.encrypted),
{
}

/// A frame is decrypted if and only if it says that it is encrypted, and then as
/// a whole; what it is joined as is the result. Where that fails, nothing is
/// joined.
pub proof fn frames_are_decrypted_where_they_say_so(
    before: PacketFramer,
    frame: AAPFrame,
    result: Result<Option<Packet>, TlsFailure>,
    after: PacketFramer,
)
    requires
        takes_frame(before, frame, result, after),
    ensures
        !frame.encrypted ==> {
            &&& result is Ok
            &&& after.session() == before.session()
            &&& after.pending() == defragmented(before.pending(), frame@).0
            &&& packet_view(result->Ok_0) == defragmented(before.pending(), frame@).1
        },
        frame.encrypted ==> exists|decrypted: Result<Vec<u8>, TlsFailure>|
            {
                &&& #[trigger] message_decrypted(
                    before.session(),
                    frame.payload@,
                    decrypted,
                    after.session(),
                )
                &&& decrypted is Ok <==> result is Ok
                &&& decrypted is Err ==> after.pending() == before.pending()
                    && decrypted->Err_0 == result->Err_0
                &&& decrypted is Ok ==> {
                    let clear = FrameView {
                        channel_id: frame.channel_id,
                        frag_info: frame.frag_info,
                        frame_type: frame.frame_type,
                        encrypted: true,
                        total_payload_length: frame.total_payload_length as nat,
                        payload: decrypted->Ok_0@,
                    };
                    &&& after.pending() == defragmented(before.pending(), clear).0
                    &&& packet_view(result->Ok_0) == defragmented(before.pending(), clear).1
                }
            },
{
    if frame.encrypted {
        let decrypted = choose|decrypted: Result<Vec<u8>, TlsFailure>|
            {
                &&& #[trigger] message_decrypted(
                    before.session(),
                    frame.payload@,
                    decrypted,
                    after.session(),
                )
                &&& match decrypted {
                    Ok(message) => {
                        &&& result matches Ok(packet)
                        &&& (after.pending(), packet_view(packet)) == defragmented(
                            before.pending(),
                            FrameView { payload: message@, ..frame@ },
                        )
                    },
                    Err(failure) => {
                        &&& result == Err::<Option<Packet>, _>(failure)
                        &&& after.pending() == before.pending()
                    },
                }
            };
        assert(message_decrypted(
            before.session(),
            frame.payload@,
            decrypted,
            after.session(),
        ));
    }
}

/// The value of a packet leaves nothing out that the packet says.
pub proof fn a_packet_is_all_that_it_says(packet: Packet)
    ensures
        packet@.channel_id == packet.channel_id,
        packet@.frame_type == packet.frame_type,
        packet@.encrypted == packet.encrypted,
        packet@.message_id_and_payload == packet.message_id_and_payload@,
{
}

/// The value of what may be missing is missing where it is, and else its value.
pub proof fn a_value_is_missing_where_it_is(frame: Option<AAPFrame>, packet: Option<Packet>)
    ensures
        frame is None <==> frame_view(frame) is None,
        frame matches Some(frame) ==> frame_view(Some(frame)) == Some(frame@),
        packet is None <==> packet_view(packet) is None,
        packet matches Some(packet) ==> packet_view(Some(packet)) == Some(packet@),
{
}

/// A packet is not sent only where it is encrypted and the session fails on one of
/// its pieces, having encrypted all before it; the failure is the one of the session.
pub proof fn framing_fails_where_a_piece_does(
    before: EncryptedConnectionManager,
    packet: PacketView,
    failure: TlsFailure,
    after: EncryptedConnectionManager,
)
    requires
        is_framed(before, packet, Err(failure), after),
    ensures
        packet.encrypted,
        exists|payloads: Seq<Vec<u8>>, reached: EncryptedConnectionManager|
            {
                let bytes = packet.message_id_and_payload;
                let index = payloads.len() as int;
                let end = if (index + 1) * 0x4000 <= bytes.len() {
                    (index + 1) * 0x4000
                } else {
                    bytes.len() as int
                };
                &&& #[trigger] is_encrypted_in_order(
                    before,
                    packet.message_id_and_payload,
                    payloads,
                    reached,
                )
                &&& index == 0 || index * 0x4000 < bytes.len()
                &&& index == 0 ==> reached == before
                &&& message_encrypted(
                    reached,
                    bytes.subrange(index * 0x4000, end),
                    Err(failure),
                    after,
                )
            },
{
    let bytes = packet.message_id_and_payload;
    let (payloads, reached) = choose|payloads: Seq<Vec<u8>>, reached: EncryptedConnectionManager|
        {
            &&& #[trigger] is_encrypted_in_order(before, bytes, payloads, reached)
            &&& payloads.len() < fragment_count(bytes.len() as int)
            &&& message_encrypted(
                reached,
                fragment(bytes, payloads.len() as int),
                Err(failure),
                after,
            )
        };
    if bytes.len() > 0x4000 {
        lemma_fragment_count(bytes.len() as int);
    }
    assert(is_encrypted_in_order(before, bytes, payloads, reached));
    let sessions = choose|sessions: Seq<EncryptedConnectionManager>|
        {
            &&& #[trigger] are_encrypted_in_order(sessions, bytes, payloads)
            &&& sessions.first() == before
            &&& sessions.last() == reached
        };
    assert(sessions.len() == payloads.len() + 1);
}

} // verus!
