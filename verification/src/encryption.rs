//! The TLS session between the head unit and the phone.
use crate::byte_order::read_u16;
use crate::sequences::{concat, lemma_concat_push};
use crate::tls::{
    buffered_handshake_len, connect, connection_address, connection_config, encode_record,
    encrypt_event_of, encrypt_record, event_of, is_connection_attempt, is_encrypt_attempt,
    is_tls_step, is_transmission_done, next_record, pending_record, process_tls_records,
    queued_records, read_limit, record_len, transmission_done, whole_records_len, EncodeOutcome,
    EncryptAttempt, EncryptEvent, EncryptOutcome, TlsEvent, TlsState, TlsStep,
};
use rustls::client::{ClientConfig, ClientConnectionData, UnbufferedClientConnection};
use rustls::unbuffered::{ReadTraffic, WriteTraffic};
use std::sync::Arc;
use vstd::prelude::*;

verus! {

/// The address that the phone is known under to the TLS engine. It is the
/// same for every phone, and no certificate is expected to name it.
pub const SERVER_ADDRESS: [u8; 4] = [0, 0, 0, 0];

/// How many bytes more than the message a record is first expected to take.
pub const ESTIMATED_TLS_OVERHEAD_LENGTH: usize = 40;

/// Why a TLS operation failed.
#[derive(Debug, Clone, Copy, PartialEq, Eq, Structural)]
pub enum TlsFailure {
    /// The engine reported an error.
    Engine,
    /// The handshake is not finished yet.
    Handshaking,
    /// The message does not end where its last record ends.
    TrailingBytes,
    /// The message is shorter than what the engine may have taken in of earlier
    /// ones without letting go of it.
    UnreadBytes,
    /// The session does not take application data at this moment.
    NotReady,
    /// The message holds no application data.
    NoData,
}

/// How the certificate of the phone fared against the certificate authority.
#[derive(Debug, Clone, Copy, PartialEq, Eq, Structural)]
pub enum CertificateVerdict {
    Valid,
    NotValidForName,
    Rejected,
}

/// Whether the phone may be talked to. A certificate is not expected to name
/// the phone, so one that fails on the name alone is accepted.
pub open spec fn is_acceptable(verdict: CertificateVerdict) -> bool {
    !(verdict is Rejected)
}

/// Whether the phone may be talked to. A certificate is not expected to name
/// the phone, so one that fails on the name alone is accepted.
pub fn accept_server_cert(verdict: CertificateVerdict) -> (accepted: bool)
    ensures
        accepted == is_acceptable(verdict),
{
    match verdict {
        CertificateVerdict::Valid => true,
        CertificateVerdict::NotValidForName => true,
        CertificateVerdict::Rejected => false,
    }
}

/// Opens the sessions of one head unit.
pub struct EncryptionManager {
    client_config: Arc<ClientConfig>,
}

impl EncryptionManager {
    /// The configuration that the sessions are opened with.
    pub closed spec fn config(&self) -> Arc<ClientConfig> {
        self.client_config
    }

    pub fn new(client_config: Arc<ClientConfig>) -> (manager: Self)
        ensures
            manager.config() == client_config,
    {
        EncryptionManager { client_config }
    }

    /// A session with the configuration of the head unit whose handshake has not
    /// begun. It fails only where the engine does not take the configuration.
    pub fn new_connection(&self) -> (manager: Result<EncryptedConnectionManager, TlsFailure>)
        ensures
            is_opened(self.config(), manager),
    {
        let opened = connect(&self.client_config, SERVER_ADDRESS);
        assert(is_connection_attempt(self.config(), SERVER_ADDRESS@, opened));
        match opened {
            Ok(conn) => Ok(
                EncryptedConnectionManager { conn, is_handshaking: true, held: 0 },
            ),
            Err(_) => Err(TlsFailure::Engine),
        }
    }
}

/// What the opening of a session comes to: one with the given configuration whose
/// handshake has not begun, or the refusal of the configuration by the engine.
pub open spec fn is_opened(
    config: Arc<ClientConfig>,
    manager: Result<EncryptedConnectionManager, TlsFailure>,
) -> bool {
    match manager {
        Ok(manager) => {
            &&& manager.wf()
            &&& manager.config() == config
            &&& manager.address() == SERVER_ADDRESS@
            &&& manager.handshaking()
            &&& manager.held() == 0
            &&& is_connection_attempt(config, SERVER_ADDRESS@, Ok(manager.engine()))
        },
        Err(failure) => {
            &&& failure is Engine
            &&& exists|refusal: rustls::Error| #[trigger]
                is_connection_attempt(config, SERVER_ADDRESS@, Err(refusal))
        },
    }
}

/// One session.
pub struct EncryptedConnectionManager {
    conn: UnbufferedClientConnection,
    is_handshaking: bool,
    /// How many bytes of the last message the engine may have taken in without
    /// letting go of them.
    held: usize,
}

/// How far the handling of one handshake message has come.
pub struct HandshakeProgress {
    /// How many bytes of the message have been dealt with.
    pub position: usize,
    /// What is to be answered, as far as it has been encoded.
    pub outgoing: Option<Vec<u8>>,
}

/// What the engine asks for while a handshake message is handled.
pub enum HandshakeEvent {
    /// It reported an error.
    Failed,
    /// It has encoded a record.
    Record(Vec<u8>),
    /// It wants the encoded records to be sent.
    Transmit,
    /// It is ready for application data.
    TrafficReady,
    /// Nothing that can be done now.
    Other,
}

/// What follows from a [`HandshakeEvent`].
pub enum HandshakeStep {
    /// Go on with the rest of the message.
    Continue(HandshakeProgress),
    /// The message is dealt with: the answer to it, and whether the handshake
    /// is over.
    Done { result: Result<Option<Vec<u8>>, TlsFailure>, established: bool },
}

/// What follows from an event of the handshake. Records pile up until the engine
/// wants them sent, and then are the answer. Once the engine is ready for
/// application data the handshake is over; the message then has to be used up.
pub open spec fn handshake_advanced(
    progress: HandshakeProgress,
    event: HandshakeEvent,
    message_len: usize,
    step: HandshakeStep,
) -> bool {
    match event {
        HandshakeEvent::Failed => step == (HandshakeStep::Done {
            result: Err(TlsFailure::Engine),
            established: false,
        }),
        HandshakeEvent::Record(record) => {
            &&& step matches HandshakeStep::Continue(next)
            &&& next.position == progress.position
            &&& next.outgoing is Some
            &&& next.encoded() == progress.encoded() + record@
        },
        HandshakeEvent::Transmit => step == (HandshakeStep::Done {
            result: Ok(progress.outgoing),
            established: false,
        }),
        HandshakeEvent::TrafficReady => step == (HandshakeStep::Done {
            result: if progress.position == message_len {
                Ok(None)
            } else {
                Err(TlsFailure::TrailingBytes)
            },
            established: true,
        }),
        HandshakeEvent::Other => step == (HandshakeStep::Done {
            result: Ok(None),
            established: false,
        }),
    }
}

impl HandshakeProgress {
    /// The bytes encoded so far.
    pub open spec fn encoded(self) -> Seq<u8> {
        match self.outgoing {
            Some(outgoing) => outgoing@,
            None => Seq::empty(),
        }
    }

    /// Takes in one event, after which `position` bytes of a message of
    /// `message_len` bytes have been dealt with. Records pile up until the
    /// engine wants them sent, and then are the answer. Once the engine is
    /// ready for application data the handshake is over; the message then has
    /// to be used up.
    pub fn advance(self, event: HandshakeEvent, message_len: usize) -> (step: HandshakeStep)
        ensures
            handshake_advanced(self, event, message_len, step),
    {
        let HandshakeProgress { position, outgoing } = self;
        match event {
            HandshakeEvent::Failed => HandshakeStep::Done {
                result: Err(TlsFailure::Engine),
                established: false,
            },
            HandshakeEvent::Record(mut record) => {
                let outgoing = match outgoing {
                    Some(mut outgoing) => {
                        outgoing.append(&mut record);
                        outgoing
                    },
                    None => record,
                };
                let progress = HandshakeProgress { position, outgoing: Some(outgoing) };
                HandshakeStep::Continue(progress)
            },
            HandshakeEvent::Transmit => HandshakeStep::Done {
                result: Ok(outgoing),
                established: false,
            },
            HandshakeEvent::TrafficReady => HandshakeStep::Done {
                result: if position == message_len {
                    Ok(None)
                } else {
                    Err(TlsFailure::TrailingBytes)
                },
                established: true,
            },
            HandshakeEvent::Other => HandshakeStep::Done { result: Ok(None), established: false },
        }
    }
}

/// How many bytes have been collected; less than none where nothing has.
spec fn collected_len(bytes: Option<Vec<u8>>) -> int {
    match bytes {
        Some(bytes) => bytes@.len() as int,
        None => -1,
    }
}

/// The bytes that have been collected.
spec fn collected_bytes(bytes: Option<Vec<u8>>) -> Seq<u8> {
    match bytes {
        Some(bytes) => bytes@,
        None => Seq::empty(),
    }
}

/// The connection after a run of engine calls.
pub open spec fn engine_after(
    steps: Seq<TlsStep<'_>>,
    engine: UnbufferedClientConnection,
) -> UnbufferedClientConnection {
    if steps.len() == 0 {
        engine
    } else {
        steps.last().after
    }
}

/// What is left of a message after a run of engine calls: what the last one has
/// made of it, without what it lets go of.
pub open spec fn rest_after(steps: Seq<TlsStep<'_>>, message: Seq<u8>) -> Seq<u8> {
    if steps.len() == 0 {
        message
    } else {
        steps.last().left.skip(steps.last().discard as int)
    }
}

/// Whether the engine has made these calls one after the other: the first on the
/// whole message, each further one on what the one before has left of it.
pub open spec fn is_engine_run(
    steps: Seq<TlsStep<'_>>,
    engine: UnbufferedClientConnection,
    message: Seq<u8>,
) -> bool
    decreases steps.len(),
{
    steps.len() > 0 ==> {
        &&& is_engine_run(steps.drop_last(), engine, message)
        &&& is_tls_step(steps.last())
        &&& steps.last().before == engine_after(steps.drop_last(), engine)
        &&& steps.last().given == rest_after(steps.drop_last(), message)
        &&& steps.last().discard <= steps.last().given.len()
        &&& steps.last().left.len() == steps.last().given.len()
        &&& steps.last().event matches TlsEvent::Record(record) ==> record.len() > 0
    }
}

/// The handshake records that a run of engine calls has made, in their order.
pub open spec fn records_made(steps: Seq<TlsStep<'_>>) -> Seq<u8>
    decreases steps.len(),
{
    if steps.len() == 0 {
        Seq::empty()
    } else {
        match steps.last().event {
            TlsEvent::Record(record) => records_made(steps.drop_last()) + record,
            _ => records_made(steps.drop_last()),
        }
    }
}

/// The application data that a run of engine calls has read, in its order.
pub open spec fn data_read(steps: Seq<TlsStep<'_>>) -> Seq<u8>
    decreases steps.len(),
{
    if steps.len() == 0 {
        Seq::empty()
    } else {
        match steps.last().event {
            TlsEvent::Data(records) => data_read(steps.drop_last()) + concat(records),
            _ => data_read(steps.drop_last()),
        }
    }
}

/// How far the engine can come in a message: to the end of its whole records. An
/// engine that may hold bytes of earlier messages skips some of this one, and it
/// is not known where it begins to read.
pub open spec fn message_limit(held: nat, message: Seq<u8>) -> nat {
    if held == 0 {
        whole_records_len(message)
    } else {
        message.len()
    }
}

/// How many bytes the engine may have taken in of a message without letting go of
/// them, where so many bytes are left of it.
pub open spec fn held_after(held: nat, message: Seq<u8>, rest_len: nat) -> nat {
    if message.len() - rest_len < message_limit(held, message) {
        (message_limit(held, message) - (message.len() - rest_len)) as nat
    } else {
        0
    }
}

/// What a run of engine calls on a handshake message comes to. The engine makes
/// records until something else comes. Where it wants them sent, it is told that
/// they are, and they are the answer: all that were made in this run, in their
/// order. Once it is ready for application data the handshake is over, and the
/// message has to be used up.
pub open spec fn is_handshake_run(
    steps: Seq<TlsStep<'_>>,
    before: EncryptedConnectionManager,
    message: Seq<u8>,
    result: Result<Option<Vec<u8>>, TlsFailure>,
    after: EncryptedConnectionManager,
) -> bool {
    &&& steps.len() > 0
    &&& is_engine_run(steps, before.engine(), message)
    &&& forall|i: int| 0 <= i < steps.len() - 1 ==> (#[trigger] steps[i]).event is Record
    &&& after.engine() == steps.last().after
    &&& after.held() == held_after(
        before.held(),
        message,
        rest_after(steps, message).len(),
    )
    &&& after.handshaking() == !(steps.last().event is TrafficReady)
    &&& match steps.last().event {
        TlsEvent::Failed => result == Err::<Option<Vec<u8>>, _>(TlsFailure::Engine),
        TlsEvent::Record(_) => false,
        TlsEvent::Transmit(sent) => {
            &&& is_transmission_done(sent, ())
            &&& match result {
                Ok(Some(answer)) => steps.len() > 1 && answer@ == records_made(steps),
                Ok(None) => steps.len() == 1,
                Err(_) => false,
            }
        },
        TlsEvent::TrafficReady(_) => if rest_after(steps, message).len() == 0 {
            result == Ok::<Option<Vec<u8>>, TlsFailure>(None)
        } else {
            result == Err::<Option<Vec<u8>>, _>(TlsFailure::TrailingBytes)
        },
        TlsEvent::Data(_) | TlsEvent::Other => result == Ok::<Option<Vec<u8>>, TlsFailure>(None),
    }
}

/// What the handling of a handshake message comes to.
pub open spec fn handshake_message_processed(
    before: EncryptedConnectionManager,
    message: Seq<u8>,
    result: Result<Option<Vec<u8>>, TlsFailure>,
    after: EncryptedConnectionManager,
) -> bool {
    if before.held() > message.len() {
        &&& result == Err::<Option<Vec<u8>>, _>(TlsFailure::UnreadBytes)
        &&& after == before
    } else {
        exists|steps: Seq<TlsStep<'_>>| #[trigger]
            is_handshake_run(steps, before, message, result, after)
    }
}

/// The space that the first attempt to encrypt a message is given.
pub open spec fn estimated_space(message_len: nat) -> nat {
    if message_len + ESTIMATED_TLS_OVERHEAD_LENGTH <= usize::MAX {
        message_len + ESTIMATED_TLS_OVERHEAD_LENGTH as nat
    } else {
        usize::MAX as nat
    }
}

/// Whether the engine has made these attempts to encrypt a message, each further
/// one with the space that the one before has asked for.
pub open spec fn are_attempts(
    attempts: Seq<EncryptAttempt<'_>>,
    writer: WriteTraffic<'_, ClientConnectionData>,
    message: Seq<u8>,
) -> bool
    decreases attempts.len(),
{
    &&& attempts.len() > 0
    &&& is_encrypt_attempt(attempts.last())
    &&& attempts.last().data == message
    &&& if attempts.len() == 1 {
        &&& attempts.last().writer == writer
        &&& attempts.last().space == estimated_space(message.len())
    } else {
        &&& are_attempts(attempts.drop_last(), writer, message)
        &&& attempts.drop_last().last().event matches EncryptEvent::InsufficientSize(size, again)
        &&& attempts.last().writer == again
        &&& attempts.last().space == size
    }
}

/// What attempts to encrypt come to.
pub open spec fn is_attempted(
    attempts: Seq<EncryptAttempt<'_>>,
    result: Result<Vec<u8>, TlsFailure>,
) -> bool {
    match attempts.last().event {
        EncryptEvent::Written(records) => result matches Ok(bytes) && bytes@ == records,
        EncryptEvent::InsufficientSize(_, _) => false,
        EncryptEvent::Exhausted => result == Err::<Vec<u8>, _>(TlsFailure::Engine),
    }
}

/// What one engine call, which is given nothing, and the attempts that follow it
/// come to. The message is encrypted once.
pub open spec fn is_encryption_run(
    step: TlsStep<'_>,
    attempts: Seq<EncryptAttempt<'_>>,
    before: EncryptedConnectionManager,
    message: Seq<u8>,
    result: Result<Vec<u8>, TlsFailure>,
    after: EncryptedConnectionManager,
) -> bool {
    &&& is_tls_step(step)
    &&& step.before == before.engine()
    &&& step.given == Seq::<u8>::empty()
    &&& after.engine() == step.after
    &&& after.held() == 0
    &&& after.handshaking() == before.handshaking()
    &&& match step.event {
        TlsEvent::Failed => result == Err::<Vec<u8>, _>(TlsFailure::Engine),
        TlsEvent::TrafficReady(writer) => {
            &&& are_attempts(attempts, writer, message)
            &&& is_attempted(attempts, result)
        },
        _ => result == Err::<Vec<u8>, _>(TlsFailure::NotReady),
    }
}

/// What the encryption of a message comes to.
pub open spec fn message_encrypted(
    before: EncryptedConnectionManager,
    message: Seq<u8>,
    result: Result<Vec<u8>, TlsFailure>,
    after: EncryptedConnectionManager,
) -> bool {
    if before.held() != 0 {
        &&& result == Err::<Vec<u8>, _>(TlsFailure::UnreadBytes)
        &&& after == before
    } else {
        exists|step: TlsStep<'_>, attempts: Seq<EncryptAttempt<'_>>| #[trigger]
            is_encryption_run(step, attempts, before, message, result, after)
    }
}

/// What a run of engine calls on an encrypted message comes to: all data that
/// the calls have read, up to the one that reads none. The message has to be
/// used up, and to hold data.
pub open spec fn is_decryption_run(
    steps: Seq<TlsStep<'_>>,
    before: EncryptedConnectionManager,
    message: Seq<u8>,
    result: Result<Vec<u8>, TlsFailure>,
    after: EncryptedConnectionManager,
) -> bool {
    &&& steps.len() > 0
    &&& is_engine_run(steps, before.engine(), message)
    &&& forall|i: int| 0 <= i < steps.len() - 1 ==> (#[trigger] steps[i]).event is Data
    &&& after.engine() == steps.last().after
    &&& after.held() == held_after(
        before.held(),
        message,
        rest_after(steps, message).len(),
    )
    &&& after.handshaking() == before.handshaking()
    &&& match steps.last().event {
        TlsEvent::Failed => result == Err::<Vec<u8>, _>(TlsFailure::Engine),
        TlsEvent::Data(_) => false,
        _ => if rest_after(steps, message).len() > 0 {
            result == Err::<Vec<u8>, _>(TlsFailure::TrailingBytes)
        } else if steps.len() == 1 {
            result == Err::<Vec<u8>, _>(TlsFailure::NoData)
        } else {
            result matches Ok(data) && data@ == data_read(steps)
        },
    }
}

/// What the decryption of a message comes to.
pub open spec fn message_decrypted(
    before: EncryptedConnectionManager,
    message: Seq<u8>,
    result: Result<Vec<u8>, TlsFailure>,
    after: EncryptedConnectionManager,
) -> bool {
    if before.handshaking() {
        &&& result == Err::<Vec<u8>, _>(TlsFailure::Handshaking)
        &&& after == before
    } else if before.held() > message.len() {
        &&& result == Err::<Vec<u8>, _>(TlsFailure::UnreadBytes)
        &&& after == before
    } else {
        exists|steps: Seq<TlsStep<'_>>| #[trigger]
            is_decryption_run(steps, before, message, result, after)
    }
}

/// What one more call adds to what a run has made and read.
proof fn lemma_one_more_step(steps: Seq<TlsStep<'_>>, step: TlsStep<'_>)
    ensures
        records_made(steps.push(step)) == (match step.event {
            TlsEvent::Record(record) => records_made(steps) + record,
            _ => records_made(steps),
        }),
        data_read(steps.push(step)) == (match step.event {
            TlsEvent::Data(records) => data_read(steps) + concat(records),
            _ => data_read(steps),
        }),
{
    assert(steps.push(step).drop_last() =~= steps);
}

/// The handshake goes on as long as there is something to answer, and ends
/// without an answer: once it is over, the message is used up, or the result is
/// an error.
pub proof fn a_handshake_ends_without_an_answer(
    before: EncryptedConnectionManager,
    message: Seq<u8>,
    result: Result<Option<Vec<u8>>, TlsFailure>,
    after: EncryptedConnectionManager,
)
    requires
        before.handshaking(),
        handshake_message_processed(before, message, result, after),
    ensures
        result matches Ok(Some(answer)) ==> after.handshaking() && answer@.len() > 0,
        result matches Err(failure) ==> (failure is TrailingBytes <==> !after.handshaking()),
        !after.handshaking() && result is Ok ==> result->Ok_0 is None && after.held() == 0,
{
    lemma_whole_records_fit(message);
    if before.held() <= message.len() {
        let steps = choose|steps: Seq<TlsStep<'_>>| #[trigger]
            is_handshake_run(steps, before, message, result, after);
        if steps.len() > 1 {
            let made = steps.drop_last();
            assert(steps[steps.len() - 2] == made.last());
            assert(is_engine_run(made, before.engine(), message));
            assert(made.last().event is Record);
            assert(records_made(made).len() > 0);
        }
    }
}

/// What a message comes to once the engine has no more data to hand out: the
/// data collected, provided that there is any and that the message is used up.
pub open spec fn decryption_finished(
    message: Option<Vec<u8>>,
    position: usize,
    message_len: usize,
) -> Result<Vec<u8>, TlsFailure> {
    if position != message_len {
        Err(TlsFailure::TrailingBytes)
    } else {
        match message {
            Some(message) => Ok(message),
            None => Err(TlsFailure::NoData),
        }
    }
}

/// What a message comes to once the engine has no more data to hand out: the
/// data collected, provided that there is any and that the message is used up.
pub fn finish_decryption(message: Option<Vec<u8>>, position: usize, message_len: usize) -> (result:
    Result<Vec<u8>, TlsFailure>)
    ensures
        result == decryption_finished(message, position, message_len),
{
    if position != message_len {
        return Err(TlsFailure::TrailingBytes);
    }
    match message {
        Some(message) => Ok(message),
        None => Err(TlsFailure::NoData),
    }
}

/// Whole records are no longer than the bytes that begin with them.
proof fn lemma_whole_records_fit(bytes: Seq<u8>)
    ensures
        whole_records_len(bytes) <= bytes.len(),
    decreases bytes.len(),
{
    if bytes.len() >= 5 && bytes.len() >= record_len(bytes) {
        lemma_whole_records_fit(bytes.skip(record_len(bytes) as int));
    }
}

/// The length of the whole records that bytes begin with.
fn measure_records(bytes: &[u8]) -> (len: usize)
    ensures
        len == whole_records_len(bytes@),
        len <= bytes@.len(),
{
    let mut len: usize = 0;
    assert(bytes@.skip(0) =~= bytes@);
    while bytes.len() - len >= 5
        invariant
            len <= bytes@.len(),
            whole_records_len(bytes@) == len + whole_records_len(bytes@.skip(len as int)),
        ensures
            whole_records_len(bytes@.skip(len as int)) == 0,
        decreases bytes@.len() - len,
    {
        let length_bytes: &[u8] = &bytes[len + 3..bytes.len()];
        assert(length_bytes@ =~= bytes@.skip(len as int).skip(3));
        let size: usize = 5 + read_u16(length_bytes) as usize;
        if bytes.len() - len < size {
            break ;
        }
        assert(bytes@.skip(len as int).skip(size as int) =~= bytes@.skip(len + size));
        len = len + size;
    }
    len
}

/// Encrypts a message, with a buffer that is made longer as often as the
/// engine asks for it.
fn encrypt_with(traffic: WriteTraffic<'_, ClientConnectionData>, message: &[u8]) -> (result: Result<
    Vec<u8>,
    TlsFailure,
>)
    ensures
        exists|attempts: Seq<EncryptAttempt<'_>>| #[trigger]
            are_attempts(attempts, traffic, message@) && is_attempted(attempts, result),
{
    let mut writer = traffic;
    let mut records: Vec<u8> =
        vec![0u8; message.len().saturating_add(ESTIMATED_TLS_OVERHEAD_LENGTH)];
    let ghost mut attempts: Seq<EncryptAttempt<'_>> = Seq::empty();
    loop
        invariant
            attempts.len() == 0 ==> {
                &&& writer == traffic
                &&& records@.len() == estimated_space(message@.len())
            },
            attempts.len() > 0 ==> {
                &&& are_attempts(attempts, traffic, message@)
                &&& attempts.last().event == EncryptEvent::InsufficientSize(
                    records@.len(),
                    writer,
                )
            },
        decreases usize::MAX - records@.len(),
    {
        let ghost tried = writer;
        let ghost space = records@.len();
        let outcome = encrypt_record(writer, message, records.as_mut_slice());
        proof {
            let attempt = EncryptAttempt {
                writer: tried,
                data: message@,
                space,
                event: encrypt_event_of(outcome, records@),
            };
            assert(is_encrypt_attempt(attempt));
            assert(attempts.push(attempt).drop_last() =~= attempts);
            attempts = attempts.push(attempt);
            assert(are_attempts(attempts, traffic, message@));
        }
        match outcome {
            EncryptOutcome::Written(size) => {
                records.truncate(size);
                assert(is_attempted(attempts, Ok(records)));
                return Ok(records);
            },
            EncryptOutcome::InsufficientSize(size, again) => {
                records.resize(size, 0);
                writer = again;
                assert(records.len() <= usize::MAX);
            },
            EncryptOutcome::Exhausted => {
                return Err(TlsFailure::Engine);
            },
        }
    }
}

/// Takes all records off a queue and adds them to a message; gives the number
/// of bytes to discard, which is none, and the longer message.
fn collect_records(
    traffic: ReadTraffic<'_, '_, ClientConnectionData>,
    message: Option<Vec<u8>>,
) -> (result: Result<(usize, Vec<u8>), rustls::Error>)
    requires
        queued_records(traffic).len() > 0,
        forall|i: int|
            0 <= i < queued_records(traffic).len() ==> (#[trigger] queued_records(
                traffic,
            )[i]).len() > 0,
    ensures
        result matches Ok((discarded, collected)) && discarded == 0 && collected_len(message)
            < collected@.len() && collected@ == collected_bytes(message) + concat(
            queued_records(traffic),
        ),
{
    let ghost records = queued_records(traffic);
    let ghost mut done: int = 0;
    let mut traffic = traffic;
    let ghost before = collected_bytes(message);
    let ghost len_before = collected_len(message);
    let mut discarded: usize = 0;
    let mut message = message;
    proof {
        assert(before + concat(records.take(0)) =~= before);
        assert(records.skip(0) =~= records);
    }
    loop
        invariant
            discarded == 0,
            0 <= done <= records.len(),
            queued_records(traffic) == records.skip(done),
            forall|i: int| 0 <= i < records.len() ==> (#[trigger] records[i]).len() > 0,
            done == 0 ==> len_before == collected_len(message),
            done > 0 ==> len_before < collected_len(message),
            collected_bytes(message) == before + concat(records.take(done)),
            len_before >= -1,
        ensures
            done == records.len(),
        decreases records.len() - done,
    {
        match next_record(&mut traffic) {
            None => {
                break ;
            },
            Some(Err(err)) => {
                return Err(err);
            },
            Some(Ok((record_discard, payload))) => {
                discarded = discarded + record_discard;
                let mut payload = payload;
                proof {
                    assert(records.skip(done).drop_first() =~= records.skip(done + 1));
                    lemma_concat_push(records.take(done), payload@);
                    assert(records.take(done).push(payload@) =~= records.take(done + 1));
                    done = done + 1;
                }
                message =
                match message {
                    Some(mut message) => {
                        message.append(&mut payload);
                        Some(message)
                    },
                    None => Some(payload),
                };
                assert(collected_bytes(message) =~= before + concat(records.take(done)));
            },
        }
    }
    assert(records.take(done) =~= records);
    match message {
        Some(message) => Ok((discarded, message)),
        None => vstd::pervasive::unreached(),
    }
}

impl EncryptedConnectionManager {
    /// The TLS engine, as the session holds it.
    pub closed spec fn engine(&self) -> UnbufferedClientConnection {
        self.conn
    }

    /// The configuration that the session was opened with.
    pub closed spec fn config(&self) -> Arc<ClientConfig> {
        connection_config(self.conn)
    }

    /// The address that the session was opened for.
    pub closed spec fn address(&self) -> Seq<u8> {
        connection_address(self.conn)
    }

    /// Whether two sessions were opened with one configuration and for one
    /// address.
    pub open spec fn is_opened_like(&self, other: &Self) -> bool {
        &&& self.config() == other.config()
        &&& self.address() == other.address()
    }

    /// Whether the handshake is still going on.
    pub closed spec fn handshaking(&self) -> bool {
        self.is_handshaking
    }

    /// How many bytes of the last message the engine may have taken in without
    /// letting go of them.
    pub closed spec fn held(&self) -> nat {
        self.held as nat
    }

    /// The engine has taken in no more than that.
    pub closed spec fn wf(&self) -> bool {
        buffered_handshake_len(self.conn) <= self.held
    }

    pub fn is_handshaking(&self) -> (handshaking: bool)
        ensures
            handshaking == self.handshaking(),
    {
        self.is_handshaking
    }

    /// Hands one handshake message of the phone to the engine, and gives the
    /// message to answer it with, if there is one. An empty message starts the
    /// handshake. What the engine answers rests on the phone and on random
    /// numbers.
    pub fn process_handshake_message(&mut self, payload: &mut [u8]) -> (result: Result<
        Option<Vec<u8>>,
        TlsFailure,
    >)
        requires
            old(self).wf(),
            old(self).handshaking(),
        ensures
            final(self).wf(),
            final(self).is_opened_like(old(self)),
            final(payload)@.len() == old(payload)@.len(),
            old(self).held() > old(payload)@.len() ==> final(payload)@ == old(payload)@,
            handshake_message_processed(*old(self), old(payload)@, result, *final(self)),
    {
        let message_len: usize = payload.len();
        if self.held > message_len {
            return Err(TlsFailure::UnreadBytes);
        }
        let limit: usize = if self.held == 0 {
            measure_records(payload)
        } else {
            message_len
        };
        let mut progress = HandshakeProgress { position: 0, outgoing: None };
        let ghost mut steps: Seq<TlsStep<'_>> = Seq::empty();
        assert(payload@.skip(0) =~= payload@);
        loop
            invariant
                self.is_handshaking,
                self.is_opened_like(old(self)),
                message_len == payload@.len(),
                message_len == old(payload)@.len(),
                old(self).held() <= message_len,
                progress.position <= message_len,
                limit <= message_len,
                limit == message_limit(old(self).held(), old(payload)@),
                buffered_handshake_len(self.conn) <= message_len - progress.position,
                old(self).held() == 0 ==> progress.position + read_limit(
                    buffered_handshake_len(self.conn),
                    payload@.skip(progress.position as int),
                ) <= limit,
                is_engine_run(steps, old(self).engine(), old(payload)@),
                engine_after(steps, old(self).engine()) == self.conn,
                rest_after(steps, old(payload)@) == payload@.skip(progress.position as int),
                forall|i: int| 0 <= i < steps.len() ==> (#[trigger] steps[i]).event is Record,
                progress.outgoing is Some <==> steps.len() > 0,
                progress.encoded() == records_made(steps),
            decreases usize::MAX - collected_len(progress.outgoing),
        {
            let ghost engine = self.conn;
            let ghost given = payload@.skip(progress.position as int);
            let ghost position = progress.position as int;
            let (_, rest) = payload.split_at_mut(progress.position);
            assert(rest@ =~= given);
            let ghost left = final(rest)@;
            let (discard, state) = process_tls_records(&mut self.conn, rest);
            progress.position = progress.position + discard;
            let ghost given_event = event_of(state);
            let event = match state {
                Err(_) => HandshakeEvent::Failed,
                Ok(TlsState::EncodeTlsData(mut encoder)) => {
                    let ghost before = encoder;
                    let mut nothing: [u8; 0] = [];
                    let record_len: usize = match encode_record(&mut encoder, &mut nothing) {
                        EncodeOutcome::InsufficientSize(size) => size,
                        _ => vstd::pervasive::unreached(),
                    };
                    let mut record: Vec<u8> = vec![0u8; record_len];
                    let _ = encode_record(&mut encoder, record.as_mut_slice());
                    assert(record@ =~= pending_record(before)->0);
                    HandshakeEvent::Record(record)
                },
                Ok(TlsState::TransmitTlsData(sent)) => {
                    transmission_done(sent);
                    HandshakeEvent::Transmit
                },
                Ok(TlsState::WriteTraffic(_)) => HandshakeEvent::TrafficReady,
                Ok(_) => HandshakeEvent::Other,
            };
            proof {
                let step = TlsStep {
                    before: engine,
                    given,
                    discard: discard as nat,
                    event: given_event,
                    left: payload@.skip(position),
                    after: self.conn,
                };
                assert(payload@.skip(position) =~= left);
                assert(is_tls_step(step));
                lemma_one_more_step(steps, step);
                assert(steps.push(step).drop_last() =~= steps);
                assert(payload@.skip(position).skip(discard as int) =~= payload@.skip(
                    progress.position as int,
                ));
                steps = steps.push(step);
            }
            let end: usize = progress.position;
            match progress.advance(event, message_len) {
                HandshakeStep::Continue(next) => {
                    assert(next.outgoing->0.len() <= usize::MAX);
                    progress = next;
                },
                HandshakeStep::Done { result, established } => {
                    if established {
                        self.is_handshaking = false;
                    }
                    self.held = limit - end;
                    assert(is_handshake_run(steps, *old(self), old(payload)@, result, *self));
                    return result;
                },
            }
        }
    }

    /// Encrypts one message. Where it succeeds, the records are what the
    /// engine made of the whole message.
    pub fn encrypt_message(&mut self, message: &[u8]) -> (result: Result<Vec<u8>, TlsFailure>)
        requires
            old(self).wf(),
            !old(self).handshaking(),
        ensures
            final(self).wf(),
            final(self).is_opened_like(old(self)),
            message_encrypted(*old(self), message@, result, *final(self)),
    {
        if self.held != 0 {
            return Err(TlsFailure::UnreadBytes);
        }
        let ghost engine = self.conn;
        let mut nothing: [u8; 0] = [];
        assert(nothing@ =~= Seq::<u8>::empty());
        let (discard, state) = process_tls_records(&mut self.conn, &mut nothing);
        let ghost event = event_of(state);
        let result = match state {
            Err(_) => Err(TlsFailure::Engine),
            Ok(TlsState::WriteTraffic(traffic)) => encrypt_with(traffic, message),
            Ok(_) => Err(TlsFailure::NotReady),
        };
        proof {
            let step = TlsStep {
                before: engine,
                given: Seq::empty(),
                discard: discard as nat,
                event,
                left: nothing@,
                after: self.conn,
            };
            assert(is_tls_step(step));
            let attempts = match event {
                TlsEvent::TrafficReady(writer) => choose|attempts: Seq<EncryptAttempt<'_>>|
                    #[trigger]
                    are_attempts(attempts, writer, message@) && is_attempted(attempts, result),
                _ => Seq::empty(),
            };
            assert(is_encryption_run(step, attempts, *old(self), message@, result, *self));
        }
        result
    }

    /// Decrypts one message. Where it succeeds, the result is all the data
    /// that the engine read out of the message, and the message is used up.
    pub fn decrypt_message(&mut self, encrypted_message: &mut [u8]) -> (result: Result<
        Vec<u8>,
        TlsFailure,
    >)
        requires
            old(self).wf(),
        ensures
            final(self).wf(),
            final(self).is_opened_like(old(self)),
            final(self).handshaking() == old(self).handshaking(),
            final(encrypted_message)@.len() == old(encrypted_message)@.len(),
            old(self).handshaking() || old(self).held() > old(encrypted_message)@.len()
                ==> final(encrypted_message)@ == old(encrypted_message)@,
            message_decrypted(*old(self), old(encrypted_message)@, result, *final(self)),
            result matches Ok(message) ==> message@.len() > 0 && final(self).held() == 0,
    {
        if self.is_handshaking {
            return Err(TlsFailure::Handshaking);
        }
        let message_len: usize = encrypted_message.len();
        if self.held > message_len {
            return Err(TlsFailure::UnreadBytes);
        }
        let limit: usize = if self.held == 0 {
            measure_records(encrypted_message)
        } else {
            message_len
        };
        let mut position: usize = 0;
        let mut message: Option<Vec<u8>> = None;
        let ghost mut steps: Seq<TlsStep<'_>> = Seq::empty();
        assert(encrypted_message@.skip(0) =~= encrypted_message@);
        loop
            invariant
                !self.is_handshaking,
                self.is_opened_like(old(self)),
                !old(self).handshaking(),
                message_len == encrypted_message@.len(),
                message_len == old(encrypted_message)@.len(),
                old(self).held() <= message_len,
                position <= message_len,
                limit <= message_len,
                limit == message_limit(old(self).held(), old(encrypted_message)@),
                buffered_handshake_len(self.conn) <= message_len - position,
                old(self).held() == 0 ==> position + read_limit(
                    buffered_handshake_len(self.conn),
                    encrypted_message@.skip(position as int),
                ) <= limit,
                is_engine_run(steps, old(self).engine(), old(encrypted_message)@),
                engine_after(steps, old(self).engine()) == self.conn,
                rest_after(steps, old(encrypted_message)@) == encrypted_message@.skip(
                    position as int,
                ),
                forall|i: int| 0 <= i < steps.len() ==> (#[trigger] steps[i]).event is Data,
                message is Some <==> steps.len() > 0,
                message matches Some(message) ==> message@.len() > 0,
                collected_bytes(message) == data_read(steps),
            decreases usize::MAX - collected_len(message),
        {
            let ghost engine = self.conn;
            let ghost given = encrypted_message@.skip(position as int);
            let ghost start = position as int;
            let (_, rest) = encrypted_message.split_at_mut(position);
            assert(rest@ =~= given);
            let ghost left = final(rest)@;
            let (discard, state) = process_tls_records(&mut self.conn, rest);
            let ghost event = event_of(state);
            position = position + discard;
            let (outcome, more) = match state {
                Err(_) => (Some(Err(TlsFailure::Engine)), None),
                Ok(TlsState::ReadTraffic(traffic)) => match collect_records(traffic, message) {
                    Err(_) => (Some(Err(TlsFailure::Engine)), None),
                    Ok((discarded, collected)) => {
                        position = position + discarded;
                        assert(collected.len() <= usize::MAX);
                        (None, Some(collected))
                    },
                },
                Ok(_) => (Some(finish_decryption(message, position, message_len)), None),
            };
            proof {
                let step = TlsStep {
                    before: engine,
                    given,
                    discard: discard as nat,
                    event,
                    left: encrypted_message@.skip(start),
                    after: self.conn,
                };
                assert(encrypted_message@.skip(start) =~= left);
                assert(is_tls_step(step));
                lemma_one_more_step(steps, step);
                assert(steps.push(step).drop_last() =~= steps);
                assert(encrypted_message@.skip(start).skip(discard as int)
                    =~= encrypted_message@.skip(position as int));
                steps = steps.push(step);
            }
            match outcome {
                Some(result) => {
                    self.held = limit - position;
                    assert(is_decryption_run(
                        steps,
                        *old(self),
                        old(encrypted_message)@,
                        result,
                        *self,
                    ));
                    return result;
                },
                None => {
                    message = more;
                },
            }
        }
    }
}

/// The calls of a run follow each other: the first is made on the engine as it was
/// and on the whole message, each further one on the engine as the one before has
/// left it, and on what that has left of the message without what it let go of.
pub proof fn engine_calls_follow_each_other(
    steps: Seq<TlsStep<'_>>,
    engine: UnbufferedClientConnection,
    message: Seq<u8>,
    index: int,
)
    requires
        is_engine_run(steps, engine, message),
        0 <= index < steps.len(),
    ensures
        is_tls_step(steps[index]),
        index == 0 ==> steps[index].before == engine && steps[index].given == message,
        index > 0 ==> {
            &&& steps[index].before == steps[index - 1].after
            &&& steps[index].given == steps[index - 1].left.skip(
                steps[index - 1].discard as int,
            )
        },
    decreases steps.len(),
{
    let earlier = steps.drop_last();
    if index < earlier.len() {
        engine_calls_follow_each_other(earlier, engine, message, index);
        assert(earlier[index] == steps[index]);
        if index > 0 {
            assert(earlier[index - 1] == steps[index - 1]);
        }
    } else if index > 0 {
        assert(earlier.last() == steps[index - 1]);
    }
}

/// What two runs of calls read and make, one after the other, is what the first
/// does and then what the second does; one call reads all the records of data that
/// it hands out, or makes the one record that it gives.
pub proof fn runs_add_up(first: Seq<TlsStep<'_>>, second: Seq<TlsStep<'_>>, step: TlsStep<'_>)
    ensures
        data_read(first + second) == data_read(first) + data_read(second),
        records_made(first + second) == records_made(first) + records_made(second),
        data_read(seq![step]) == (match step.event {
            TlsEvent::Data(records) => concat(records),
            _ => Seq::empty(),
        }),
        records_made(seq![step]) == (match step.event {
            TlsEvent::Record(record) => record,
            _ => Seq::empty(),
        }),
    decreases second.len(),
{
    let none = Seq::<TlsStep<'_>>::empty();
    lemma_one_more_step(none, step);
    assert(none.push(step) =~= seq![step]);
    assert(data_read(none) =~= Seq::<u8>::empty() && records_made(none) =~= Seq::<u8>::empty());
    if second.len() == 0 {
        assert(first + second =~= first);
        assert(data_read(first) + data_read(second) =~= data_read(first));
        assert(records_made(first) + records_made(second) =~= records_made(first));
    } else {
        let earlier = second.drop_last();
        runs_add_up(first, earlier, step);
        assert(first + second =~= (first + earlier).push(second.last()));
        assert(earlier.push(second.last()) =~= second);
        lemma_one_more_step(first + earlier, second.last());
        lemma_one_more_step(earlier, second.last());
        assert(data_read(first + second) =~= data_read(first) + data_read(second));
        assert(records_made(first + second) =~= records_made(first) + records_made(second));
    }
}

/// A message is decrypted, once the handshake is over, to all the data that the
/// engine reads out of it until it has no more, in its order. There is some, and
/// nothing of the message is left. The handshake stays over.
pub proof fn all_data_of_a_message_is_read(
    before: EncryptedConnectionManager,
    message: Seq<u8>,
    data: Vec<u8>,
    after: EncryptedConnectionManager,
)
    requires
        message_decrypted(before, message, Ok(data), after),
    ensures
        !before.handshaking(),
        !after.handshaking(),
        exists|steps: Seq<TlsStep<'_>>|
            {
                &&& #[trigger] is_engine_run(steps, before.engine(), message)
                &&& steps.len() > 1
                &&& forall|i: int| 0 <= i < steps.len() - 1 ==> (#[trigger] steps[i]).event is Data
                &&& !(steps.last().event is Data)
                &&& !(steps.last().event is Failed)
                &&& steps.last().discard == steps.last().left.len()
                &&& after.engine() == steps.last().after
                &&& data@ == data_read(steps)
            },
{
    let steps = choose|steps: Seq<TlsStep<'_>>| #[trigger]
        is_decryption_run(steps, before, message, Ok(data), after);
    assert(is_engine_run(steps, before.engine(), message));
}

/// Why a message is not decrypted: the handshake is not over, it is shorter than
/// what the engine may hold, the engine reports an error, something of the message
/// is left, or there is no data in it.
pub proof fn a_message_fails_for_a_reason(
    before: EncryptedConnectionManager,
    message: Seq<u8>,
    failure: TlsFailure,
    after: EncryptedConnectionManager,
)
    requires
        message_decrypted(before, message, Err(failure), after),
    ensures
        failure is Handshaking <==> before.handshaking(),
        failure is UnreadBytes <==> !before.handshaking() && before.held() > message.len(),
        failure is Handshaking || failure is UnreadBytes ==> after == before,
        !(failure is NotReady),
        failure is Engine || failure is TrailingBytes || failure is NoData ==> exists|
            steps: Seq<TlsStep<'_>>,
        |
            {
                &&& #[trigger] is_engine_run(steps, before.engine(), message)
                &&& steps.len() > 0
                &&& failure is Engine <==> steps.last().event is Failed
                &&& failure is TrailingBytes ==> steps.last().discard < steps.last().left.len()
                &&& failure is NoData ==> steps.len() == 1
            },
{
    if !before.handshaking() && before.held() <= message.len() {
        let steps = choose|steps: Seq<TlsStep<'_>>| #[trigger]
            is_decryption_run(steps, before, message, Err(failure), after);
        assert(is_engine_run(steps, before.engine(), message));
    }
}

/// The answer to a handshake message is all that the engine has made while it read
/// the message, in the order in which it was made, once the engine wants it to be
/// sent; and the engine is told that it is sent.
pub proof fn the_answer_is_all_that_was_made(
    before: EncryptedConnectionManager,
    message: Seq<u8>,
    answer: Vec<u8>,
    after: EncryptedConnectionManager,
)
    requires
        handshake_message_processed(before, message, Ok(Some(answer)), after),
    ensures
        after.handshaking(),
        exists|steps: Seq<TlsStep<'_>>|
            {
                &&& #[trigger] is_engine_run(steps, before.engine(), message)
                &&& steps.len() > 1
                &&& forall|i: int|
                    0 <= i < steps.len() - 1 ==> (#[trigger] steps[i]).event is Record
                &&& steps.last().event matches TlsEvent::Transmit(sent)
                &&& is_transmission_done(sent, ())
                &&& after.engine() == steps.last().after
                &&& answer@ == records_made(steps)
            },
{
    let steps = choose|steps: Seq<TlsStep<'_>>| #[trigger]
        is_handshake_run(steps, before, message, Ok(Some(answer)), after);
    assert(is_engine_run(steps, before.engine(), message));
}

/// The handshake is over once the engine is ready for application data, and not
/// before: the engine is asked until it has said that it is.
pub proof fn the_engine_ends_the_handshake(
    before: EncryptedConnectionManager,
    message: Seq<u8>,
    result: Result<Option<Vec<u8>>, TlsFailure>,
    after: EncryptedConnectionManager,
)
    requires
        before.held() <= message.len(),
        handshake_message_processed(before, message, result, after),
    ensures
        exists|steps: Seq<TlsStep<'_>>|
            {
                &&& #[trigger] is_engine_run(steps, before.engine(), message)
                &&& steps.len() > 0
                &&& after.engine() == steps.last().after
                &&& after.handshaking() <==> !(steps.last().event is TrafficReady)
                &&& result == Err::<Option<Vec<u8>>, _>(TlsFailure::Engine)
                    <==> steps.last().event is Failed
            },
{
    let steps = choose|steps: Seq<TlsStep<'_>>| #[trigger]
        is_handshake_run(steps, before, message, result, after);
    assert(is_engine_run(steps, before.engine(), message));
}

/// A message is encrypted by the engine of the session, which is asked once and is
/// ready for it; all of the message, and nothing else, is handed to what the engine
/// gives for that, and what is written is the result.
pub proof fn a_message_is_encrypted_in_its_session(
    before: EncryptedConnectionManager,
    message: Seq<u8>,
    records: Vec<u8>,
    after: EncryptedConnectionManager,
)
    requires
        message_encrypted(before, message, Ok(records), after),
    ensures
        before.held() == 0,
        exists|step: TlsStep<'_>, attempts: Seq<EncryptAttempt<'_>>|
            {
                &&& is_tls_step(step)
                &&& step.before == before.engine()
                &&& step.given.len() == 0
                &&& step.after == after.engine()
                &&& step.event is TrafficReady
                &&& #[trigger] are_attempts(attempts, step.event->TrafficReady_0, message)
                &&& attempts.last().event == EncryptEvent::Written(records@)
            },
{
    let (step, attempts) = choose|step: TlsStep<'_>, attempts: Seq<EncryptAttempt<'_>>| #[trigger]
        is_encryption_run(step, attempts, before, message, Ok(records), after);
    assert(is_tls_step(step));
    assert(step.event is TrafficReady);
    assert(are_attempts(attempts, step.event->TrafficReady_0, message));
}

/// Each attempt to encrypt is made on the whole message. The first has room for the
/// message and 40 bytes more; each further one is made because the one before had
/// too little room, and with as much as that asked for.
pub proof fn attempts_are_made_on_the_message(
    attempts: Seq<EncryptAttempt<'_>>,
    writer: WriteTraffic<'_, ClientConnectionData>,
    message: Seq<u8>,
    index: int,
)
    requires
        are_attempts(attempts, writer, message),
        0 <= index < attempts.len(),
    ensures
        is_encrypt_attempt(attempts[index]),
        attempts[index].data == message,
        index == 0 ==> attempts[index].writer == writer,
        index == 0 && message.len() + 40 <= usize::MAX ==> attempts[index].space == message.len()
            + 40,
        index > 0 ==> attempts[index - 1].event == EncryptEvent::InsufficientSize(
            attempts[index].space,
            attempts[index].writer,
        ),
    decreases attempts.len(),
{
    let earlier = attempts.drop_last();
    if index < earlier.len() {
        attempts_are_made_on_the_message(earlier, writer, message, index);
        assert(earlier[index] == attempts[index]);
        if index > 0 {
            assert(earlier[index - 1] == attempts[index - 1]);
        }
    } else if index > 0 {
        assert(earlier.last() == attempts[index - 1]);
    }
}

/// What may be held of a message is part of what is left of it: nothing, where it
/// is used up. Of a message that an engine which held nothing has not let go of at
/// all, it is the whole records.
pub proof fn only_what_is_left_is_held(held: nat, message: Seq<u8>, rest_len: nat)
    requires
        rest_len <= message.len(),
    ensures
        held_after(held, message, rest_len) <= rest_len,
        held == 0 && rest_len == message.len() ==> held_after(held, message, rest_len)
            == whole_records_len(message),
        held > 0 ==> held_after(held, message, rest_len) == rest_len,
{
    lemma_whole_records_fit(message);
}

/// A phone is talked to where its certificate is valid, also where it fails on the
/// name alone; one that is rejected for anything else is not.
pub proof fn a_rejected_phone_is_not_talked_to(verdict: CertificateVerdict)
    ensures
        verdict is Valid || verdict is NotValidForName <==> is_acceptable(verdict),
        verdict is Rejected <==> !is_acceptable(verdict),
{
}

/// A new session has the configuration of the head unit and the address 0.0.0.0,
/// which names no phone. Its handshake is still to come, and it holds nothing of
/// any message. It is not opened only where the engine was asked to and refused.
pub proof fn a_session_begins_with_its_handshake(
    config: Arc<ClientConfig>,
    manager: Result<EncryptedConnectionManager, TlsFailure>,
)
    requires
        is_opened(config, manager),
    ensures
        manager matches Ok(manager) ==> {
            &&& manager.config() == config
            &&& manager.address().len() == 4
            &&& forall|i: int| 0 <= i < 4 ==> #[trigger] manager.address()[i] == 0
            &&& manager.handshaking()
            &&& manager.held() == 0
            &&& is_connection_attempt(config, manager.address(), Ok(manager.engine()))
        },
        manager matches Err(failure) ==> {
            &&& failure is Engine
            &&& exists|address: Seq<u8>, refusal: rustls::Error| #[trigger]
                is_connection_attempt(config, address, Err(refusal))
        },
{
}

/// While the engine makes records, they are put behind those that it has made
/// before, and the handling goes on where it was. All that was made is the answer
/// once the engine wants it sent; an error of the engine is one; nothing is
/// answered else. Only that the engine is ready for data ends the handshake, and
/// then all of the message has to have been dealt with.
pub proof fn records_pile_up_until_they_are_sent(
    progress: HandshakeProgress,
    event: HandshakeEvent,
    message_len: usize,
    step: HandshakeStep,
)
    requires
        handshake_advanced(progress, event, message_len, step),
    ensures
        step is Continue <==> event is Record,
        event matches HandshakeEvent::Record(record) ==> {
            let made = match progress.outgoing {
                Some(bytes) => bytes@,
                None => Seq::empty(),
            };
            &&& step->Continue_0.position == progress.position
            &&& step->Continue_0.outgoing matches Some(outgoing)
            &&& outgoing@ == made + record@
        },
        event is Failed ==> step->result == Err::<Option<Vec<u8>>, _>(TlsFailure::Engine),
        event is Transmit ==> step->result == Ok::<_, TlsFailure>(progress.outgoing),
        event is Other ==> step->result == Ok::<Option<Vec<u8>>, TlsFailure>(None),
        event is TrafficReady && progress.position == message_len ==> step->result == Ok::<
            Option<Vec<u8>>,
            TlsFailure,
        >(None),
        event is TrafficReady && progress.position != message_len ==> step->result == Err::<
            Option<Vec<u8>>,
            _,
        >(TlsFailure::TrailingBytes),
        step is Done ==> (step->established <==> event is TrafficReady),
{
}

/// What was collected is the message, where there is anything and the whole message
/// has been dealt with. That something is left is told before that there is nothing.
pub proof fn a_message_is_finished_where_it_ends(
    message: Option<Vec<u8>>,
    position: usize,
    message_len: usize,
)
    ensures
        ({
            let result = decryption_finished(message, position, message_len);
            &&& result is Ok <==> position == message_len && message is Some
            &&& result is Ok ==> result->Ok_0 == message->0
            &&& result is Err ==> (result->Err_0 is TrailingBytes <==> position != message_len)
            &&& result is Err ==> (result->Err_0 is NoData <==> position == message_len)
        }),
{
}

/// Why a message is not encrypted: the engine may hold bytes of earlier messages,
/// and is not asked then; or it was asked, and reports an error, or its keys are
/// used up, or it is not ready for data.
pub proof fn an_encryption_fails_for_a_reason(
    before: EncryptedConnectionManager,
    message: Seq<u8>,
    failure: TlsFailure,
    after: EncryptedConnectionManager,
)
    requires
        message_encrypted(before, message, Err(failure), after),
    ensures
        failure is UnreadBytes <==> before.held() > 0,
        failure is UnreadBytes ==> after == before,
        failure is UnreadBytes || failure is Engine || failure is NotReady,
        failure is Engine || failure is NotReady ==> exists|
            step: TlsStep<'_>,
            attempts: Seq<EncryptAttempt<'_>>,
        |
            {
                &&& #[trigger] is_encryption_run(
                    step,
                    attempts,
                    before,
                    message,
                    Err(failure),
                    after,
                )
                &&& is_tls_step(step)
                &&& step.before == before.engine()
                &&& step.given.len() == 0
                &&& failure is NotReady <==> !(step.event is Failed) && !(step.event is TrafficReady)
                &&& failure is Engine ==> step.event is Failed || attempts.last().event is Exhausted
            },
{
    if before.held() == 0 {
        let (step, attempts) = choose|step: TlsStep<'_>, attempts: Seq<EncryptAttempt<'_>>|
            #[trigger]
            is_encryption_run(step, attempts, before, message, Err(failure), after);
        assert(is_encryption_run(step, attempts, before, message, Err(failure), after));
    }
}

/// Why a handshake message is not dealt with: it is shorter than what the engine may
/// hold, and is not handed to it then; or the engine reports an error; or it is ready
/// for data, and something of the message is left.
pub proof fn a_handshake_fails_for_a_reason(
    before: EncryptedConnectionManager,
    message: Seq<u8>,
    failure: TlsFailure,
    after: EncryptedConnectionManager,
)
    requires
        handshake_message_processed(before, message, Err(failure), after),
    ensures
        failure is UnreadBytes <==> before.held() > message.len(),
        failure is UnreadBytes ==> after == before,
        failure is UnreadBytes || failure is Engine || failure is TrailingBytes,
        failure is Engine || failure is TrailingBytes ==> exists|steps: Seq<TlsStep<'_>>|
            {
                &&& #[trigger] is_engine_run(steps, before.engine(), message)
                &&& steps.len() > 0
                &&& failure is Engine <==> steps.last().event is Failed
                &&& failure is TrailingBytes ==> steps.last().event is TrafficReady
                    && steps.last().discard < steps.last().left.len()
            },
{
    if before.held() <= message.len() {
        let steps = choose|steps: Seq<TlsStep<'_>>| #[trigger]
            is_handshake_run(steps, before, message, Err(failure), after);
        assert(is_engine_run(steps, before.engine(), message));
    }
}

} // verus!
