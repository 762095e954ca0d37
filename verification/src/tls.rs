//! The TLS engine: what of `rustls` the connection calls, and what it relies
//! on of each call.
use crate::byte_order::be_u16;
use rustls::client::{ClientConfig, ClientConnectionData, UnbufferedClientConnection};
use rustls::pki_types::{IpAddr, Ipv4Addr, ServerName};
use rustls::unbuffered::{
    ConnectionState, EncodeError, EncodeTlsData, EncryptError, ReadTraffic, TransmitTlsData,
    UnbufferedStatus, WriteTraffic,
};
use std::sync::Arc;
use vstd::prelude::*;

verus! {

/// `rustls::ClientConfig`, carried through as it is.
#[verifier::external_type_specification]
#[verifier::external_body]
pub struct ExClientConfig(ClientConfig);

/// `rustls::client::UnbufferedClientConnection`, one end of a TLS session.
#[verifier::external_type_specification]
#[verifier::external_body]
pub struct ExUnbufferedClientConnection(UnbufferedClientConnection);

/// `rustls::client::ClientConnectionData`, the parameter of the states below.
#[verifier::external_type_specification]
#[verifier::external_body]
pub struct ExClientConnectionData(ClientConnectionData);

/// `rustls::Error`, never looked into.
#[verifier::external_type_specification]
#[verifier::external_body]
pub struct ExTlsError(rustls::Error);

/// `rustls::unbuffered::EncodeTlsData`, which holds a handshake record that
/// is to be sent.
#[verifier::external_type_specification]
#[verifier::external_body]
#[verifier::reject_recursive_types(Data)]
pub struct ExEncodeTlsData<'c, Data>(EncodeTlsData<'c, Data>);

/// `rustls::unbuffered::TransmitTlsData`, which waits to be told that the
/// encoded records have been sent.
#[verifier::external_type_specification]
#[verifier::external_body]
#[verifier::reject_recursive_types(Data)]
pub struct ExTransmitTlsData<'c, Data>(TransmitTlsData<'c, Data>);

/// `rustls::unbuffered::WriteTraffic`, which encrypts application data.
#[verifier::external_type_specification]
#[verifier::external_body]
#[verifier::reject_recursive_types(Data)]
pub struct ExWriteTraffic<'c, Data>(WriteTraffic<'c, Data>);

/// `rustls::unbuffered::ReadTraffic`, the queue of the application data that
/// has been decrypted.
#[verifier::external_type_specification]
#[verifier::external_body]
#[verifier::reject_recursive_types(Data)]
pub struct ExReadTraffic<'c, 'i, Data>(ReadTraffic<'c, 'i, Data>);

/// What a connection has to do next. `Other` stands for the states in which
/// there is nothing to do but to wait for the peer, or in which the session
/// has ended.
pub enum TlsState<'c, 'i> {
    ReadTraffic(ReadTraffic<'c, 'i, ClientConnectionData>),
    EncodeTlsData(EncodeTlsData<'c, ClientConnectionData>),
    TransmitTlsData(TransmitTlsData<'c, ClientConnectionData>),
    WriteTraffic(WriteTraffic<'c, ClientConnectionData>),
    Other,
}

/// How an attempt to encode a handshake record ended.
pub enum EncodeOutcome {
    /// This many bytes were written.
    Written(usize),
    /// The buffer has to hold this many bytes.
    InsufficientSize(usize),
    /// The record had been encoded before.
    AlreadyEncoded,
}

/// How an attempt to encrypt application data ended.
pub enum EncryptOutcome<'c> {
    /// This many bytes were written.
    Written(usize),
    /// The buffer has to hold this many bytes; the writer can be used again.
    InsufficientSize(usize, WriteTraffic<'c, ClientConnectionData>),
    /// The keys of the session are used up.
    Exhausted,
}

/// What one call of the engine gives.
pub enum TlsEvent<'c> {
    /// It reports an error.
    Failed,
    /// It has made a handshake record.
    Record(Seq<u8>),
    /// It wants the records to be sent, and to be told through this.
    Transmit(TransmitTlsData<'c, ClientConnectionData>),
    /// It is ready for application data, and gives what writes it.
    TrafficReady(WriteTraffic<'c, ClientConnectionData>),
    /// It has read application data records.
    Data(Seq<Seq<u8>>),
    /// None of these.
    Other,
}

/// One call of the engine: the connection before it, the bytes that it was
/// given, how many of them it lets go of, what it gives, what it has made of the
/// bytes, and the connection once that has been dealt with.
pub struct TlsStep<'c> {
    pub before: UnbufferedClientConnection,
    pub given: Seq<u8>,
    pub discard: nat,
    pub event: TlsEvent<'c>,
    pub left: Seq<u8>,
    pub after: UnbufferedClientConnection,
}

/// What one attempt to encrypt comes to.
pub enum EncryptEvent<'c> {
    /// The data is sent as these bytes.
    Written(Seq<u8>),
    /// This much space is needed; the writer to try again with.
    InsufficientSize(nat, WriteTraffic<'c, ClientConnectionData>),
    /// The keys of the session are used up.
    Exhausted,
}

/// One attempt to encrypt, with so much space for the result.
pub struct EncryptAttempt<'c> {
    pub writer: WriteTraffic<'c, ClientConnectionData>,
    pub data: Seq<u8>,
    pub space: nat,
    pub event: EncryptEvent<'c>,
}

/// The configuration that a connection was opened with.
pub uninterp spec fn connection_config(conn: UnbufferedClientConnection) -> Arc<ClientConfig>;

/// The address that a connection was opened for.
pub uninterp spec fn connection_address(conn: UnbufferedClientConnection) -> Seq<u8>;

/// How many bytes at the front of the next incoming buffer the connection
/// has already taken in as parts of an unfinished handshake message.
pub uninterp spec fn buffered_handshake_len(conn: UnbufferedClientConnection) -> nat;

/// The handshake record that an encoder holds, until it has been encoded.
pub uninterp spec fn pending_record(
    encoder: EncodeTlsData<'_, ClientConnectionData>,
) -> Option<Seq<u8>>;

/// The application data records that wait in the queue, the oldest first.
pub uninterp spec fn queued_records(
    traffic: ReadTraffic<'_, '_, ClientConnectionData>,
) -> Seq<Seq<u8>>;

/// Whether the engine has made this call. What it gives rests on the peer and on
/// random numbers, so one connection and one buffer may allow for several.
pub uninterp spec fn is_tls_step(step: TlsStep<'_>) -> bool;

/// Whether the engine has made this attempt.
pub uninterp spec fn is_encrypt_attempt(attempt: EncryptAttempt<'_>) -> bool;

/// Whether the attempt to open a connection came to this.
pub uninterp spec fn is_connection_attempt(
    config: Arc<ClientConfig>,
    server_address: Seq<u8>,
    result: Result<UnbufferedClientConnection, rustls::Error>,
) -> bool;

/// Whether the engine has been told that the records are on their way.
pub uninterp spec fn is_transmission_done(
    sent: TransmitTlsData<'_, ClientConnectionData>,
    done: (),
) -> bool;

/// The length of the record that bytes begin with: five bytes, of which the last
/// two are the length of what follows, and that.
pub open spec fn record_len(bytes: Seq<u8>) -> nat {
    (5 + be_u16(bytes.skip(3))) as nat
}

/// The length of the whole records that bytes begin with.
pub open spec fn whole_records_len(bytes: Seq<u8>) -> nat
    decreases bytes.len(),
{
    if bytes.len() >= 5 && bytes.len() >= record_len(bytes) {
        record_len(bytes) + whole_records_len(bytes.skip(record_len(bytes) as int))
    } else {
        0
    }
}

/// How far an engine that has taken in the first `taken` bytes can read on: to
/// the end of the whole records that follow them.
pub open spec fn read_limit(taken: nat, bytes: Seq<u8>) -> nat {
    taken + whole_records_len(bytes.skip(taken as int))
}

/// What a call of the engine has given.
pub open spec fn event_of<'c, 'i>(state: Result<TlsState<'c, 'i>, rustls::Error>) -> TlsEvent<'c> {
    match state {
        Err(_) => TlsEvent::Failed,
        Ok(TlsState::ReadTraffic(traffic)) => TlsEvent::Data(queued_records(traffic)),
        Ok(TlsState::EncodeTlsData(encoder)) => TlsEvent::Record(pending_record(encoder)->0),
        Ok(TlsState::TransmitTlsData(sent)) => TlsEvent::Transmit(sent),
        Ok(TlsState::WriteTraffic(traffic)) => TlsEvent::TrafficReady(traffic),
        Ok(TlsState::Other) => TlsEvent::Other,
    }
}

/// What an attempt to encrypt has come to, by what then stands in the buffer.
pub open spec fn encrypt_event_of<'c>(outcome: EncryptOutcome<'c>, outgoing: Seq<u8>) -> EncryptEvent<
    'c,
> {
    match outcome {
        EncryptOutcome::Written(size) => EncryptEvent::Written(outgoing.take(size as int)),
        EncryptOutcome::InsufficientSize(size, writer) => EncryptEvent::InsufficientSize(
            size as nat,
            writer,
        ),
        EncryptOutcome::Exhausted => EncryptEvent::Exhausted,
    }
}

/// `rustls::client::UnbufferedClientConnection::new`: a connection with the
/// given configuration and for the given address that has seen no bytes yet, or
/// the engine's refusal of the configuration. The attempt is named; what the
/// connection will say to its peer rests on random numbers and is left open.
#[verifier::external_body]
pub(crate) fn connect(config: &Arc<ClientConfig>, server_address: [u8; 4]) -> (conn: Result<
    UnbufferedClientConnection,
    rustls::Error,
>)
    ensures
        is_connection_attempt(*config, server_address@, conn),
        conn matches Ok(conn) ==> {
            &&& connection_config(conn) == *config
            &&& connection_address(conn) == server_address@
            &&& buffered_handshake_len(conn) == 0
        },
{
    let server_name = ServerName::IpAddress(IpAddr::V4(Ipv4Addr::from(server_address)));
    UnbufferedClientConnection::new(config.clone(), server_name)
}

/// `process_tls_records` of `rustls::unbuffered::UnbufferedConnectionCommon`:
/// takes in the bytes that have come, and gives the number of bytes to
/// discard from their front together with what is to be done next. The buffer
/// has to start with the bytes that the connection has taken in already, since
/// the engine skips over them and panics where the buffer is shorter. It is
/// used as working space and keeps its length.
///
/// The call is named, with all that goes into it and comes out of it; which
/// state comes is left open, since it rests on the peer and on random numbers.
/// The connection stays the one that was opened. What it has taken in afterwards
/// lies in the part that is not discarded. It reads on from what it had taken in,
/// one whole record after the other, and leaves the headers that it has not read
/// yet as they are; as many bytes as it reads, it takes in or lets go of. So what
/// it lets go of, what it has taken in and the whole records that follow reach no
/// further than before. An encoder comes with a record, and a queue of
/// application data with at least one; none of them is empty.
#[verifier::external_body]
pub(crate) fn process_tls_records<'c, 'i>(
    conn: &'c mut UnbufferedClientConnection,
    incoming: &'i mut [u8],
) -> (status: (usize, Result<TlsState<'c, 'i>, rustls::Error>))
    requires
        buffered_handshake_len(*old(conn)) <= old(incoming)@.len(),
    ensures
        status.0 <= old(incoming)@.len(),
        final(incoming)@.len() == old(incoming)@.len(),
        connection_config(*final(conn)) == connection_config(*old(conn)),
        connection_address(*final(conn)) == connection_address(*old(conn)),
        buffered_handshake_len(*final(conn)) <= old(incoming)@.len() - status.0,
        status.0 + read_limit(
            buffered_handshake_len(*final(conn)),
            final(incoming)@.skip(status.0 as int),
        ) <= read_limit(buffered_handshake_len(*old(conn)), old(incoming)@),
        is_tls_step(
            (TlsStep {
                before: *old(conn),
                given: old(incoming)@,
                discard: status.0 as nat,
                event: event_of(status.1),
                left: final(incoming)@,
                after: *final(conn),
            }),
        ),
        status.1 matches Ok(TlsState::EncodeTlsData(encoder)) ==> {
            &&& pending_record(encoder) is Some
            &&& 0 < pending_record(encoder)->0.len()
        },
        status.1 matches Ok(TlsState::ReadTraffic(traffic)) ==> {
            &&& queued_records(traffic).len() > 0
            &&& forall|i: int|
                0 <= i < queued_records(traffic).len() ==> (#[trigger] queued_records(
                    traffic,
                )[i]).len() > 0
        },
{
    let UnbufferedStatus { discard, state, .. } = conn.process_tls_records(incoming);
    let state = state.map(
        |state|
            match state {
                ConnectionState::ReadTraffic(traffic) => TlsState::ReadTraffic(traffic),
                ConnectionState::EncodeTlsData(encoder) => TlsState::EncodeTlsData(encoder),
                ConnectionState::TransmitTlsData(sent) => TlsState::TransmitTlsData(sent),
                ConnectionState::WriteTraffic(traffic) => TlsState::WriteTraffic(traffic),
                _ => TlsState::Other,
            },
    );
    (discard, state)
}

/// `rustls::unbuffered::EncodeTlsData::encode`: writes the record to the
/// front of the buffer and is then done with it; a buffer that is too short is
/// left alone, and its needed size named.
#[verifier::external_body]
pub(crate) fn encode_record(
    encoder: &mut EncodeTlsData<'_, ClientConnectionData>,
    outgoing: &mut [u8],
) -> (outcome: EncodeOutcome)
    ensures
        match pending_record(*old(encoder)) {
            None => {
                &&& outcome is AlreadyEncoded
                &&& pending_record(*final(encoder)) is None
                &&& final(outgoing)@ == old(outgoing)@
            },
            Some(record) => if record.len() > old(outgoing)@.len() {
                &&& outcome matches EncodeOutcome::InsufficientSize(size)
                &&& size == record.len()
                &&& pending_record(*final(encoder)) == Some(record)
                &&& final(outgoing)@ == old(outgoing)@
            } else {
                &&& outcome matches EncodeOutcome::Written(size)
                &&& size == record.len()
                &&& pending_record(*final(encoder)) is None
                &&& final(outgoing)@ == record + old(outgoing)@.skip(record.len() as int)
            },
        },
{
    match encoder.encode(outgoing) {
        Ok(written) => EncodeOutcome::Written(written),
        Err(EncodeError::InsufficientSize(err)) => EncodeOutcome::InsufficientSize(
            err.required_size,
        ),
        Err(EncodeError::AlreadyEncoded) => EncodeOutcome::AlreadyEncoded,
    }
}

/// `rustls::unbuffered::TransmitTlsData::done`: tells the engine that the
/// encoded records are on their way. The call is named; what it changes is part
/// of the connection after the step.
#[verifier::external_body]
pub(crate) fn transmission_done(sent: TransmitTlsData<'_, ClientConnectionData>) -> (done: ())
    ensures
        is_transmission_done(sent, done),
{
    sent.done()
}

/// `rustls::unbuffered::ReadTraffic::next_record`: takes the oldest record
/// off the queue. It asks for no bytes to be discarded and reports no error.
#[verifier::external_body]
pub(crate) fn next_record(
    traffic: &mut ReadTraffic<'_, '_, ClientConnectionData>,
) -> (record: Option<Result<(usize, Vec<u8>), rustls::Error>>)
    ensures
        queued_records(*old(traffic)).len() == 0 <==> record is None,
        record is None ==> queued_records(*final(traffic)) == queued_records(*old(traffic)),
        record matches Some(result) ==> {
            &&& result matches Ok((discard, payload))
            &&& discard == 0
            &&& payload@ == queued_records(*old(traffic))[0]
            &&& queued_records(*final(traffic)) == queued_records(*old(traffic)).drop_first()
        },
{
    match traffic.next_record() {
        Some(Ok(record)) => Some(Ok((record.discard, record.payload.to_vec()))),
        Some(Err(err)) => Some(Err(err)),
        None => None,
    }
}

/// `rustls::unbuffered::WriteTraffic::encrypt`: encrypts the data into the
/// buffer and gives the number of bytes that it took, which is none where
/// there is no data. On an error the buffer is left alone; where it was too
/// short, its needed size is named, and the writer is handed back. The attempt
/// is named, with all that goes into it and comes out of it.
#[verifier::external_body]
pub(crate) fn encrypt_record<'c>(
    traffic: WriteTraffic<'c, ClientConnectionData>,
    data: &[u8],
    outgoing: &mut [u8],
) -> (outcome: EncryptOutcome<'c>)
    ensures
        final(outgoing)@.len() == old(outgoing)@.len(),
        is_encrypt_attempt(
            (EncryptAttempt {
                writer: traffic,
                data: data@,
                space: old(outgoing)@.len(),
                event: encrypt_event_of(outcome, final(outgoing)@),
            }),
        ),
        outcome matches EncryptOutcome::Written(size) ==> size <= old(outgoing)@.len(),
        outcome matches EncryptOutcome::InsufficientSize(size, _) ==> size > old(outgoing)@.len(),
        !(outcome is Written) ==> final(outgoing)@ == old(outgoing)@,
        data@.len() == 0 ==> outcome == EncryptOutcome::Written(0),
{
    let mut traffic = traffic;
    match traffic.encrypt(data, outgoing) {
        Ok(written) => EncryptOutcome::Written(written),
        Err(EncryptError::InsufficientSize(err)) => EncryptOutcome::InsufficientSize(
            err.required_size,
            traffic,
        ),
        Err(EncryptError::EncryptExhausted) => EncryptOutcome::Exhausted,
    }
}

} // verus!
