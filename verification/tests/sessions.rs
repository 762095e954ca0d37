use aa_player::control_channel_packets::build_version_request_packet;
use aa_player::encryption::{
    finish_decryption, EncryptedConnectionManager, EncryptionManager, HandshakeEvent,
    HandshakeProgress, HandshakeStep, TlsFailure,
};
use aa_player::frame::{AAPFrame, AAPFrameFragmmentation, AAPFrameType};
use aa_player::packet::{Packet, PacketFramer};
use aa_player::packet_router::{
    begin_handshake, ChannelPacketSender, ConnectionEvent, ConnectionStep, PacketRouter, PacketRouterResult,
    RouterAction, RouterFailure,
};
use aa_player::protos::{
    AuthResponse, ChannelOpenResponse, MessageStatus, PingRequest, ProtoMessage, Service,
};
use aa_player::usb::IncomingEvent;
use rustls::client::danger::{HandshakeSignatureValid, ServerCertVerified, ServerCertVerifier};
use rustls::crypto::CryptoProvider;
use rustls::pki_types::{CertificateDer, PrivateKeyDer, PrivatePkcs8KeyDer, ServerName, UnixTime};
use rustls::{ClientConfig, DigitallySignedStruct, ServerConfig, ServerConnection, SignatureScheme};
use std::io::{Read, Write};
use std::sync::Arc;

// A certificate and its key, made for these tests alone.
const CERTIFICATE: [u8; 398] = [
    0x30, 0x82, 0x01, 0x8a, 0x30, 0x82, 0x01, 0x2f, 0xa0, 0x03, 0x02, 0x01,
    0x02, 0x02, 0x14, 0x0d, 0x44, 0xd5, 0xee, 0x25, 0xde, 0x26, 0xf0, 0xad,
    0x03, 0xdc, 0xab, 0x43, 0x09, 0xbc, 0xba, 0xd0, 0x93, 0x4a, 0x9a, 0x30,
    0x0a, 0x06, 0x08, 0x2a, 0x86, 0x48, 0xce, 0x3d, 0x04, 0x03, 0x02, 0x30,
    0x10, 0x31, 0x0e, 0x30, 0x0c, 0x06, 0x03, 0x55, 0x04, 0x03, 0x0c, 0x05,
    0x70, 0x68, 0x6f, 0x6e, 0x65, 0x30, 0x20, 0x17, 0x0d, 0x32, 0x36, 0x31,
    0x31, 0x31, 0x36, 0x31, 0x35, 0x31, 0x39, 0x30, 0x34, 0x5a, 0x18, 0x0f,
    0x32, 0x31, 0x32, 0x36, 0x31, 0x30, 0x32, 0x33, 0x31, 0x35, 0x31, 0x39,
    0x30, 0x34, 0x5a, 0x30, 0x10, 0x31, 0x0e, 0x30, 0x0c, 0x06, 0x03, 0x55,
    0x04, 0x03, 0x0c, 0x05, 0x70, 0x68, 0x6f, 0x6e, 0x65, 0x30, 0x59, 0x30,
    0x13, 0x06, 0x07, 0x2a, 0x86, 0x48, 0xce, 0x3d, 0x02, 0x01, 0x06, 0x08,
    0x2a, 0x86, 0x48, 0xce, 0x3d, 0x03, 0x01, 0x07, 0x03, 0x42, 0x00, 0x04,
    0x21, 0x94, 0x57, 0xf9, 0xb6, 0xcc, 0x33, 0x9f, 0x5b, 0xde, 0xb6, 0x09,
    0x22, 0x27, 0xa9, 0x95, 0xb0, 0x63, 0x2d, 0xd7, 0x51, 0x08, 0x5e, 0x37,
    0x03, 0x5c, 0x42, 0xcc, 0xfa, 0xa8, 0xa9, 0x52, 0xff, 0xca, 0xe0, 0xb1,
    0xd5, 0xaa, 0x58, 0xa2, 0x66, 0x07, 0xa9, 0xa9, 0x5f, 0xf2, 0x34, 0x0a,
    0x98, 0xd1, 0x81, 0x6a, 0x8c, 0x61, 0x16, 0xf0, 0xf6, 0x1e, 0xc3, 0xdb,
    0xa4, 0x07, 0x08, 0x4e, 0xa3, 0x65, 0x30, 0x63, 0x30, 0x1d, 0x06, 0x03,
    0x55, 0x1d, 0x0e, 0x04, 0x16, 0x04, 0x14, 0xe1, 0x48, 0xf6, 0xe2, 0xb3,
    0xe9, 0x18, 0x07, 0xa0, 0x78, 0x57, 0x87, 0x07, 0x80, 0xe8, 0xaf, 0x2a,
    0x1d, 0x43, 0xab, 0x30, 0x1f, 0x06, 0x03, 0x55, 0x1d, 0x23, 0x04, 0x18,
    0x30, 0x16, 0x80, 0x14, 0xe1, 0x48, 0xf6, 0xe2, 0xb3, 0xe9, 0x18, 0x07,
    0xa0, 0x78, 0x57, 0x87, 0x07, 0x80, 0xe8, 0xaf, 0x2a, 0x1d, 0x43, 0xab,
    0x30, 0x0f, 0x06, 0x03, 0x55, 0x1d, 0x13, 0x01, 0x01, 0xff, 0x04, 0x05,
    0x30, 0x03, 0x01, 0x01, 0xff, 0x30, 0x10, 0x06, 0x03, 0x55, 0x1d, 0x11,
    0x04, 0x09, 0x30, 0x07, 0x82, 0x05, 0x70, 0x68, 0x6f, 0x6e, 0x65, 0x30,
    0x0a, 0x06, 0x08, 0x2a, 0x86, 0x48, 0xce, 0x3d, 0x04, 0x03, 0x02, 0x03,
    0x49, 0x00, 0x30, 0x46, 0x02, 0x21, 0x00, 0xd3, 0x89, 0xb8, 0x56, 0xf7,
    0x75, 0xe5, 0x59, 0x6b, 0xfa, 0x5d, 0xe7, 0x29, 0xcc, 0x5d, 0x2a, 0x08,
    0xb9, 0xe7, 0x6f, 0x7a, 0x38, 0x8f, 0xd7, 0x8e, 0x21, 0x20, 0xf5, 0xe5,
    0xda, 0xbc, 0x53, 0x02, 0x21, 0x00, 0xee, 0xce, 0x8b, 0x9b, 0x30, 0x80,
    0x86, 0x93, 0xea, 0x00, 0x19, 0x89, 0xcb, 0xe3, 0xfb, 0x0c, 0x18, 0x45,
    0x2c, 0x96, 0x69, 0xc9, 0x68, 0xbb, 0x8f, 0x92, 0xe2, 0x62, 0x7f, 0x21,
    0xf5, 0x58,
];

const KEY: [u8; 138] = [
    0x30, 0x81, 0x87, 0x02, 0x01, 0x00, 0x30, 0x13, 0x06, 0x07, 0x2a, 0x86,
    0x48, 0xce, 0x3d, 0x02, 0x01, 0x06, 0x08, 0x2a, 0x86, 0x48, 0xce, 0x3d,
    0x03, 0x01, 0x07, 0x04, 0x6d, 0x30, 0x6b, 0x02, 0x01, 0x01, 0x04, 0x20,
    0xc6, 0x77, 0x4f, 0x06, 0x53, 0x27, 0x74, 0x52, 0xf2, 0x6a, 0xac, 0x4f,
    0x24, 0x0d, 0x59, 0xa9, 0x9e, 0xec, 0x3c, 0xbb, 0xb6, 0x1a, 0xa2, 0xb1,
    0x0d, 0x23, 0xd2, 0xd9, 0x52, 0x99, 0xd4, 0x88, 0xa1, 0x44, 0x03, 0x42,
    0x00, 0x04, 0x21, 0x94, 0x57, 0xf9, 0xb6, 0xcc, 0x33, 0x9f, 0x5b, 0xde,
    0xb6, 0x09, 0x22, 0x27, 0xa9, 0x95, 0xb0, 0x63, 0x2d, 0xd7, 0x51, 0x08,
    0x5e, 0x37, 0x03, 0x5c, 0x42, 0xcc, 0xfa, 0xa8, 0xa9, 0x52, 0xff, 0xca,
    0xe0, 0xb1, 0xd5, 0xaa, 0x58, 0xa2, 0x66, 0x07, 0xa9, 0xa9, 0x5f, 0xf2,
    0x34, 0x0a, 0x98, 0xd1, 0x81, 0x6a, 0x8c, 0x61, 0x16, 0xf0, 0xf6, 0x1e,
    0xc3, 0xdb, 0xa4, 0x07, 0x08, 0x4e,
];

#[derive(Debug)]
struct AcceptAnyone(Arc<CryptoProvider>);

impl ServerCertVerifier for AcceptAnyone {
    fn verify_server_cert(
        &self,
        _end_entity: &CertificateDer<'_>,
        _intermediates: &[CertificateDer<'_>],
        server_name: &ServerName<'_>,
        _ocsp_response: &[u8],
        _now: UnixTime,
    ) -> Result<ServerCertVerified, rustls::Error> {
        assert_eq!(server_name.to_str(), "0.0.0.0");
        Ok(ServerCertVerified::assertion())
    }

    fn verify_tls12_signature(
        &self,
        message: &[u8],
        cert: &CertificateDer<'_>,
        dss: &DigitallySignedStruct,
    ) -> Result<HandshakeSignatureValid, rustls::Error> {
        rustls::crypto::verify_tls12_signature(
            message,
            cert,
            dss,
            &self.0.signature_verification_algorithms,
        )
    }

    fn verify_tls13_signature(
        &self,
        message: &[u8],
        cert: &CertificateDer<'_>,
        dss: &DigitallySignedStruct,
    ) -> Result<HandshakeSignatureValid, rustls::Error> {
        rustls::crypto::verify_tls13_signature(
            message,
            cert,
            dss,
            &self.0.signature_verification_algorithms,
        )
    }

    fn supported_verify_schemes(&self) -> Vec<SignatureScheme> {
        self.0.signature_verification_algorithms.supported_schemes()
    }
}

fn head_unit() -> EncryptionManager {
    let provider = Arc::new(rustls::crypto::ring::default_provider());
    let config = ClientConfig::builder_with_provider(provider.clone())
        .with_protocol_versions(&[&rustls::version::TLS12])
        .unwrap()
        .dangerous()
        .with_custom_certificate_verifier(Arc::new(AcceptAnyone(provider)))
        .with_no_client_auth();
    EncryptionManager::new(Arc::new(config))
}

fn phone() -> ServerConnection {
    let provider = Arc::new(rustls::crypto::ring::default_provider());
    let config = ServerConfig::builder_with_provider(provider)
        .with_protocol_versions(&[&rustls::version::TLS12])
        .unwrap()
        .with_no_client_auth()
        .with_single_cert(
            vec![CertificateDer::from(CERTIFICATE.to_vec())],
            PrivateKeyDer::Pkcs8(PrivatePkcs8KeyDer::from(KEY.to_vec())),
        )
        .unwrap();
    ServerConnection::new(Arc::new(config)).unwrap()
}

fn phone_reads(phone: &mut ServerConnection, mut bytes: &[u8]) {
    while !bytes.is_empty() {
        phone.read_tls(&mut bytes).unwrap();
        phone.process_new_packets().unwrap();
    }
}

fn phone_writes(phone: &mut ServerConnection) -> Vec<u8> {
    let mut bytes = Vec::new();
    while phone.wants_write() {
        phone.write_tls(&mut bytes).unwrap();
    }
    bytes
}

fn phone_hears(phone: &mut ServerConnection, len: usize) -> Vec<u8> {
    let mut message = vec![0; len];
    phone.reader().read_exact(&mut message).unwrap();
    message
}

fn phone_says(phone: &mut ServerConnection, message: &[u8]) -> Vec<u8> {
    phone.writer().write_all(message).unwrap();
    phone_writes(phone)
}

fn connected() -> (EncryptedConnectionManager, ServerConnection) {
    let mut session = head_unit().new_connection().unwrap();
    let mut phone = phone();
    let mut message = session.process_handshake_message(&mut []).unwrap();
    while session.is_handshaking() {
        if let Some(bytes) = message {
            phone_reads(&mut phone, &bytes);
        }
        let mut answer = phone_writes(&mut phone);
        message = session.process_handshake_message(&mut answer).unwrap();
    }
    assert!(message.is_none());
    (session, phone)
}

#[test]
fn handshake_begins_with_a_client_hello() {
    let mut session = head_unit().new_connection().unwrap();
    assert!(session.is_handshaking());
    let hello = session.process_handshake_message(&mut []).unwrap().unwrap();
    // a handshake record that holds a client hello
    assert_eq!(hello[0], 0x16);
    assert_eq!(hello[5], 0x01);
    assert!(session.is_handshaking());
}

#[test]
fn handshake_ends_without_an_answer() {
    let (session, phone) = connected();
    assert!(!session.is_handshaking());
    assert!(!phone.is_handshaking());
}

#[test]
fn encrypted_messages_reach_the_phone() {
    let (mut session, mut phone) = connected();
    let records = session.encrypt_message(b"hello phone").unwrap();
    assert_eq!(records[0], 0x17);
    assert_ne!(&records[..11], b"hello phone");
    phone_reads(&mut phone, &records);
    assert_eq!(phone_hears(&mut phone, 11), b"hello phone");
}

#[test]
fn long_messages_take_several_records() {
    let (mut session, mut phone) = connected();
    let message: Vec<u8> = (0..40_000u32).map(|i| i as u8).collect();
    let records = session.encrypt_message(&message).unwrap();
    assert!(records.len() > message.len() + 2 * 5);
    let mut heard = Vec::new();
    let mut rest: &[u8] = &records;
    while !rest.is_empty() {
        phone.read_tls(&mut rest).unwrap();
        let state = phone.process_new_packets().unwrap();
        heard.extend(phone_hears(&mut phone, state.plaintext_bytes_to_read()));
    }
    assert_eq!(heard, message);
}

#[test]
fn an_empty_message_takes_no_record() {
    let (mut session, _phone) = connected();
    assert_eq!(session.encrypt_message(&[]), Ok(Vec::new()));
}

#[test]
fn messages_of_the_phone_are_decrypted() {
    let (mut session, mut phone) = connected();
    let mut records = phone_says(&mut phone, b"hello head unit");
    assert_eq!(
        session.decrypt_message(&mut records),
        Ok(b"hello head unit".to_vec())
    );
    // several records in one message are joined
    let mut records = phone_says(&mut phone, b"one ");
    records.extend(phone_says(&mut phone, b"two"));
    assert_eq!(session.decrypt_message(&mut records), Ok(b"one two".to_vec()));
}

#[test]
fn decryption_waits_for_the_handshake() {
    let mut session = head_unit().new_connection().unwrap();
    assert_eq!(
        session.decrypt_message(&mut [1, 2, 3]),
        Err(TlsFailure::Handshaking)
    );
}

#[test]
fn nonsense_is_an_engine_error() {
    let mut session = head_unit().new_connection().unwrap();
    session.process_handshake_message(&mut []).unwrap();
    assert_eq!(
        session.process_handshake_message(&mut [0xff; 40]),
        Err(TlsFailure::Engine)
    );
    assert!(session.is_handshaking());
    let (mut session, _phone) = connected();
    assert_eq!(
        session.decrypt_message(&mut [0xff; 40]),
        Err(TlsFailure::Engine)
    );
}

#[test]
fn a_message_without_data_is_an_error() {
    let (mut session, _phone) = connected();
    assert_eq!(session.decrypt_message(&mut []), Err(TlsFailure::NoData));
}

#[test]
fn a_message_has_to_end_with_its_last_record() {
    let (mut session, mut phone) = connected();
    let mut records = phone_says(&mut phone, b"whole");
    records.extend([0x17, 0x03, 0x03, 0x00, 0x20]);
    assert_eq!(
        session.decrypt_message(&mut records),
        Err(TlsFailure::TrailingBytes)
    );
    // a part of a record is no burden on what follows
    assert_eq!(
        session.decrypt_message(&mut [0x17, 0x03]),
        Err(TlsFailure::TrailingBytes)
    );
    let records = session.encrypt_message(b"late").unwrap();
    phone_reads(&mut phone, &records);
    assert_eq!(phone_hears(&mut phone, 4), b"late");
    let mut records = phone_says(&mut phone, b"again");
    assert_eq!(session.decrypt_message(&mut records), Ok(b"again".to_vec()));
}

#[test]
fn a_handshake_has_to_end_with_its_last_record() {
    let mut session = head_unit().new_connection().unwrap();
    let mut phone = phone();
    let hello = session.process_handshake_message(&mut []).unwrap().unwrap();
    phone_reads(&mut phone, &hello);
    let mut answer = phone_writes(&mut phone);
    let message = session.process_handshake_message(&mut answer).unwrap().unwrap();
    phone_reads(&mut phone, &message);
    let mut answer = phone_writes(&mut phone);
    answer.extend([0x17, 0x03, 0x03, 0x00, 0x20]);
    assert_eq!(
        session.process_handshake_message(&mut answer),
        Err(TlsFailure::TrailingBytes)
    );
    assert!(!session.is_handshaking());
}

#[test]
fn a_part_of_a_record_is_not_remembered() {
    let mut session = head_unit().new_connection().unwrap();
    session.process_handshake_message(&mut []).unwrap().unwrap();
    let mut part = [0x16, 0x03, 0x03, 0x00, 0x20, 1, 2, 3];
    assert_eq!(session.process_handshake_message(&mut part), Ok(None));
    assert_eq!(session.process_handshake_message(&mut part[..3]), Ok(None));
    assert!(session.is_handshaking());
}

#[test]
fn a_part_of_a_handshake_message_is_remembered() {
    let mut session = head_unit().new_connection().unwrap();
    session.process_handshake_message(&mut []).unwrap().unwrap();
    // a whole record with the first bytes of a longer server hello
    let part = [0x16, 0x03, 0x03, 0x00, 0x06, 0x02, 0x00, 0x00, 0x50, 0x03, 0x03];
    assert_eq!(session.process_handshake_message(&mut part.clone()), Ok(None));
    assert_eq!(
        session.process_handshake_message(&mut part[..10].to_vec()),
        Err(TlsFailure::UnreadBytes)
    );
    assert_eq!(session.process_handshake_message(&mut part.clone()), Ok(None));
    assert!(session.is_handshaking());
}

#[test]
fn only_whole_records_are_remembered() {
    let mut session = head_unit().new_connection().unwrap();
    session.process_handshake_message(&mut []).unwrap().unwrap();
    let mut message = vec![0x16, 0x03, 0x03, 0x00, 0x06, 0x02, 0x00, 0x00, 0x50, 0x03, 0x03];
    message.extend([0x16, 0x03, 0x03]);
    assert_eq!(session.process_handshake_message(&mut message), Ok(None));
    assert_eq!(
        session.process_handshake_message(&mut message[..10].to_vec()),
        Err(TlsFailure::UnreadBytes)
    );
    assert_eq!(
        session.process_handshake_message(&mut message[..11].to_vec()),
        Ok(None)
    );
}

#[test]
fn an_answer_is_sent_once() {
    let mut session = head_unit().new_connection().unwrap();
    assert!(session.process_handshake_message(&mut []).unwrap().is_some());
    // the engine knows that the client hello is on its way, and waits
    assert_eq!(session.process_handshake_message(&mut []), Ok(None));
    assert!(session.is_handshaking());
}

#[test]
fn a_broken_session_is_not_ready_for_data() {
    let (mut session, _phone) = connected();
    assert_eq!(
        session.decrypt_message(&mut [0xff; 40]),
        Err(TlsFailure::Engine)
    );
    assert_eq!(session.encrypt_message(b"word"), Err(TlsFailure::NotReady));
}

#[test]
fn a_closed_session_still_takes_data() {
    let (mut session, mut phone) = connected();
    phone.send_close_notify();
    let mut records = phone_writes(&mut phone);
    assert_eq!(session.decrypt_message(&mut records), Err(TlsFailure::NoData));
    assert!(session.encrypt_message(b"last words").is_ok());
}

#[test]
fn a_forged_record_is_an_engine_error() {
    let (mut session, mut phone) = connected();
    let mut records = phone_says(&mut phone, b"word");
    let last = records.len() - 1;
    records[last] ^= 1;
    assert_eq!(session.decrypt_message(&mut records), Err(TlsFailure::Engine));
    assert_eq!(session.encrypt_message(b"word"), Err(TlsFailure::UnreadBytes));
}

#[test]
fn an_encrypted_packet_is_cut_before_it_is_encrypted() {
    let (session, mut phone) = connected();
    let mut framer = PacketFramer::new(session);
    let payload: Vec<u8> = (0..20_000u32).map(|i| (i / 7) as u8).collect();
    let packet = Packet::new_from_parts(5, AAPFrameType::ChannelSpecific, true, 0x8001, &payload);
    let frames = framer.process_outgoing_packet(packet).unwrap();
    assert_eq!(frames.len(), 2);
    assert_eq!(frames[0].frag_info, AAPFrameFragmmentation::First);
    assert_eq!(frames[1].frag_info, AAPFrameFragmmentation::Last);
    assert_eq!(frames[0].total_payload_length, 20_002);
    let mut heard = Vec::new();
    for (frame, len) in frames.iter().zip([0x4000, 20_002 - 0x4000]) {
        assert_eq!(frame.channel_id, 5);
        assert!(frame.encrypted);
        phone_reads(&mut phone, &frame.payload);
        heard.extend(phone_hears(&mut phone, len));
    }
    assert_eq!(heard[..2], [0x80, 0x01]);
    assert_eq!(heard[2..], payload);
}

#[test]
fn an_encrypted_frame_is_decrypted_before_it_is_joined() {
    let (session, mut phone) = connected();
    let mut framer = PacketFramer::new(session);
    let first = AAPFrame {
        channel_id: 2,
        frag_info: AAPFrameFragmmentation::First,
        frame_type: AAPFrameType::ChannelSpecific,
        encrypted: true,
        total_payload_length: 6,
        payload: phone_says(&mut phone, &[0x80, 0x00, 1]),
    };
    let last = AAPFrame {
        channel_id: 2,
        frag_info: AAPFrameFragmmentation::Last,
        frame_type: AAPFrameType::ChannelSpecific,
        encrypted: true,
        total_payload_length: 3,
        payload: phone_says(&mut phone, &[2, 3, 4]),
    };
    assert!(framer.process_incoming_frame(first).unwrap().is_none());
    assert!(framer.accepts(&last));
    let packet = framer.process_incoming_frame(last).unwrap().unwrap();
    assert_eq!(packet.channel_id, 2);
    assert_eq!(packet.message_id(), 0x8000);
    assert_eq!(packet.payload(), &[1, 2, 3, 4]);
}

fn clear_frame(channel_id: u8, message_id: u16, payload: &[u8]) -> AAPFrame {
    let mut bytes = message_id.to_be_bytes().to_vec();
    bytes.extend_from_slice(payload);
    AAPFrame {
        channel_id,
        frag_info: AAPFrameFragmmentation::Unfragmented,
        frame_type: AAPFrameType::ChannelSpecific,
        encrypted: false,
        total_payload_length: bytes.len(),
        payload: bytes,
    }
}

fn services() -> Vec<Service> {
    vec![Service::bare(1), Service::bare(7)]
}

fn established() -> (PacketRouter, ServerConnection) {
    let mut router = PacketRouter::new(services(), head_unit().new_connection().unwrap());
    let mut phone = phone();
    let mut action = router
        .process_incoming_frame(clear_frame(0, 2, &[0, 1, 0, 6, 0, 0]), 1)
        .unwrap();
    for _ in 0..4 {
        match action {
            RouterAction::SendPacket(packet) => {
                assert_eq!(packet.channel_id, 0);
                assert_eq!(packet.message_id(), 3);
                assert!(!packet.encrypted);
                phone_reads(&mut phone, packet.payload());
                let answer = phone_writes(&mut phone);
                action = router
                    .process_incoming_frame(clear_frame(0, 3, &answer), 1_000)
                    .unwrap();
            }
            RouterAction::SendMessage(message) => {
                assert_eq!(message.message_id, 4);
                assert_eq!(
                    message.message,
                    ProtoMessage::AuthResponse(AuthResponse {
                        status: MessageStatus::StatusSuccess
                    })
                );
                assert!(router.is_established());
                return (router, phone);
            }
            _ => panic!("the handshake got stuck"),
        }
    }
    panic!("the handshake did not end");
}

#[test]
fn a_router_asks_for_the_version_first() {
    let mut router = PacketRouter::new(services(), head_unit().new_connection().unwrap());
    let packet = router.first_packet();
    assert_eq!(packet.message_id_and_payload, vec![0, 1, 0, 1, 0, 1]);
    let frames = router.send_packet(packet).unwrap();
    assert_eq!(frames.len(), 1);
    assert_eq!(frames[0].payload, build_version_request_packet().message_id_and_payload);
    assert!(!router.is_established());
    assert!(router.heartbeat().is_none());
}

#[test]
fn a_router_shakes_hands_and_starts_its_heart() {
    let (router, _phone) = established();
    let heartbeat = router.heartbeat().unwrap();
    assert_eq!(heartbeat.counter, 0);
    assert_eq!(heartbeat.next_timeout, 4_000_001_000);
}

#[test]
fn packets_out_of_place_are_refused() {
    let mut router = PacketRouter::new(services(), head_unit().new_connection().unwrap());
    for frame in [
        clear_frame(0, 3, &[]),
        clear_frame(1, 2, &[]),
        AAPFrame {
            payload: vec![0],
            ..clear_frame(0, 0, &[])
        },
    ] {
        assert!(matches!(
            router.process_incoming_frame(frame, 1),
            Err(RouterFailure::UnexpectedPacket)
        ));
    }
    assert!(!router.is_established());
}

#[test]
fn encrypted_frames_before_the_handshake_are_a_failure() {
    let mut router = PacketRouter::new(services(), head_unit().new_connection().unwrap());
    let frame = AAPFrame {
        encrypted: true,
        ..clear_frame(0, 2, &[])
    };
    assert!(matches!(
        router.process_incoming_frame(frame, 1),
        Err(RouterFailure::Tls(TlsFailure::Handshaking))
    ));
}

#[test]
fn service_discovery_is_answered_under_encryption() {
    let (mut router, mut phone) = established();
    let frame = AAPFrame {
        encrypted: true,
        payload: phone_says(&mut phone, &[0, 5]),
        ..clear_frame(0, 5, &[])
    };
    let action = router.process_incoming_frame(frame, 2_000).unwrap();
    match action {
        RouterAction::SendMessage(message) => {
            assert_eq!(message.channel_id, 0);
            assert_eq!(message.message_id, 6);
            assert!(message.encrypted);
            match &message.message {
                ProtoMessage::ServiceDiscoveryResponse(response) => {
                    assert_eq!(response.services, services());
                    assert_eq!(response.display_name.as_deref(), Some("aa_player"));
                    let ping = response
                        .connection_configuration
                        .unwrap()
                        .ping_configuration
                        .unwrap();
                    assert_eq!(ping.interval_ms, Some(4000));
                    assert_eq!(ping.timeout_ms, Some(1800));
                    assert_eq!(ping.high_latency_threshold_ms, Some(100000));
                    let info = response.headunit_info.as_ref().unwrap();
                    assert_eq!(info.make.as_deref(), Some("wiomoc"));
                    assert_eq!(info.model.as_deref(), Some("aa_player"));
                    assert_eq!(info.year.as_deref(), Some("2025"));
                    assert_eq!(info.vehicle_id.as_deref(), Some("12345"));
                    assert_eq!(info.head_unit_make.as_deref(), Some("wiomoc"));
                    assert_eq!(info.head_unit_model.as_deref(), Some("aa_player"));
                    assert_eq!(info.head_unit_software_build.as_deref(), Some("42"));
                    assert_eq!(info.head_unit_software_version.as_deref(), Some("1.0"));
                }
                _ => panic!("not a service discovery response"),
            }
            let packet = message.into_packet(&[8, 9]);
            let frames = router.send_packet(packet).unwrap();
            phone_reads(&mut phone, &frames[0].payload);
            assert_eq!(phone_hears(&mut phone, 4), vec![0, 6, 8, 9]);
        }
        _ => panic!("no answer"),
    }
    // the packet has put off the next ping
    assert_eq!(router.heartbeat().unwrap().next_timeout, 4_000_002_000);
}

#[test]
fn a_channel_is_opened_once_for_a_service() {
    let (mut router, _phone) = established();
    let request = AAPFrame {
        frame_type: AAPFrameType::Control,
        ..clear_frame(3, 7, &[1, 2])
    };
    match router.process_incoming_frame(request, 2_000).unwrap() {
        RouterAction::OpenChannel(packet) => {
            assert_eq!(packet.channel_id, 3);
            assert_eq!(packet.payload(), &[1, 2]);
        }
        _ => panic!("not taken for a request to open a channel"),
    }

    let refused = router.handle_open_channel_request(3, 5);
    assert_eq!(refused.service_index, None);
    assert_eq!(refused.response.channel_id, 3);
    assert_eq!(refused.response.message_id, 8);
    assert_eq!(refused.response.frame_type, AAPFrameType::Control);
    assert_eq!(
        refused.response.message,
        ProtoMessage::ChannelOpenResponse(ChannelOpenResponse {
            status: MessageStatus::StatusInvalidService
        })
    );
    assert!(matches!(
        router.process_incoming_frame(clear_frame(3, 0, &[]), 2_000),
        Ok(RouterAction::Nothing)
    ));

    let granted = router.handle_open_channel_request(3, 7);
    assert_eq!(granted.service_index, Some(1));
    assert_eq!(
        granted.response.message,
        ProtoMessage::ChannelOpenResponse(ChannelOpenResponse {
            status: MessageStatus::StatusSuccess
        })
    );
    match router.process_incoming_frame(clear_frame(3, 0x8000, &[4]), 2_000) {
        Ok(RouterAction::Deliver(packet)) => assert_eq!(packet.payload(), &[4]),
        _ => panic!("not delivered"),
    }

    let again = router.handle_open_channel_request(4, 7);
    assert_eq!(again.service_index, None);
    assert_eq!(again.response.channel_id, 4);
    let other = router.handle_open_channel_request(3, 1);
    assert_eq!(other.service_index, Some(0));
}

#[test]
fn control_messages_are_told_apart() {
    let (mut router, _phone) = established();
    assert!(matches!(
        router.process_incoming_frame(clear_frame(0, 0x0c, &[]), 2_000),
        Ok(RouterAction::PingResponse(_))
    ));
    assert!(matches!(
        router.process_incoming_frame(clear_frame(0, 0x12, &[]), 2_000),
        Ok(RouterAction::AudioFocusRequest(_))
    ));
    assert!(matches!(
        router.process_incoming_frame(clear_frame(0, 0x77, &[]), 2_000),
        Ok(RouterAction::Nothing)
    ));
    assert_eq!(router.handle_audio_focus_request().message_id, 0x13);
}

#[test]
fn an_unanswered_ping_ends_the_connection() {
    let (mut router, _phone) = established();
    match router.handle_event(ConnectionEvent::TimerElapsed { timestamp: 42 }, 5_000_000_000) {
        Ok(ConnectionStep::Act(RouterAction::SendMessage(ping))) => {
            assert_eq!(ping.message_id, 0x0b);
            assert_eq!(
                ping.message,
                ProtoMessage::PingRequest(PingRequest {
                    timestamp: 42,
                    bug_report: Some(false),
                    data: Some(vec![0, 0, 0, 0]),
                })
            );
        }
        _ => panic!("no ping"),
    }
    assert_eq!(router.heartbeat().unwrap().next_timeout, 6_800_000_000);
    router.handle_ping_response(6_000_000_000);
    assert_eq!(router.heartbeat().unwrap().counter, 1);
    assert_eq!(router.heartbeat().unwrap().next_timeout, 10_000_000_000);
    // nobody waits for a second answer
    router.handle_ping_response(7_000_000_000);
    assert_eq!(router.heartbeat().unwrap().counter, 1);
    assert_eq!(router.heartbeat().unwrap().next_timeout, 10_000_000_000);
    match router.handle_event(ConnectionEvent::TimerElapsed { timestamp: 43 }, 10_000_000_000) {
        Ok(ConnectionStep::Act(RouterAction::SendMessage(ping))) => match ping.message {
            ProtoMessage::PingRequest(ping) => assert_eq!(ping.data, Some(vec![0, 0, 0, 1])),
            _ => panic!("not a ping"),
        },
        _ => panic!("no ping"),
    }
    // another packet is not an answer
    assert!(matches!(
        router.process_incoming_frame(clear_frame(0, 0x77, &[]), 11_000_000_000),
        Ok(RouterAction::Nothing)
    ));
    assert_eq!(router.heartbeat().unwrap().next_timeout, 11_800_000_000);
    assert!(matches!(
        router.handle_event(ConnectionEvent::TimerElapsed { timestamp: 44 }, 12_000_000_000),
        Ok(ConnectionStep::Close(PacketRouterResult::ConnectionClosedExternaly))
    ));
}

#[test]
fn events_end_the_connection_from_either_side() {
    let (mut router, mut phone) = established();
    assert!(matches!(
        router.handle_event(ConnectionEvent::OutgoingPacket(None), 1),
        Ok(ConnectionStep::Close(PacketRouterResult::ConnectionClosedInterally))
    ));
    assert!(matches!(
        router.handle_event(ConnectionEvent::Cancelled, 1),
        Ok(ConnectionStep::Close(PacketRouterResult::ConnectionClosedInterally))
    ));
    assert!(matches!(
        router.handle_event(ConnectionEvent::Incoming(IncomingEvent::Closed), 1),
        Ok(ConnectionStep::Close(PacketRouterResult::ConnectionClosedExternaly))
    ));
    let packet = ChannelPacketSender { channel_id: 9 }.send_raw(0x8001, &[5, 6]);
    match router.handle_event(ConnectionEvent::OutgoingPacket(Some(packet)), 1) {
        Ok(ConnectionStep::SendFrames(frames)) => {
            assert_eq!(frames.len(), 1);
            assert_eq!(frames[0].channel_id, 9);
            assert!(frames[0].encrypted);
            phone_reads(&mut phone, &frames[0].payload);
            assert_eq!(phone_hears(&mut phone, 4), vec![0x80, 0x01, 5, 6]);
        }
        _ => panic!("not sent"),
    }
    match router.handle_event(
        ConnectionEvent::Incoming(IncomingEvent::Frame(clear_frame(0, 0x0c, &[]))),
        1,
    ) {
        Ok(ConnectionStep::Act(RouterAction::PingResponse(_))) => {}
        _ => panic!("not handled"),
    }
}

#[test]
fn a_handshake_has_to_begin_with_a_message() {
    assert!(matches!(
        begin_handshake(Ok(None)),
        Err(RouterFailure::NoHandshakeMessage)
    ));
    assert!(matches!(
        begin_handshake(Err(TlsFailure::Engine)),
        Err(RouterFailure::Tls(TlsFailure::Engine))
    ));
    match begin_handshake(Ok(Some(vec![7, 8]))) {
        Ok(RouterAction::SendPacket(packet)) => {
            assert_eq!(packet.message_id_and_payload, vec![0, 3, 7, 8]);
        }
        _ => panic!("not sent"),
    }
}

fn progress(position: usize, outgoing: Option<Vec<u8>>) -> HandshakeProgress {
    HandshakeProgress { position, outgoing }
}

fn done(step: HandshakeStep) -> (Result<Option<Vec<u8>>, TlsFailure>, bool) {
    match step {
        HandshakeStep::Done { result, established } => (result, established),
        HandshakeStep::Continue(_) => panic!("not done"),
    }
}

#[test]
fn handshake_records_pile_up_until_they_are_sent() {
    match progress(3, Some(vec![1])).advance(HandshakeEvent::Record(vec![2, 3]), 9) {
        HandshakeStep::Continue(next) => {
            assert_eq!(next.position, 3);
            assert_eq!(next.outgoing, Some(vec![1, 2, 3]));
        }
        HandshakeStep::Done { .. } => panic!("done"),
    }
    assert_eq!(
        done(progress(3, Some(vec![1])).advance(HandshakeEvent::Transmit, 9)),
        (Ok(Some(vec![1])), false)
    );
    assert_eq!(
        done(progress(9, None).advance(HandshakeEvent::TrafficReady, 9)),
        (Ok(None), true)
    );
    assert_eq!(
        done(progress(8, None).advance(HandshakeEvent::TrafficReady, 9)),
        (Err(TlsFailure::TrailingBytes), true)
    );
    assert_eq!(
        done(progress(9, None).advance(HandshakeEvent::Other, 9)),
        (Ok(None), false)
    );
    assert_eq!(
        done(progress(9, None).advance(HandshakeEvent::Failed, 9)),
        (Err(TlsFailure::Engine), false)
    );
}

#[test]
fn a_decryption_is_finished_by_its_data() {
    assert_eq!(finish_decryption(Some(vec![1]), 4, 4), Ok(vec![1]));
    assert_eq!(finish_decryption(Some(vec![1]), 3, 4), Err(TlsFailure::TrailingBytes));
    assert_eq!(finish_decryption(None, 4, 4), Err(TlsFailure::NoData));
}

#[test]
fn a_clear_packet_is_put_together_again() {
    let mut sending = PacketFramer::new(head_unit().new_connection().unwrap());
    let mut receiving = PacketFramer::new(head_unit().new_connection().unwrap());
    assert!(receiving.is_handshaking());
    for len in [0usize, 10, 0x4000 - 2, 0x4000 - 1, 0x8000 - 2, 0xc001] {
        let payload: Vec<u8> = (0..len).map(|i| (i / 3) as u8).collect();
        let packet = Packet::new_from_parts(7, AAPFrameType::Control, false, 0x0102, &payload);
        let frames = sending.process_outgoing_packet(packet).unwrap();
        assert_eq!(frames.len(), (len + 2).div_ceil(0x4000));
        let last = frames.len() - 1;
        for (i, frame) in frames.into_iter().enumerate() {
            assert!(frame.payload.len() <= 0x4000);
            assert!(receiving.accepts(&frame));
            let packet = receiving.process_incoming_frame(frame).unwrap();
            assert_eq!(packet.is_some(), i == last);
            if let Some(packet) = packet {
                assert_eq!(packet.channel_id, 7);
                assert_eq!(packet.frame_type, AAPFrameType::Control);
                assert_eq!(packet.message_id(), 0x0102);
                assert_eq!(packet.payload(), payload);
            }
        }
    }
}

#[test]
fn frames_that_do_not_follow_are_not_accepted() {
    let mut framer = PacketFramer::new(head_unit().new_connection().unwrap());
    let frame = |channel_id, frag_info| AAPFrame {
        frag_info,
        ..clear_frame(channel_id, 1, &[])
    };
    assert!(!framer.accepts(&frame(1, AAPFrameFragmmentation::Continuation)));
    assert!(!framer.accepts(&frame(1, AAPFrameFragmmentation::Last)));
    assert!(framer.accepts(&frame(1, AAPFrameFragmmentation::Unfragmented)));
    framer
        .process_incoming_frame(frame(1, AAPFrameFragmmentation::First))
        .unwrap();
    assert!(!framer.accepts(&frame(1, AAPFrameFragmmentation::First)));
    assert!(!framer.accepts(&frame(2, AAPFrameFragmmentation::Last)));
    assert!(framer.accepts(&frame(1, AAPFrameFragmmentation::Last)));
    assert!(framer.accepts(&frame(2, AAPFrameFragmmentation::Unfragmented)));
}
