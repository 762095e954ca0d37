//! The certificates and the key of the head unit.
use rustls::pki_types::pem::PemObject;
use rustls::pki_types::{CertificateDer, PrivateKeyDer};
use vstd::prelude::*;

verus! {

/// A private key, by the format that it is encoded in.
#[derive(Debug, PartialEq, Eq)]
pub enum PrivateKey {
    Pkcs1(Vec<u8>),
    Sec1(Vec<u8>),
    Pkcs8(Vec<u8>),
}

/// The value of a [`PrivateKey`].
pub enum PrivateKeyView {
    Pkcs1(Seq<u8>),
    Sec1(Seq<u8>),
    Pkcs8(Seq<u8>),
}

impl View for PrivateKey {
    type V = PrivateKeyView;

    open spec fn view(&self) -> PrivateKeyView {
        match self {
            PrivateKey::Pkcs1(bytes) => PrivateKeyView::Pkcs1(bytes@),
            PrivateKey::Sec1(bytes) => PrivateKeyView::Sec1(bytes@),
            PrivateKey::Pkcs8(bytes) => PrivateKeyView::Pkcs8(bytes@),
        }
    }
}

/// What the head unit needs to prove who it is, and to tell who the phone is.
#[derive(Debug, PartialEq, Eq)]
pub struct Credentials {
    /// The certificate of the authority that the phone is certified by.
    pub ca_cert: Vec<u8>,
    /// The certificates of the head unit.
    pub certs: Vec<Vec<u8>>,
    pub key: PrivateKey,
}

/// Why there are no credentials.
#[derive(Debug, Clone, Copy, PartialEq, Eq, Structural)]
pub enum PkiFailure {
    /// There is no certificate of the authority, or the first is unreadable.
    CaCertificate,
    /// A certificate of the head unit is unreadable.
    Certificate,
    /// There is no readable key.
    Key,
}

/// The certificates in a text, in their order; nothing stands for one that is
/// unreadable.
pub uninterp spec fn pem_certificates(pem: Seq<u8>) -> Seq<Option<Seq<u8>>>;

/// The first private key in a text, where it is readable and in one of the
/// three formats.
pub uninterp spec fn pem_private_key(pem: Seq<u8>) -> Option<PrivateKeyView>;

/// The value of an item that may be missing.
pub open spec fn item_view(item: Option<Vec<u8>>) -> Option<Seq<u8>> {
    match item {
        Some(bytes) => Some(bytes@),
        None => None,
    }
}

/// The values of items that may be missing.
pub open spec fn item_views(items: Seq<Option<Vec<u8>>>) -> Seq<Option<Seq<u8>>> {
    items.map_values(|item: Option<Vec<u8>>| item_view(item))
}

/// The value of a key that may be missing.
pub open spec fn key_view(key: Option<PrivateKey>) -> Option<PrivateKeyView> {
    match key {
        Some(key) => Some(key@),
        None => None,
    }
}

/// `pem_slice_iter` of `rustls::pki_types::pem::PemObject` for certificates:
/// the certificates in a text, which rest on the text alone.
#[verifier::external_body]
fn read_pem_certificates(pem: &[u8]) -> (certificates: Vec<Option<Vec<u8>>>)
    ensures
        item_views(certificates@) == pem_certificates(pem@),
{
    CertificateDer::pem_slice_iter(pem).map(
        |item| item.ok().map(|certificate| certificate.as_ref().to_vec()),
    ).collect()
}

/// `from_pem_slice` of `rustls::pki_types::pem::PemObject` for private keys:
/// the first key in a text, which rests on the text alone.
#[verifier::external_body]
fn read_pem_private_key(pem: &[u8]) -> (key: Option<PrivateKey>)
    ensures
        key_view(key) == pem_private_key(pem@),
{
    match PrivateKeyDer::from_pem_slice(pem).ok()? {
        PrivateKeyDer::Pkcs1(der) => Some(PrivateKey::Pkcs1(der.secret_pkcs1_der().to_vec())),
        PrivateKeyDer::Sec1(der) => Some(PrivateKey::Sec1(der.secret_sec1_der().to_vec())),
        PrivateKeyDer::Pkcs8(der) => Some(PrivateKey::Pkcs8(der.secret_pkcs8_der().to_vec())),
        _ => None,
    }
}

/// What the contents of the three texts come to.
pub open spec fn are_credentials(
    ca_certs: Seq<Option<Seq<u8>>>,
    certs: Seq<Option<Seq<u8>>>,
    key: Option<PrivateKeyView>,
    result: Result<Credentials, PkiFailure>,
) -> bool {
    if ca_certs.len() == 0 || ca_certs[0] is None {
        result == Err::<Credentials, _>(PkiFailure::CaCertificate)
    } else if exists|i: int| 0 <= i < certs.len() && (#[trigger] certs[i]) is None {
        result == Err::<Credentials, _>(PkiFailure::Certificate)
    } else if key is None {
        result == Err::<Credentials, _>(PkiFailure::Key)
    } else {
        &&& result matches Ok(credentials)
        &&& Some(credentials.ca_cert@) == ca_certs[0]
        &&& credentials.certs@.len() == certs.len()
        &&& forall|i: int|
            0 <= i < certs.len() ==> Some((#[trigger] credentials.certs@[i])@) == certs[i]
        &&& Some(credentials.key@) == key
    }
}

/// Puts the credentials together: the first certificate of the authority, all
/// of the head unit, and the key.
pub fn assemble_credentials(
    ca_certs: Vec<Option<Vec<u8>>>,
    certs: Vec<Option<Vec<u8>>>,
    key: Option<PrivateKey>,
) -> (result: Result<Credentials, PkiFailure>)
    ensures
        are_credentials(item_views(ca_certs@), item_views(certs@), key_view(key), result),
{
    let ca_cert: Vec<u8> = if ca_certs.len() == 0 {
        return Err(PkiFailure::CaCertificate);
    } else {
        match &ca_certs[0] {
            Some(bytes) => copy_bytes(bytes),
            None => {
                return Err(PkiFailure::CaCertificate);
            },
        }
    };
    assert(item_views(ca_certs@)[0] == item_view(ca_certs@[0]));
    let mut chain: Vec<Vec<u8>> = Vec::new();
    let mut i: usize = 0;
    while i < certs.len()
        invariant
            i <= certs@.len(),
            chain@.len() == i,
            item_views(ca_certs@).len() > 0,
            item_views(ca_certs@)[0] == Some(ca_cert@),
            forall|j: int| 0 <= j < i ==> Some((#[trigger] chain@[j])@) == item_view(certs@[j]),
        decreases certs@.len() - i,
    {
        match &certs[i] {
            Some(bytes) => {
                chain.push(copy_bytes(bytes));
            },
            None => {
                assert(item_views(certs@)[i as int] is None);
                return Err(PkiFailure::Certificate);
            },
        }
        i = i + 1;
    }
    assert forall|j: int| 0 <= j < certs@.len() implies #[trigger] item_views(certs@)[j] == Some(
        chain@[j]@,
    ) by {}
    match key {
        Some(key) => Ok(Credentials { ca_cert, certs: chain, key }),
        None => Err(PkiFailure::Key),
    }
}

fn copy_bytes(bytes: &Vec<u8>) -> (copy: Vec<u8>)
    ensures
        copy@ == bytes@,
{
    let mut copy: Vec<u8> = Vec::new();
    copy.extend_from_slice(bytes.as_slice());
    assert(copy@ =~= bytes@);
    copy
}

/// Reads the credentials from the texts that hold the certificate of the
/// authority, the certificates of the head unit, and its key.
pub fn load_cert_and_key(ca_cert_pem: &[u8], cert_pem: &[u8], key_pem: &[u8]) -> (result: Result<
    Credentials,
    PkiFailure,
>)
    ensures
        are_credentials(
            pem_certificates(ca_cert_pem@),
            pem_certificates(cert_pem@),
            pem_private_key(key_pem@),
            result,
        ),
{
    assemble_credentials(
        read_pem_certificates(ca_cert_pem),
        read_pem_certificates(cert_pem),
        read_pem_private_key(key_pem),
    )
}

/// There are credentials if and only if the first certificate of the authority, all
/// certificates of the head unit and the key can be read; then they are these, and
/// the certificates of the head unit are in their order.
pub proof fn credentials_are_what_was_read(
    ca_certs: Seq<Option<Seq<u8>>>,
    certs: Seq<Option<Seq<u8>>>,
    key: Option<PrivateKeyView>,
    result: Result<Credentials, PkiFailure>,
    index: int,
)
    requires
        are_credentials(ca_certs, certs, key, result),
    ensures
        result is Ok <==> {
            &&& ca_certs.len() > 0
            &&& ca_certs[0] is Some
            &&& forall|i: int| 0 <= i < certs.len() ==> (#[trigger] certs[i]) is Some
            &&& key is Some
        },
        result matches Ok(credentials) ==> {
            &&& credentials.ca_cert@ == ca_certs[0]->0
            &&& credentials.certs@.len() == certs.len()
            &&& 0 <= index < certs.len() ==> credentials.certs@[index]@ == certs[index]->0
            &&& credentials.key@ == key->0
        },
        result matches Err(failure) ==> {
            &&& failure is CaCertificate <==> ca_certs.len() == 0 || ca_certs[0] is None
            &&& failure is Key ==> key is None
            &&& failure is Certificate ==> exists|i: int|
                0 <= i < certs.len() && (#[trigger] certs[i]) is None
        },
{
    if let Ok(credentials) = result {
        assert forall|i: int| 0 <= i < certs.len() implies (#[trigger] certs[i]) is Some by {
            assert(Some(credentials.certs@[i]@) == certs[i]);
        }
        if 0 <= index < certs.len() {
            assert(Some(credentials.certs@[index]@) == certs[index]);
        }
    }
}

/// The bytes of a key, and the format that they are in, are its value.
pub proof fn a_key_keeps_its_format(key: PrivateKey)
    ensures
        match key {
            PrivateKey::Pkcs1(bytes) => key@ == PrivateKeyView::Pkcs1(bytes@),
            PrivateKey::Sec1(bytes) => key@ == PrivateKeyView::Sec1(bytes@),
            PrivateKey::Pkcs8(bytes) => key@ == PrivateKeyView::Pkcs8(bytes@),
        },
{
}

} // verus!
