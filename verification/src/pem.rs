//! Certificates and keys out of PEM text, as `rustls_pemfile` reads it.
use rustls_pemfile::Item;
use vstd::prelude::*;

verus! {

/// A private key in DER, with its encoding.
#[derive(Debug)]
pub enum PrivateKey {
    Pkcs1(Vec<u8>),
    Pkcs8(Vec<u8>),
    Sec1(Vec<u8>),
}

/// What a `PrivateKey` holds.
pub enum KeyDer {
    Pkcs1(Seq<u8>),
    Pkcs8(Seq<u8>),
    Sec1(Seq<u8>),
}

impl View for PrivateKey {
    type V = KeyDer;

    open spec fn view(&self) -> KeyDer {
        match *self {
            PrivateKey::Pkcs1(der) => KeyDer::Pkcs1(der@),
            PrivateKey::Pkcs8(der) => KeyDer::Pkcs8(der@),
            PrivateKey::Sec1(der) => KeyDer::Sec1(der@),
        }
    }
}

/// A section of PEM text: a private key, or something else.
#[derive(Debug)]
pub enum PemItem {
    Key(PrivateKey),
    Other,
}

/// What a `PemItem` holds.
pub enum PemSection {
    Key(KeyDer),
    Other,
}

impl View for PemItem {
    type V = PemSection;

    open spec fn view(&self) -> PemSection {
        match *self {
            PemItem::Key(key) => PemSection::Key(key@),
            PemItem::Other => PemSection::Other,
        }
    }
}

/// What reading one section came to: an error, the end of the text, or a section.
pub open spec fn section_read(read: Result<Option<PemItem>, String>) -> Result<
    Option<PemSection>,
    Seq<char>,
> {
    match read {
        Ok(Some(item)) => Ok(Some(item@)),
        Ok(None) => Ok(None),
        Err(cause) => Err(cause@),
    }
}

/// What a list of certificates holds, where `None` stands for one that could
/// not be read.
pub open spec fn certificate_list(found: Seq<Option<Vec<u8>>>) -> Seq<Option<Seq<u8>>> {
    found.map_values(
        |cert: Option<Vec<u8>>|
            match cert {
                Some(der) => Some(der@),
                None => None,
            },
    )
}

/// What `rustls_pemfile::certs` yields on PEM text, in order: the DER of a
/// certificate, or `None` for an error.
pub uninterp spec fn pem_certs(pem: Seq<u8>) -> Seq<Option<Seq<u8>>>;

/// What `rustls_pemfile::read_one` returns on PEM text, with the text that it
/// leaves unread.
pub uninterp spec fn pem_read_one(pem: Seq<u8>) -> (Result<Option<PemSection>, Seq<char>>, Seq<u8>);

/// Calls `rustls_pemfile::certs` on the text. The claim is only that the list
/// is a function of the text: PEM is not described here.
#[verifier::external_body]
pub(crate) fn read_certs(pem: &[u8]) -> (found: Vec<Option<Vec<u8>>>)
    ensures
        certificate_list(found@) == pem_certs(pem@),
{
    let mut rest = pem;
    rustls_pemfile::certs(&mut rest).map(|cert| cert.ok().map(|der| der.to_vec())).collect()
}

/// Calls `rustls_pemfile::read_one` on the text. The claim is that its result
/// and the unread text are a function of the text, and that every call which
/// does not report the end of the text reads on.
#[verifier::external_body]
pub(crate) fn read_section(pem: &[u8]) -> (read: (Result<Option<PemItem>, String>, &[u8]))
    ensures
        section_read(read.0) == pem_read_one(pem@).0,
        read.1@ == pem_read_one(pem@).1,
        !(section_read(read.0) == Ok::<Option<PemSection>, Seq<char>>(None)) ==> read.1@.len()
            < pem@.len(),
{
    let mut rest = pem;
    let item = match rustls_pemfile::read_one(&mut rest) {
        Ok(Some(Item::Pkcs1Key(key))) => Ok(Some(PemItem::Key(PrivateKey::Pkcs1(key.secret_pkcs1_der().to_vec())))),
        Ok(Some(Item::Pkcs8Key(key))) => Ok(Some(PemItem::Key(PrivateKey::Pkcs8(key.secret_pkcs8_der().to_vec())))),
        Ok(Some(Item::Sec1Key(key))) => Ok(Some(PemItem::Key(PrivateKey::Sec1(key.secret_sec1_der().to_vec())))),
        Ok(Some(_)) => Ok(Some(PemItem::Other)),
        Ok(None) => Ok(None),
        Err(error) => Err(error.to_string()),
    };
    (item, rest)
}

/// What is said of a key, a section or a reading is said of its bytes and its
/// encoding, and a reading that failed is none of a section.
pub proof fn law_sections_are_their_bytes(der: Vec<u8>, key: PrivateKey, cause: String)
    ensures
        PrivateKey::Pkcs1(der)@ == KeyDer::Pkcs1(der@),
        PrivateKey::Pkcs8(der)@ == KeyDer::Pkcs8(der@),
        PrivateKey::Sec1(der)@ == KeyDer::Sec1(der@),
        PemItem::Key(key)@ == PemSection::Key(key@),
        PemItem::Other@ == PemSection::Other,
        section_read(Ok(Some(PemItem::Key(key)))) == Ok::<Option<PemSection>, Seq<char>>(
            Some(PemSection::Key(key@)),
        ),
        section_read(Ok(Some(PemItem::Other))) == Ok::<Option<PemSection>, Seq<char>>(
            Some(PemSection::Other),
        ),
        section_read(Ok(None)) == Ok::<Option<PemSection>, Seq<char>>(None),
        section_read(Err(cause)) == Err::<Option<PemSection>, Seq<char>>(cause@),
{
}

/// What is said of a list of certificates is said of every entry, in place.
pub proof fn law_list_is_every_certificate(found: Seq<Option<Vec<u8>>>)
    ensures
        certificate_list(found).len() == found.len(),
        forall|i: int|
            0 <= i < found.len() ==> (#[trigger] certificate_list(found)[i] is Some
                == found[i] is Some),
        forall|i: int|
            0 <= i < found.len() && found[i] is Some ==> #[trigger] certificate_list(found)[i]
                == Some(found[i]->Some_0@),
{
}

} // verus!
