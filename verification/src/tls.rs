//! Certificates and private keys out of PEM files.
use rustls_pemfile::Item;
use vstd::prelude::*;

verus! {

/// `std::io::Error`, the error of the PEM reader.
#[verifier::external_type_specification]
#[verifier::external_body]
pub struct ExIoError(std::io::Error);

/// One section of a PEM file, in DER form.
pub enum PemItem {
    /// A certificate
    Certificate(Vec<u8>),
    /// A PKCS#1 RSA key
    RsaKey(Vec<u8>),
    /// A PKCS#8 key
    Pkcs8Key(Vec<u8>),
    /// A SEC1 key
    EcKey(Vec<u8>),
    /// A certificate revocation list
    Crl(Vec<u8>),
    /// Anything else
    Other,
}

/// One section of a PEM file, as bytes.
pub enum PemItemView {
    Certificate(Seq<u8>),
    RsaKey(Seq<u8>),
    Pkcs8Key(Seq<u8>),
    EcKey(Seq<u8>),
    Crl(Seq<u8>),
    Other,
}

impl PemItemView {
    /// The certificate in the section, if it holds one.
    pub open spec fn certificate(self) -> Option<Seq<u8>> {
        match self {
            PemItemView::Certificate(der) => Some(der),
            _ => None,
        }
    }

    /// The private key in the section, if it holds one.
    pub open spec fn key(self) -> Option<Seq<u8>> {
        match self {
            PemItemView::RsaKey(der) => Some(der),
            PemItemView::Pkcs8Key(der) => Some(der),
            PemItemView::EcKey(der) => Some(der),
            _ => None,
        }
    }
}

impl View for PemItem {
    type V = PemItemView;

    open spec fn view(&self) -> PemItemView {
        match *self {
            PemItem::Certificate(der) => PemItemView::Certificate(der@),
            PemItem::RsaKey(der) => PemItemView::RsaKey(der@),
            PemItem::Pkcs8Key(der) => PemItemView::Pkcs8Key(der@),
            PemItem::EcKey(der) => PemItemView::EcKey(der@),
            PemItem::Crl(der) => PemItemView::Crl(der@),
            PemItem::Other => PemItemView::Other,
        }
    }
}

/// What reading the next section of `pem` gives: the section, if there is one, and what follows
/// it; or what is wrong with the text, if it is malformed.
pub uninterp spec fn next_item(pem: Seq<u8>) -> Result<
    (Option<PemItemView>, Seq<u8>),
    std::io::Error,
>;

/// `rustls_pemfile::read_one` on a slice, which it shortens by what it reads; a section takes up
/// at least its first line. Of a malformed text the error tells the same kind and the same words
/// every time.
#[verifier::external_body]
fn read_item<'a>(pem: &'a [u8]) -> (read: Result<(Option<PemItem>, &'a [u8]), std::io::Error>)
    ensures
        next_item(pem@) == match read {
            Ok((Some(item), rest)) => Ok((Some(item@), rest@)),
            Ok((None, rest)) => Ok((None, rest@)),
            Err(error) => Err(error),
        },
        read matches Ok((Some(_), rest)) ==> rest@.len() < pem@.len(),
{
    let mut rest = pem;
    let item = rustls_pemfile::read_one(&mut rest)?.map(|item| match item {
        Item::X509Certificate(der) => PemItem::Certificate(der),
        Item::RSAKey(der) => PemItem::RsaKey(der),
        Item::PKCS8Key(der) => PemItem::Pkcs8Key(der),
        Item::ECKey(der) => PemItem::EcKey(der),
        Item::Crl(der) => PemItem::Crl(der),
        _ => PemItem::Other,
    });
    Ok((item, rest))
}

/// The certificates in `pem`: those of its sections that hold one, each once and in file order; or
/// what is wrong with the first malformed text in it.
pub open spec fn certificates_in(pem: Seq<u8>) -> Result<Seq<Seq<u8>>, std::io::Error>
    decreases pem.len(),
{
    match next_item(pem) {
        Err(error) => Err(error),
        Ok((None, _)) => Ok(Seq::empty()),
        Ok((Some(item), rest)) => if rest.len() < pem.len() {
            match (certificates_in(rest), item.certificate()) {
                (Ok(later), Some(der)) => Ok(seq![der] + later),
                (later, _) => later,
            }
        } else {
            Ok(Seq::empty())
        },
    }
}

/// `rustls_pemfile::certs` on a slice: reads section by section as `read_one` does, to the end,
/// and keeps the certificates; the first error ends it and is handed on.
#[verifier::external_body]
fn read_certificates(pem: &[u8]) -> (read: Result<Vec<Vec<u8>>, std::io::Error>)
    ensures
        certificates_in(pem@) == match read {
            Ok(certificates) => Ok(certificates@.map_values(|der: Vec<u8>| der@)),
            Err(error) => Err(error),
        },
{
    let mut rest = pem;
    rustls_pemfile::certs(&mut rest)
}

/// Why there are no certificates.
#[derive(Debug)]
pub enum CertificateError {
    /// The text is malformed.
    Malformed(std::io::Error),
}

/// The certificates in a PEM file, each in DER form.
pub fn certificates(pem: &[u8]) -> (found: Result<Vec<Vec<u8>>, CertificateError>)
    ensures
        certificates_in(pem@) == match found {
            Ok(certificates) => Ok(certificates@.map_values(|der: Vec<u8>| der@)),
            Err(CertificateError::Malformed(error)) => Err(error),
        },
{
    match read_certificates(pem) {
        Ok(certificates) => Ok(certificates),
        Err(error) => Err(CertificateError::Malformed(error)),
    }
}

/// Why there is no private key.
#[derive(Debug)]
pub enum KeyError {
    /// The text is malformed.
    Malformed(std::io::Error),
    /// It holds no private key.
    Missing,
}

impl KeyError {
    /// What to tell the user.
    pub fn message(&self) -> (text: String)
        ensures
            text@ == match self {
                KeyError::Malformed(_) => "cannot parse private key .pem file"@,
                KeyError::Missing => "no valid private key found in key file"@,
            },
    {
        match self {
            KeyError::Malformed(_) => "cannot parse private key .pem file".to_owned(),
            KeyError::Missing => "no valid private key found in key file".to_owned(),
        }
    }
}

/// How the search for a key ends.
pub enum KeySearch {
    /// With this key
    Found(Seq<u8>),
    /// At the end of the file
    Missing,
    /// At malformed text, with this wrong with it
    Malformed(std::io::Error),
}

/// The search for the first private key in `pem`.
pub open spec fn key_search(pem: Seq<u8>) -> KeySearch
    decreases pem.len(),
{
    match next_item(pem) {
        Err(error) => KeySearch::Malformed(error),
        Ok((None, _)) => KeySearch::Missing,
        Ok((Some(item), rest)) => match item.key() {
            Some(key) => KeySearch::Found(key),
            None => if rest.len() < pem.len() {
                key_search(rest)
            } else {
                KeySearch::Missing
            },
        },
    }
}

/// The key in a section, if it holds one.
pub fn key_of(item: PemItem) -> (key: Option<Vec<u8>>)
    ensures
        item@.key() == match key {
            Some(key) => Some(key@),
            None => None,
        },
        match item {
            PemItem::RsaKey(der) => key == Some(der),
            PemItem::Pkcs8Key(der) => key == Some(der),
            PemItem::EcKey(der) => key == Some(der),
            PemItem::Certificate(_) => key is None,
            PemItem::Crl(_) => key is None,
            PemItem::Other => key is None,
        },
{
    match item {
        PemItem::RsaKey(der) => Some(der),
        PemItem::Pkcs8Key(der) => Some(der),
        PemItem::EcKey(der) => Some(der),
        _ => None,
    }
}

/// The first private key in a PEM file, in DER form.
pub fn private_key(pem: &[u8]) -> (found: Result<Vec<u8>, KeyError>)
    ensures
        key_search(pem@) == match found {
            Ok(key) => KeySearch::Found(key@),
            Err(KeyError::Missing) => KeySearch::Missing,
            Err(KeyError::Malformed(error)) => KeySearch::Malformed(error),
        },
        next_item(pem@) matches Ok((Some(PemItemView::RsaKey(der)), _)) ==> (found is Ok
            && found->Ok_0@ == der),
        next_item(pem@) matches Ok((Some(PemItemView::Pkcs8Key(der)), _)) ==> (found is Ok
            && found->Ok_0@ == der),
        next_item(pem@) matches Ok((Some(PemItemView::EcKey(der)), _)) ==> (found is Ok
            && found->Ok_0@ == der),
        next_item(pem@) matches Ok((None, _)) ==> (found is Err && found->Err_0 is Missing),
        next_item(pem@) matches Err(error) ==> (found is Err && found->Err_0
            == KeyError::Malformed(error)),
{
    let mut rest: &[u8] = pem;
    loop
        invariant
            key_search(rest@) == key_search(pem@),
        decreases rest@.len(),
    {
        match read_item(rest) {
            Ok((Some(item), next)) => {
                if let Some(key) = key_of(item) {
                    return Ok(key);
                }
                rest = next;
            },
            Ok((None, _)) => {
                return Err(KeyError::Missing);
            },
            Err(error) => {
                return Err(KeyError::Malformed(error));
            },
        }
    }
}

} // verus!
