//! The certificate and the private key of the listener, taken out of the
//! PEM text of their files. The PEM text is read by `rustls_pemfile`.

use vstd::prelude::*;
use crate::bytes::texts;

verus! {

/// The error of `std::io`, which `rustls_pemfile` reports errors with.
/// Nothing is known of what it holds.
#[verifier::external_type_specification]
#[verifier::external_body]
pub struct ExIoError(std::io::Error);

/// The certificates that `rustls_pemfile::certs` finds in `pem`, in the order
/// of the text, each as its DER bytes; `None` where it reports an error.
pub uninterp spec fn pem_certificates(pem: Seq<u8>) -> Option<Seq<Seq<u8>>>;

/// The PKCS#8 private keys that `rustls_pemfile::pkcs8_private_keys` finds in
/// `pem`, in the order of the text, each as its DER bytes; `None` where it
/// reports an error.
pub uninterp spec fn pem_private_keys(pem: Seq<u8>) -> Option<Seq<Seq<u8>>>;

/// Why a file gave no certificate or no key.
#[derive(Clone, Copy, Debug, PartialEq, Eq, Structural)]
pub enum PemError {
    /// The text is not well-formed PEM.
    Malformed,
    /// The text holds no section of the kind that was asked for.
    Missing,
}

/// What a reading of PEM text gave, as a mathematical value.
pub open spec fn sections_of(found: Result<Vec<Vec<u8>>, std::io::Error>) -> Option<
    Seq<Seq<u8>>,
> {
    match found {
        Ok(list) => Some(texts(list@)),
        Err(_) => None,
    }
}

/// The first of the sections that a reading gave.
pub open spec fn first_section(sections: Option<Seq<Seq<u8>>>) -> Result<Seq<u8>, PemError> {
    match sections {
        None => Err(PemError::Malformed),
        Some(list) => if list.len() == 0 {
            Err(PemError::Missing)
        } else {
            Ok(list[0])
        },
    }
}

/// Calls `rustls_pemfile::certs` on the bytes of a file. Not proved: that the
/// result depends on the bytes alone, which is what the name
/// `pem_certificates` stands for. Reading from memory cannot fail, so an
/// error is one of the PEM text.
#[verifier::external_body]
fn read_certificates(pem: &[u8]) -> (found: Result<Vec<Vec<u8>>, std::io::Error>)
    ensures
        sections_of(found) == pem_certificates(pem@),
{
    let mut reader: &[u8] = pem;
    rustls_pemfile::certs(&mut reader)
}

/// Calls `rustls_pemfile::pkcs8_private_keys` on the bytes of a file. Not
/// proved: that the result depends on the bytes alone, which is what the name
/// `pem_private_keys` stands for.
#[verifier::external_body]
fn read_private_keys(pem: &[u8]) -> (found: Result<Vec<Vec<u8>>, std::io::Error>)
    ensures
        sections_of(found) == pem_private_keys(pem@),
{
    let mut reader: &[u8] = pem;
    rustls_pemfile::pkcs8_private_keys(&mut reader)
}

/// Picks the first section of a reading.
pub fn pick_first(found: Result<Vec<Vec<u8>>, std::io::Error>) -> (r: Result<Vec<u8>, PemError>)
    ensures
        match r {
            Ok(der) => first_section(sections_of(found)) == Ok::<Seq<u8>, PemError>(der@),
            Err(e) => first_section(sections_of(found)) == Err::<Seq<u8>, PemError>(e),
        },
{
    match found {
        Err(_) => Err(PemError::Malformed),
        Ok(mut list) => {
            if list.len() == 0 {
                Err(PemError::Missing)
            } else {
                Ok(list.swap_remove(0))
            }
        },
    }
}

/// The DER bytes of the first certificate in `pem`.
pub fn first_certificate(pem: &[u8]) -> (r: Result<Vec<u8>, PemError>)
    ensures
        match r {
            Ok(der) => first_section(pem_certificates(pem@)) == Ok::<Seq<u8>, PemError>(der@),
            Err(e) => first_section(pem_certificates(pem@)) == Err::<Seq<u8>, PemError>(e),
        },
{
    pick_first(read_certificates(pem))
}

/// The DER bytes of the first PKCS#8 private key in `pem`.
pub fn first_private_key(pem: &[u8]) -> (r: Result<Vec<u8>, PemError>)
    ensures
        match r {
            Ok(der) => first_section(pem_private_keys(pem@)) == Ok::<Seq<u8>, PemError>(der@),
            Err(e) => first_section(pem_private_keys(pem@)) == Err::<Seq<u8>, PemError>(e),
        },
{
    pick_first(read_private_keys(pem))
}

} // verus!
