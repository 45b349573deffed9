//! Certificate metadata: parsing the declared artifact (PEM or DER),
//! extracting the decimal serial number and the validity window, and the
//! validity check itself.
//!
//! Parsing the X.509 structure is delegated to an outside parser; what the
//! parser returns is carried as plain bytes and timestamps, and everything
//! derived from them is verified.

use vstd::prelude::*;
use vstd::slice::{slice_index_get, slice_subrange};
use x509_parser::prelude::FromDer;
use crate::serial::{be_bytes_val, big_endian_bytes_to_decimal, dec_digits};
use crate::strutil::str_eq;

verus! {

/// Metadata extracted from an X.509 certificate: the decimal serial number
/// and the validity window as UTC unix timestamps (seconds).
#[derive(Debug)]
pub struct CertMeta {
    pub serial_dec: String,
    pub not_before: i64,
    pub not_after: i64,
}

/// One PEM block: its label and its decoded contents.
pub struct PemBlock {
    pub label: String,
    pub contents: Vec<u8>,
}

/// What the raw certificate parser hands back: the serial number bytes as
/// encoded (big-endian, possibly with a leading zero byte), and the
/// validity bounds as UTC unix timestamps.
pub struct RawCertMeta {
    pub serial: Vec<u8>,
    pub not_before: i64,
    pub not_after: i64,
}

/// The PEM blocks a buffer decodes to, or nothing if some block is
/// malformed.
pub uninterp spec fn pem_blocks_of(data: Seq<u8>) -> Option<Seq<(Seq<char>, Seq<u8>)>>;

/// The serial bytes and validity bounds of the X.509 certificate a DER
/// buffer encodes, or nothing if it parses as no certificate.
pub uninterp spec fn x509_meta_of(der: Seq<u8>) -> Option<(Seq<u8>, int, int)>;

/// Relies on x509_parser's `Pem::iter_from_buffer`: splits a buffer into
/// its PEM blocks; a malformed block fails the whole parse.
#[verifier::external_body]
fn parse_pem_blocks(data: &[u8]) -> (r: Option<Vec<PemBlock>>)
    ensures
        (r is Some) == (pem_blocks_of(data@) is Some),
        r matches Some(v) ==> {
            &&& pem_blocks_of(data@) matches Some(s)
            &&& v@.len() == s.len()
            &&& forall|i: int|
                0 <= i < s.len() ==> v@[i].label@ == s[i].0 && v@[i].contents@ == s[i].1
        },
{
    let mut v = Vec::new();
    for item in x509_parser::pem::Pem::iter_from_buffer(data) {
        match item {
            Ok(p) => v.push(PemBlock { label: p.label, contents: p.contents }),
            Err(_) => return None,
        }
    }
    Some(v)
}

/// Relies on x509_parser's `X509Certificate::from_der`: parses DER-encoded
/// X.509 and reads the raw serial bytes and the validity window as unix
/// timestamps.
#[verifier::external_body]
fn parse_x509_meta(der: &[u8]) -> (r: Option<RawCertMeta>)
    ensures
        (r is Some) == (x509_meta_of(der@) is Some),
        r matches Some(m) ==> {
            &&& x509_meta_of(der@) matches Some(t)
            &&& m.serial@ == t.0
            &&& m.not_before == t.1
            &&& m.not_after == t.2
        },
{
    match x509_parser::certificate::X509Certificate::from_der(der) {
        Ok((_, cert)) => Some(
            RawCertMeta {
                serial: cert.tbs_certificate.raw_serial().to_vec(),
                not_before: cert.validity().not_before.timestamp(),
                not_after: cert.validity().not_after.timestamp(),
            },
        ),
        Err(_) => None,
    }
}

/// Why a certificate artifact could not be read.
#[derive(Clone, Copy, Debug, PartialEq, Eq, Structural)]
pub enum CertParseError {
    /// The buffer held a malformed PEM block.
    MalformedPem,
    /// Neither a PEM `CERTIFICATE` block nor the buffer itself parses as
    /// DER-encoded X.509.
    InvalidDer,
}

/// The serial bytes with a single leading zero byte removed. X.509 encodes
/// the serial as a signed integer, which may carry a leading `0x00`.
pub open spec fn spec_stripped_serial(serial: Seq<u8>) -> Seq<u8> {
    if serial.len() > 0 && serial[0] == 0 {
        serial.drop_first()
    } else {
        serial
    }
}

/// Stripping the sign byte never changes the serial's value: a leading
/// zero byte contributes nothing to a big-endian number, so the decimal
/// rendering of the stripped bytes is that of the encoded bytes.
pub proof fn lemma_stripped_serial_same_value(serial: Seq<u8>)
    ensures
        be_bytes_val(spec_stripped_serial(serial)) == be_bytes_val(serial),
    decreases serial.len(),
{
    if serial.len() > 0 && serial[0] == 0 {
        lemma_leading_zero_dropped(serial);
    }
}

/// A big-endian number keeps its value without its zero first byte.
proof fn lemma_leading_zero_dropped(s: Seq<u8>)
    requires
        s.len() >= 1,
        s[0] == 0,
    ensures
        be_bytes_val(s.drop_first()) == be_bytes_val(s),
    decreases s.len(),
{
    if s.len() == 1 {
        assert(s.drop_first() =~= Seq::<u8>::empty());
        assert(s.drop_last() =~= Seq::<u8>::empty());
        assert(be_bytes_val(s) == be_bytes_val(s.drop_last()) * 256 + s.last());
    } else {
        let t = s.drop_last();
        assert(t[0] == s[0]);
        lemma_leading_zero_dropped(t);
        assert(s.drop_first().drop_last() =~= t.drop_first());
        assert(s.drop_first().last() == s.last());
        assert(be_bytes_val(s.drop_first()) == be_bytes_val(t.drop_first()) * 256 + s.last());
        assert(be_bytes_val(s) == be_bytes_val(t) * 256 + s.last());
    }
}

/// The contents of the first `CERTIFICATE` block, if any.
pub open spec fn spec_first_cert_block(blocks: Seq<(Seq<char>, Seq<u8>)>) -> Option<Seq<u8>>
    decreases blocks.len(),
{
    if blocks.len() == 0 {
        Option::None
    } else if blocks.first().0 == "CERTIFICATE"@ {
        Option::Some(blocks.first().1)
    } else {
        spec_first_cert_block(blocks.drop_first())
    }
}

/// The DER bytes that a certificate artifact designates: the first PEM
/// `CERTIFICATE` block if one exists, else the buffer itself. Nothing when
/// a PEM block is malformed.
pub open spec fn spec_cert_der(data: Seq<u8>) -> Option<Seq<u8>> {
    match pem_blocks_of(data) {
        Option::None => Option::None,
        Option::Some(blocks) => match spec_first_cert_block(blocks) {
            Option::Some(der) => Option::Some(der),
            Option::None => Option::Some(data),
        },
    }
}

/// The metadata that `read_cert_meta` extracts from an artifact, when the
/// artifact parses at all.
pub open spec fn spec_cert_meta(data: Seq<u8>) -> Option<(Seq<char>, int, int)> {
    match spec_cert_der(data) {
        Option::None => Option::None,
        Option::Some(der) => match x509_meta_of(der) {
            Option::None => Option::None,
            Option::Some(t) => Option::Some(
                (dec_digits(be_bytes_val(spec_stripped_serial(t.0))), t.1, t.2),
            ),
        },
    }
}

/// Turns what the raw parser handed back into the comparable metadata:
/// strips a single leading zero byte from the serial and renders it as a
/// decimal string.
pub fn extract_meta_from_cert(raw: &RawCertMeta) -> (m: CertMeta)
    ensures
        m.serial_dec@ == dec_digits(be_bytes_val(spec_stripped_serial(raw.serial@))),
        m.not_before == raw.not_before,
        m.not_after == raw.not_after,
{
    let serial_slice: &[u8] = raw.serial.as_slice();
    let stripped: &[u8] = if serial_slice.len() > 0 && *slice_index_get(serial_slice, 0) == 0 {
        slice_subrange(serial_slice, 1, serial_slice.len())
    } else {
        slice_subrange(serial_slice, 0, serial_slice.len())
    };
    proof {
        assert(stripped@ =~= spec_stripped_serial(raw.serial@));
    }
    let serial_dec = big_endian_bytes_to_decimal(stripped);
    CertMeta { serial_dec, not_before: raw.not_before, not_after: raw.not_after }
}

/// Reads an X.509 certificate artifact and extracts its metadata. PEM is
/// tried first: the first `CERTIFICATE` block wins; a buffer without one
/// is read as DER directly.
pub fn read_cert_meta(data: &[u8]) -> (r: Result<CertMeta, CertParseError>)
    ensures
        (r is Ok) == (spec_cert_meta(data@) is Some),
        r matches Ok(m) ==> {
            &&& spec_cert_meta(data@) matches Some(t)
            &&& m.serial_dec@ == t.0
            &&& m.not_before == t.1
            &&& m.not_after == t.2
        },
        r matches Err(e) ==> (e == CertParseError::MalformedPem) == (pem_blocks_of(data@)
            is None),
{
    let blocks = match parse_pem_blocks(data) {
        Option::Some(b) => b,
        Option::None => {
            return Err(CertParseError::MalformedPem);
        },
    };
    let mut i: usize = 0;
    let n = blocks.len();
    let ghost bs = pem_blocks_of(data@)->Some_0;
    proof {
        assert(bs.skip(0) =~= bs);
    }
    while i < n
        invariant
            i <= n,
            n == blocks@.len(),
            pem_blocks_of(data@) matches Some(s) && s == bs,
            bs.len() == n,
            forall|k: int| 0 <= k < n ==> blocks@[k].label@ == bs[k].0 && blocks@[k].contents@
                == bs[k].1,
            spec_first_cert_block(bs.skip(i as int)) == spec_first_cert_block(bs),
        decreases n - i,
    {
        proof {
            assert(bs.skip(i as int).first() == bs[i as int]);
        }
        if str_eq(blocks[i].label.as_str(), "CERTIFICATE") {
            proof {
                assert(spec_first_cert_block(bs.skip(i as int)) == Some(bs[i as int].1));
            }
            return match parse_x509_meta(blocks[i].contents.as_slice()) {
                Option::Some(raw) => Ok(extract_meta_from_cert(&raw)),
                Option::None => Err(CertParseError::InvalidDer),
            };
        }
        proof {
            assert(bs.skip(i as int).drop_first() =~= bs.skip(i as int + 1));
        }
        i = i + 1;
    }
    proof {
        assert(bs.skip(n as int) =~= Seq::<(Seq<char>, Seq<u8>)>::empty());
        assert(spec_first_cert_block(bs) is None);
    }
    match parse_x509_meta(data) {
        Option::Some(raw) => Ok(extract_meta_from_cert(&raw)),
        Option::None => Err(CertParseError::InvalidDer),
    }
}

/// A certificate is valid at `now` when `not_before <= now <= not_after`,
/// inclusive on both ends.
pub open spec fn spec_cert_is_valid(not_before: int, not_after: int, now: int) -> bool {
    not_before <= now && now <= not_after
}

/// Checks whether the certificate is valid at the given UTC unix
/// timestamp. The comparison is inclusive on both ends of the validity
/// window.
pub fn cert_is_valid(meta: &CertMeta, now: i64) -> (r: bool)
    ensures
        r == spec_cert_is_valid(meta.not_before as int, meta.not_after as int, now as int),
{
    meta.not_before <= now && now <= meta.not_after
}

} // verus!
