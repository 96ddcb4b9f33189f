//! Certificates: their decompression, and what the embedder is told of those of the peer.
use crate::errors::CryptoError;
use crate::nsresult::NsResult;
use crate::thin::{
    thin_bytes, thin_extend, thin_from, thin_list_new, thin_list_push, thin_lists,
};
use thin_vec::ThinVec;
use vstd::prelude::*;

verus! {

/// What `zlib_rs::decompress_slice` makes of `input` with room for `len` bytes: the decompressed
/// bytes, or none where it reports an error.
pub uninterp spec fn inflated(input: Seq<u8>, len: nat) -> Option<Seq<u8>>;

/// Calls `zlib_rs::decompress_slice` on `input` with room for `len` bytes and the default
/// configuration. The result is named by [`inflated`]; what it gives never has more bytes than
/// there is room for.
#[verifier::external_body]
fn inflate(input: &[u8], len: usize) -> (output: Option<Vec<u8>>)
    requires
        len <= isize::MAX,
    ensures
        output is Some <==> inflated(input@, len as nat) is Some,
        output matches Some(o) ==> inflated(input@, len as nat) == Some(o@) && o@.len() <= len,
{
    let mut room = vec![0u8; len];
    let config = zlib_rs::InflateConfig::default();
    let (written, code) = zlib_rs::decompress_slice(&mut room, input, config);
    if code == zlib_rs::ReturnCode::Ok {
        Some(written.to_vec())
    } else {
        None
    }
}

/// Checks that a certificate was decompressed to its announced length.
pub fn check_inflated(output: Option<Vec<u8>>, len: usize) -> (decoded: Result<Vec<u8>, CryptoError>)
    ensures
        match output {
            Some(o) => if o@.len() == len {
                decoded matches Ok(d) && d@ == o@
            } else {
                decoded matches Err(e) && e == CryptoError::CertificateDecoding
            },
            None => decoded matches Err(e) && e == CryptoError::CertificateDecoding,
        },
{
    match output {
        Some(o) => if o.len() == len {
            Ok(o)
        } else {
            Err(CryptoError::CertificateDecoding)
        },
        None => Err(CryptoError::CertificateDecoding),
    }
}

/// Decompresses a certificate of `len` bytes that was compressed with zlib.
pub fn zlib_decode(input: &[u8], len: usize) -> (decoded: Result<Vec<u8>, CryptoError>)
    requires
        len <= isize::MAX,
    ensures
        match inflated(input@, len as nat) {
            Some(o) => if o.len() == len {
                decoded matches Ok(d) && d@ == o
            } else {
                decoded matches Err(e) && e == CryptoError::CertificateDecoding
            },
            None => decoded matches Err(e) && e == CryptoError::CertificateDecoding,
        },
{
    check_inflated(inflate(input, len), len)
}

/// How far the decompression with Brotli came.
#[derive(Clone, Copy, Debug, PartialEq, Eq, Structural)]
pub enum BrotliDecoderResult {
    Error,
    Success,
    NeedsMoreInput,
    NeedsMoreOutput,
}

/// Checks, before a certificate is decompressed with Zstandard or Brotli, that there is input
/// and that there is room for output.
pub fn check_buffers(input_len: usize, output_len: usize) -> (done: Result<(), CryptoError>)
    ensures
        done is Ok <==> input_len > 0 && output_len > 0,
        done matches Err(e) ==> e == CryptoError::CertificateDecoding,
{
    if input_len == 0 || output_len == 0 {
        return Err(CryptoError::CertificateDecoding);
    }
    Ok(())
}

/// Checks what Zstandard reports: no error, and as many bytes as were announced.
pub fn check_zstd(is_error: bool, written: usize, output_len: usize) -> (done: Result<
    (),
    CryptoError,
>)
    ensures
        done is Ok <==> !is_error && written == output_len,
        done matches Err(e) ==> e == CryptoError::CertificateDecoding,
{
    if is_error || written != output_len {
        return Err(CryptoError::CertificateDecoding);
    }
    Ok(())
}

/// Checks what Brotli reports: success, and as many bytes as were announced.
pub fn check_brotli(result: BrotliDecoderResult, written: usize, output_len: usize) -> (done: Result<
    (),
    CryptoError,
>)
    ensures
        done is Ok <==> result == BrotliDecoderResult::Success && written == output_len,
        done matches Err(e) ==> e == CryptoError::CertificateDecoding,
{
    if result != BrotliDecoderResult::Success || written != output_len {
        return Err(CryptoError::CertificateDecoding);
    }
    Ok(())
}

/// What the TLS library knows of a connection.
#[derive(Debug)]
pub struct SecretInfo {
    pub version: u16,
    pub cipher_suite: u16,
    pub key_exchange: u16,
    pub resumed: bool,
    pub early_data_accepted: bool,
    pub alpn: Option<String>,
    pub signature_scheme: u16,
    pub ech_accepted: bool,
}

/// What the embedder is told of the security of a connection.
#[derive(Debug)]
pub struct NeqoSecretInfo {
    pub set: bool,
    pub version: u16,
    pub cipher: u16,
    pub group: u16,
    pub resumed: bool,
    pub early_data: bool,
    pub alpn: String,
    pub signature_scheme: u16,
    pub ech_accepted: bool,
}

/// Tells the embedder of the security of a connection, once it is known.
pub fn tls_info(info: &Option<SecretInfo>, sec_info: &mut NeqoSecretInfo) -> (result: NsResult)
    ensures
        match *info {
            None => result == NsResult::NS_ERROR_NOT_AVAILABLE && *final(sec_info) == *old(
                sec_info,
            ),
            Some(i) => {
                &&& result == NsResult::NS_OK
                &&& final(sec_info).set
                &&& final(sec_info).version == i.version
                &&& final(sec_info).cipher == i.cipher_suite
                &&& final(sec_info).group == i.key_exchange
                &&& final(sec_info).resumed == i.resumed
                &&& final(sec_info).early_data == i.early_data_accepted
                &&& final(sec_info).alpn@ == crate::text::text_or_empty(i.alpn)
                &&& final(sec_info).signature_scheme == i.signature_scheme
                &&& final(sec_info).ech_accepted == i.ech_accepted
            },
        },
{
    match info {
        None => NsResult::NS_ERROR_NOT_AVAILABLE,
        Some(i) => {
            sec_info.set = true;
            sec_info.version = i.version;
            sec_info.cipher = i.cipher_suite;
            sec_info.group = i.key_exchange;
            sec_info.resumed = i.resumed;
            sec_info.early_data = i.early_data_accepted;
            sec_info.alpn = crate::text::or_empty(&i.alpn);
            sec_info.signature_scheme = i.signature_scheme;
            sec_info.ech_accepted = i.ech_accepted;
            NsResult::NS_OK
        },
    }
}

/// The certificates of the peer, and what came with them.
#[derive(Debug)]
pub struct PeerCertificates {
    pub certs: Vec<Vec<u8>>,
    pub stapled_ocsp_responses: Option<Vec<Vec<u8>>>,
    pub signed_cert_timestamp: Option<Vec<u8>>,
}

/// What the embedder is told of the certificates of the peer.
#[derive(Debug)]
pub struct NeqoCertificateInfo {
    pub certs: ThinVec<ThinVec<u8>>,
    pub stapled_ocsp_responses_present: bool,
    pub stapled_ocsp_responses: ThinVec<ThinVec<u8>>,
    pub signed_cert_timestamp_present: bool,
    pub signed_cert_timestamp: ThinVec<u8>,
}

/// The contents of a list of byte strings.
pub open spec fn byte_strings(list: Seq<Vec<u8>>) -> Seq<Seq<u8>> {
    list.map_values(|b: Vec<u8>| b@)
}

/// A list of byte strings in the form that the embedder takes.
fn thin_copy(list: &Vec<Vec<u8>>) -> (out: ThinVec<ThinVec<u8>>)
    ensures
        thin_lists(out) == byte_strings(list@),
{
    let mut out = thin_list_new();
    let mut i: usize = 0;
    assert(thin_lists(out) =~= byte_strings(list@.take(0)));
    while i < list.len()
        invariant
            i <= list@.len(),
            thin_lists(out) == byte_strings(list@.take(i as int)),
        decreases list@.len() - i,
    {
        thin_list_push(&mut out, thin_from(list[i].as_slice()));
        assert(thin_lists(out) =~= byte_strings(list@.take(i + 1)));
        i += 1;
    }
    assert(list@.take(i as int) =~= list@);
    out
}

/// Tells the embedder of the certificates of the peer, once they are known. A timestamp is added
/// to what the embedder holds already; responses take the place of earlier ones.
pub fn peer_certificate_info(peer: &Option<PeerCertificates>, info: &mut NeqoCertificateInfo) -> (
result: NsResult)
    ensures
        match *peer {
            None => result == NsResult::NS_ERROR_NOT_AVAILABLE && *final(info) == *old(info),
            Some(p) => {
                &&& result == NsResult::NS_OK
                &&& thin_lists(final(info).certs) == byte_strings(p.certs@)
                &&& final(info).stapled_ocsp_responses_present == (p.stapled_ocsp_responses
                    is Some)
                &&& thin_lists(final(info).stapled_ocsp_responses) == (
                match p.stapled_ocsp_responses {
                    Some(list) => byte_strings(list@),
                    None => thin_lists(old(info).stapled_ocsp_responses),
                })
                &&& final(info).signed_cert_timestamp_present == (p.signed_cert_timestamp is Some)
                &&& thin_bytes(final(info).signed_cert_timestamp) == (
                match p.signed_cert_timestamp {
                    Some(bytes) => thin_bytes(old(info).signed_cert_timestamp) + bytes@,
                    None => thin_bytes(old(info).signed_cert_timestamp),
                })
            },
        },
{
    match peer {
        None => NsResult::NS_ERROR_NOT_AVAILABLE,
        Some(p) => {
            info.certs = thin_copy(&p.certs);
            match &p.stapled_ocsp_responses {
                Some(list) => {
                    info.stapled_ocsp_responses_present = true;
                    info.stapled_ocsp_responses = thin_copy(list);
                },
                None => {
                    info.stapled_ocsp_responses_present = false;
                },
            }
            match &p.signed_cert_timestamp {
                Some(bytes) => {
                    info.signed_cert_timestamp_present = true;
                    thin_extend(&mut info.signed_cert_timestamp, bytes.as_slice());
                },
                None => {
                    info.signed_cert_timestamp_present = false;
                },
            }
            NsResult::NS_OK
        },
    }
}

/// A certificate is accepted exactly where as many bytes come out of its decompression as were
/// announced, and only these bytes; whatever fails, the certificate counts as not decoded.
pub proof fn law_announced_length_is_kept(
    input: &[u8],
    output: Option<Vec<u8>>,
    len: usize,
    decoded: Result<Vec<u8>, CryptoError>,
    unpacked: Result<Vec<u8>, CryptoError>,
)
    requires
        len <= isize::MAX,
        call_ensures(check_inflated, (output, len), decoded),
        call_ensures(zlib_decode, (input, len), unpacked),
    ensures
        decoded is Ok <==> (output matches Some(o) && o@.len() == len),
        decoded matches Ok(d) ==> output is Some && d@ == output->0@,
        unpacked matches Ok(d) ==> d@.len() == len && inflated(input@, len as nat) == Some(d@),
        unpacked is Err <==> forall|d: Seq<u8>|
            inflated(input@, len as nat) == Some(d) ==> #[trigger] d.len() != len,
        decoded matches Err(e) ==> e is CertificateDecoding,
        unpacked matches Err(e) ==> e is CertificateDecoding,
{
}

/// The other two ways of decompression are held to the same: there is something to decompress and
/// room for it, the decompression reports success, and it fills the room exactly.
pub proof fn law_other_decompressions(
    input_len: usize,
    output_len: usize,
    written: usize,
    is_error: bool,
    result: BrotliDecoderResult,
    buffers: Result<(), CryptoError>,
    zstd: Result<(), CryptoError>,
    brotli: Result<(), CryptoError>,
)
    requires
        call_ensures(check_buffers, (input_len, output_len), buffers),
        call_ensures(check_zstd, (is_error, written, output_len), zstd),
        call_ensures(check_brotli, (result, written, output_len), brotli),
    ensures
        buffers is Err <==> input_len == 0 || output_len == 0,
        is_error ==> zstd is Err,
        result is Error || result is NeedsMoreInput || result is NeedsMoreOutput ==> brotli is Err,
        zstd is Ok || brotli is Ok ==> written == output_len,
        !is_error && written == output_len ==> zstd is Ok,
        result is Success && written == output_len ==> brotli is Ok,
        buffers matches Err(e) ==> e is CertificateDecoding,
        zstd matches Err(e) ==> e is CertificateDecoding,
        brotli matches Err(e) ==> e is CertificateDecoding,
{
}

/// The embedder is told of the security of a connection what the TLS library knows, each thing in
/// its place; as long as nothing is known, nothing is told.
pub proof fn law_security_is_told(
    info: Option<SecretInfo>,
    told: &mut NeqoSecretInfo,
    result: NsResult,
)
    requires
        call_ensures(tls_info, (&info, told), result),
    ensures
        result == NsResult::NS_OK <==> info is Some,
        result == NsResult::NS_ERROR_NOT_AVAILABLE <==> info is None,
        info is None ==> *final(told) == *old(told),
        info matches Some(i) ==> {
            &&& final(told).set
            &&& final(told).version == i.version && final(told).cipher == i.cipher_suite
            &&& final(told).group == i.key_exchange
            &&& final(told).signature_scheme == i.signature_scheme
            &&& final(told).resumed <==> i.resumed
            &&& final(told).early_data <==> i.early_data_accepted
            &&& final(told).ech_accepted <==> i.ech_accepted
            &&& i.alpn matches Some(alpn) ==> final(told).alpn@ == alpn@
            &&& i.alpn is None ==> final(told).alpn@.len() == 0
        },
{
}

/// The embedder gets every certificate of the peer in order, and is told of responses and a
/// timestamp exactly where there are some; an absent one leaves what the embedder holds.
pub proof fn law_certificates_are_told(
    peer: Option<PeerCertificates>,
    told: &mut NeqoCertificateInfo,
    result: NsResult,
    i: int,
)
    requires
        call_ensures(peer_certificate_info, (&peer, told), result),
    ensures
        result == NsResult::NS_OK <==> peer is Some,
        result == NsResult::NS_ERROR_NOT_AVAILABLE <==> peer is None,
        peer is None ==> *final(told) == *old(told),
        peer matches Some(p) ==> {
            &&& thin_lists(final(told).certs).len() == p.certs@.len()
            &&& 0 <= i < p.certs@.len() ==> thin_lists(final(told).certs)[i] == p.certs@[i]@
            &&& final(told).stapled_ocsp_responses_present <==> p.stapled_ocsp_responses is Some
            &&& final(told).signed_cert_timestamp_present <==> p.signed_cert_timestamp is Some
            &&& p.stapled_ocsp_responses is None ==> thin_lists(final(told).stapled_ocsp_responses)
                == thin_lists(old(told).stapled_ocsp_responses)
            &&& p.stapled_ocsp_responses matches Some(list) ==> {
                &&& thin_lists(final(told).stapled_ocsp_responses).len() == list@.len()
                &&& 0 <= i < list@.len() ==> thin_lists(final(told).stapled_ocsp_responses)[i]
                    == list@[i]@
            }
            &&& p.signed_cert_timestamp is None ==> thin_bytes(final(told).signed_cert_timestamp)
                == thin_bytes(old(told).signed_cert_timestamp)
            &&& p.signed_cert_timestamp matches Some(bytes) ==> thin_bytes(
                final(told).signed_cert_timestamp,
            ) == thin_bytes(old(told).signed_cert_timestamp) + bytes@
        },
{
}

}
