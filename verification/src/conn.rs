//! Connections: how they are set up, what requests ask of them, and what the embedder is told of
//! the outcome.
use crate::address::SocketAddress;
use crate::errors::{Http3Error, TransportError};
use crate::headers::{header_views, parse_headers, parsed_headers, Header};
use crate::io::{
    counts_after, law_would_blocks_are_counted, read_blocks, write_blocks, SocketEvent,
    WouldBlockCounter,
};
use crate::mcquic::{default_limits, default_mcquic_client_limits, ClientLimits};
use crate::nsresult::NsResult;
use crate::text::decoded;
use vstd::prelude::*;
use vstd::string::StringSliceAdditionalSpecFns;
use vstd::utf8::{decode_utf8, valid_utf8};

verus! {

/// A congestion control algorithm.
#[derive(Clone, Copy, Debug, PartialEq, Eq, Structural)]
pub enum CongestionControl {
    NewReno,
    Cubic,
}

/// A slow start algorithm.
#[derive(Clone, Copy, Debug, PartialEq, Eq, Structural)]
pub enum SlowStart {
    Classic,
    HyStart,
    Search,
}

/// What HyStart compares round trip times with while it grows slowly.
#[derive(Clone, Copy, Debug, PartialEq, Eq, Structural)]
pub enum HyStartCssBaseline {
    EntryThreshold,
    CurrentRoundMinRtt,
}

/// A group for the key exchange.
#[derive(Clone, Copy, Debug, PartialEq, Eq, Structural)]
pub enum KeyGroup {
    Mlkem768X25519,
    X25519,
    Secp256R1,
    Secp384R1,
    Secp521R1,
}

/// The preferences on which a new connection depends.
#[derive(Clone, Copy, Debug, PartialEq, Eq, Structural)]
pub struct ConnectionPreferences {
    /// Whether connections are being fuzzed.
    pub fuzzing: bool,
    pub cc_algorithm: u32,
    pub slow_start_algorithm: u32,
    pub pmtud: bool,
    pub spurious_recovery: bool,
    pub hystart_alternative_css_baseline: bool,
    pub grease: bool,
    pub sni_slicing: bool,
    pub send_p256_keyshare: bool,
    pub tls_enable_kyber: bool,
    pub http3_enable_kyber: bool,
    pub tls_certificate_compression_zlib: bool,
    pub http3_certificate_compression_zlib: bool,
    pub tls_certificate_compression_zstd: bool,
    pub http3_certificate_compression_zstd: bool,
    pub tls_certificate_compression_brotli: bool,
    pub http3_certificate_compression_brotli: bool,
}

/// What the embedder asks of a new connection.
#[derive(Clone, Copy, Debug, PartialEq, Eq, Structural)]
pub struct ConnectionRequest {
    pub max_table_size: u64,
    pub max_blocked_streams: u16,
    pub max_data: u64,
    pub max_stream_data: u64,
    pub version_negotiation: bool,
    pub webtransport: bool,
    pub mcquic_enabled: bool,
    pub idle_timeout: u32,
    pub fast_pto: u32,
    pub pmtud_enabled: bool,
    /// Whether datagrams of the socket may be fragmented; none where the embedder's own sockets
    /// are used.
    pub socket_may_fragment: Option<bool>,
}

/// What a client that takes part in multicast tells the server.
#[derive(Clone, Copy, Debug, PartialEq, Eq, Structural)]
pub struct McquicClientParams {
    pub limits: ClientLimits,
    pub hash_algorithm: u16,
    pub encryption_algorithm: u16,
}

/// How a new connection is set up.
#[derive(Clone, Copy, Debug, PartialEq, Eq, Structural)]
pub struct ConnectionConfig {
    /// Whether every version of QUIC may be negotiated; otherwise only version 1.
    pub all_versions: bool,
    pub congestion_control: CongestionControl,
    pub slow_start: SlowStart,
    pub max_data: u64,
    pub max_stream_data: u64,
    pub grease: bool,
    pub sni_slicing: bool,
    /// Milliseconds.
    pub idle_timeout: u64,
    pub pmtud: bool,
    pub spurious_recovery: bool,
    pub css_baseline: HyStartCssBaseline,
    /// How the probe timeout is scaled; none for what the protocol says.
    pub fast_pto: Option<u8>,
    pub mcquic: Option<McquicClientParams>,
    pub max_table_size: u64,
    pub max_blocked_streams: u16,
    pub webtransport: bool,
    /// Whether the groups of [`post_quantum_groups`] are offered.
    pub offer_post_quantum: bool,
    pub additional_key_shares: usize,
    pub zlib: bool,
    pub zstd: bool,
    pub brotli: bool,
}

/// The congestion control algorithm that a preference names.
pub open spec fn congestion_control(preference: u32) -> CongestionControl {
    if preference == 0 {
        CongestionControl::NewReno
    } else {
        CongestionControl::Cubic
    }
}

/// The slow start algorithm that a preference names.
pub open spec fn slow_start(preference: u32) -> SlowStart {
    if preference == 1 {
        SlowStart::HyStart
    } else if preference == 2 {
        SlowStart::Search
    } else {
        SlowStart::Classic
    }
}

/// After how many milliseconds without a packet a connection is over. What the embedder asks for
/// is in seconds; a connection that is being fuzzed does not last.
pub open spec fn idle_timeout(request: ConnectionRequest, prefs: ConnectionPreferences) -> u64 {
    if prefs.fuzzing {
        10
    } else {
        (request.idle_timeout * 1000) as u64
    }
}

/// Whether the path is probed for larger datagrams: where the embedder or a preference asks for
/// it, but not without a socket of its own, nor where the socket lets datagrams be fragmented.
pub open spec fn pmtud(request: ConnectionRequest, prefs: ConnectionPreferences) -> bool {
    (request.pmtud_enabled || prefs.pmtud) && request.socket_may_fragment == Some(false)
}

/// Whether a post-quantum key exchange is offered.
pub open spec fn offers_post_quantum(prefs: ConnectionPreferences) -> bool {
    prefs.tls_enable_kyber && prefs.http3_enable_kyber
}

/// How a new connection is set up.
pub open spec fn connection_config(
    request: ConnectionRequest,
    prefs: ConnectionPreferences,
) -> ConnectionConfig {
    ConnectionConfig {
        all_versions: request.version_negotiation,
        congestion_control: congestion_control(prefs.cc_algorithm),
        slow_start: slow_start(prefs.slow_start_algorithm),
        max_data: request.max_data,
        max_stream_data: request.max_stream_data,
        grease: prefs.grease,
        sni_slicing: prefs.sni_slicing,
        idle_timeout: idle_timeout(request, prefs),
        pmtud: pmtud(request, prefs),
        spurious_recovery: prefs.spurious_recovery,
        css_baseline: if prefs.hystart_alternative_css_baseline {
            HyStartCssBaseline::EntryThreshold
        } else {
            HyStartCssBaseline::CurrentRoundMinRtt
        },
        fast_pto: if 0 < request.fast_pto <= u8::MAX {
            Some(request.fast_pto as u8)
        } else {
            None
        },
        mcquic: if request.mcquic_enabled {
            Some(
                McquicClientParams {
                    limits: default_limits(),
                    hash_algorithm: 1,
                    encryption_algorithm: 0x1301,
                },
            )
        } else {
            None
        },
        max_table_size: request.max_table_size,
        max_blocked_streams: request.max_blocked_streams,
        webtransport: request.webtransport,
        offer_post_quantum: offers_post_quantum(prefs),
        additional_key_shares: ((if prefs.send_p256_keyshare {
            1int
        } else {
            0int
        }) + (if offers_post_quantum(prefs) {
            1int
        } else {
            0int
        })) as usize,
        zlib: prefs.tls_certificate_compression_zlib && prefs.http3_certificate_compression_zlib,
        zstd: prefs.tls_certificate_compression_zstd && prefs.http3_certificate_compression_zstd,
        brotli: prefs.tls_certificate_compression_brotli
            && prefs.http3_certificate_compression_brotli,
    }
}

/// The groups that are offered where a post-quantum key exchange is, the preferred one first.
pub fn post_quantum_groups() -> (groups: Vec<KeyGroup>)
    ensures
        groups@ == seq![
            KeyGroup::Mlkem768X25519,
            KeyGroup::X25519,
            KeyGroup::Secp256R1,
            KeyGroup::Secp384R1,
            KeyGroup::Secp521R1,
        ],
{
    let mut groups: Vec<KeyGroup> = Vec::new();
    groups.push(KeyGroup::Mlkem768X25519);
    groups.push(KeyGroup::X25519);
    groups.push(KeyGroup::Secp256R1);
    groups.push(KeyGroup::Secp384R1);
    groups.push(KeyGroup::Secp521R1);
    assert(groups@ =~= seq![
        KeyGroup::Mlkem768X25519,
        KeyGroup::X25519,
        KeyGroup::Secp256R1,
        KeyGroup::Secp384R1,
        KeyGroup::Secp521R1,
    ]);
    groups
}

/// The file descriptor that the embedder hands over, where it is one.
pub fn check_socket(socket: i64) -> (fd: Result<i32, NsResult>)
    ensures
        fd == (if socket == -1 || socket > i32::MAX || socket < i32::MIN {
            Err::<i32, NsResult>(NsResult::NS_ERROR_INVALID_ARG)
        } else {
            Ok::<i32, NsResult>(socket as i32)
        }),
{
    if socket == -1 || socket > i32::MAX as i64 || socket < i32::MIN as i64 {
        return Err(NsResult::NS_ERROR_INVALID_ARG);
    }
    Ok(socket as i32)
}

/// Where a new connection leads: the name of its origin, and its two ends.
#[derive(Debug)]
pub struct ConnectionTarget {
    pub origin: String,
    pub local: SocketAddress,
    pub remote: SocketAddress,
}

/// Why a connection cannot be set up, where it cannot. The first thing that is wrong counts: the
/// name of the origin, the name of the protocol, the local and the remote address, and last
/// whether the protocol is HTTP/3.
pub open spec fn target_error(
    origin: Seq<u8>,
    alpn: Seq<u8>,
    local: Result<SocketAddress, NsResult>,
    remote: Result<SocketAddress, NsResult>,
) -> Option<NsResult> {
    if !valid_utf8(origin) || !valid_utf8(alpn) {
        Some(NsResult::NS_ERROR_INVALID_ARG)
    } else {
        match local {
            Err(e) => Some(e),
            Ok(_) => match remote {
                Err(e) => Some(e),
                Ok(_) => if alpn == "h3".spec_bytes() {
                    None
                } else {
                    Some(NsResult::NS_ERROR_INVALID_ARG)
                },
            },
        }
    }
}

/// Checks where a new connection is to lead.
pub fn connection_target(
    origin: &[u8],
    alpn: &[u8],
    local: Result<SocketAddress, NsResult>,
    remote: Result<SocketAddress, NsResult>,
) -> (target: Result<ConnectionTarget, NsResult>)
    ensures
        match target_error(origin@, alpn@, local, remote) {
            Some(e) => target matches Err(x) && x == e,
            None => target matches Ok(t) && t.origin@ == decode_utf8(origin@)
                && local == Ok::<SocketAddress, NsResult>(t.local)
                && remote == Ok::<SocketAddress, NsResult>(t.remote),
        },
{
    let origin = match decoded(origin) {
        Some(origin) => origin,
        None => {
            return Err(NsResult::NS_ERROR_INVALID_ARG);
        },
    };
    if decoded(alpn).is_none() {
        return Err(NsResult::NS_ERROR_INVALID_ARG);
    }
    let local = local?;
    let remote = remote?;
    if !crate::bytes::is_text(alpn, "h3") {
        return Err(NsResult::NS_ERROR_INVALID_ARG);
    }
    Ok(ConnectionTarget { origin, local, remote })
}

/// Decides how a new connection is set up.
pub fn configure(request: &ConnectionRequest, prefs: &ConnectionPreferences) -> (config:
    ConnectionConfig)
    ensures
        config == connection_config(*request, *prefs),
{
    let congestion_control = match prefs.cc_algorithm {
        0 => CongestionControl::NewReno,
        _ => CongestionControl::Cubic,
    };
    let slow_start = match prefs.slow_start_algorithm {
        1 => SlowStart::HyStart,
        2 => SlowStart::Search,
        _ => SlowStart::Classic,
    };
    let fragmentable = match request.socket_may_fragment {
        Some(may_fragment) => may_fragment,
        None => true,
    };
    let idle_timeout: u64 = if prefs.fuzzing {
        10
    } else {
        request.idle_timeout as u64 * 1000
    };
    let pmtud = (request.pmtud_enabled || prefs.pmtud) && !fragmentable;
    let css_baseline = if prefs.hystart_alternative_css_baseline {
        HyStartCssBaseline::EntryThreshold
    } else {
        HyStartCssBaseline::CurrentRoundMinRtt
    };
    let fast_pto: Option<u8> = if request.fast_pto > 0 && request.fast_pto <= u8::MAX as u32 {
        Some(request.fast_pto as u8)
    } else {
        None
    };
    let mcquic = if request.mcquic_enabled {
        Some(
            McquicClientParams {
                limits: default_mcquic_client_limits(),
                hash_algorithm: 1,
                encryption_algorithm: 0x1301,
            },
        )
    } else {
        None
    };
    let offer_post_quantum = prefs.tls_enable_kyber && prefs.http3_enable_kyber;
    let mut additional_key_shares: usize = 0;
    if prefs.send_p256_keyshare {
        additional_key_shares += 1;
    }
    if offer_post_quantum {
        additional_key_shares += 1;
    }
    ConnectionConfig {
        all_versions: request.version_negotiation,
        congestion_control,
        slow_start,
        max_data: request.max_data,
        max_stream_data: request.max_stream_data,
        grease: prefs.grease,
        sni_slicing: prefs.sni_slicing,
        idle_timeout,
        pmtud,
        spurious_recovery: prefs.spurious_recovery,
        css_baseline,
        fast_pto,
        mcquic,
        max_table_size: request.max_table_size,
        max_blocked_streams: request.max_blocked_streams,
        webtransport: request.webtransport,
        offer_post_quantum,
        additional_key_shares,
        zlib: prefs.tls_certificate_compression_zlib && prefs.http3_certificate_compression_zlib,
        zstd: prefs.tls_certificate_compression_zstd && prefs.http3_certificate_compression_zstd,
        brotli: prefs.tls_certificate_compression_brotli
            && prefs.http3_certificate_compression_brotli,
    }
}

/// Whether a character is a hexadecimal digit, with small letters.
pub open spec fn is_hex_digit(c: char) -> bool {
    ('0' <= c && c <= '9') || ('a' <= c && c <= 'f')
}

/// Whether a text is a random identifier in its usual form: five groups of hexadecimal digits
/// with hyphens between them, of which two digits tell the version and the variant.
pub open spec fn is_hyphenated_uuid(text: Seq<char>) -> bool {
    &&& text.len() == 36
    &&& text[8] == '-' && text[13] == '-' && text[18] == '-' && text[23] == '-'
    &&& text[14] == '4'
    &&& text[19] == '8' || text[19] == '9' || text[19] == 'a' || text[19] == 'b'
    &&& forall|i: int|
        0 <= i < 36 && i != 8 && i != 13 && i != 18 && i != 23 ==> is_hex_digit(#[trigger] text[i])
}

/// Calls `uuid::Uuid::new_v4` and writes the result as text. It is random; what holds of every
/// one is its form.
#[verifier::external_body]
fn new_uuid() -> (text: String)
    ensures
        is_hyphenated_uuid(text@),
{
    uuid::Uuid::new_v4().to_string()
}

/// Where the log of a connection is written.
#[derive(Debug)]
pub struct QlogRequest {
    pub dir: String,
    pub file_name: String,
}

/// The name of a log: the origin and an identifier.
pub open spec fn log_name(origin: Seq<char>, id: Seq<char>) -> Seq<char> {
    origin + "_"@ + id + ".qlog"@
}

/// The name of a log: the origin and an identifier.
pub fn qlog_file_name(origin: &str, id: &str) -> (name: String)
    ensures
        name@ == log_name(origin@, id@),
{
    let mut name = origin.to_owned();
    name.append("_");
    name.append(id);
    name.append(".qlog");
    name
}

/// Where the log of a connection is written, if at all. The name holds a fresh random
/// identifier, so that it is not fixed by the arguments.
pub fn qlog_request(qlog_dir: &[u8], origin: &str) -> (request: Result<Option<QlogRequest>, NsResult>)
    ensures
        request matches Err(e) ==> e == NsResult::NS_ERROR_INVALID_ARG,
        request is Err <==> !valid_utf8(qlog_dir@),
        request matches Ok(r) ==> {
            &&& r is None <==> qlog_dir@.len() == 0
            &&& r matches Some(q) ==> q.dir@ == decode_utf8(qlog_dir@) && exists|id: Seq<char>|
                #[trigger] is_hyphenated_uuid(id) && q.file_name@ == log_name(origin@, id)
        },
{
    let dir = match decoded(qlog_dir) {
        Some(dir) => dir,
        None => {
            return Err(NsResult::NS_ERROR_INVALID_ARG);
        },
    };
    if qlog_dir.len() == 0 {
        return Ok(None);
    }
    let id = new_uuid();
    let file_name = qlog_file_name(origin, id.as_str());
    assert(is_hyphenated_uuid(id@) && file_name@ == log_name(origin@, id@));
    Ok(Some(QlogRequest { dir, file_name }))
}

/// A request, with its texts checked.
#[derive(Debug)]
pub struct FetchRequest {
    pub method: String,
    pub scheme: String,
    pub host: String,
    pub path: String,
    pub headers: Vec<Header>,
}

/// Why a request is refused, where it is: for its header fields first.
pub open spec fn request_error(headers: Seq<u8>, texts_valid: bool, urgency: u8) -> Option<
    NsResult,
> {
    if parsed_headers(headers) is None {
        Some(NsResult::NS_ERROR_DOM_INVALID_HEADER_NAME)
    } else if !texts_valid || urgency >= 8 {
        Some(NsResult::NS_ERROR_INVALID_ARG)
    } else {
        None
    }
}

/// Checks a request.
pub fn fetch_request(
    method: &[u8],
    scheme: &[u8],
    host: &[u8],
    path: &[u8],
    headers: &[u8],
    urgency: u8,
) -> (request: Result<FetchRequest, NsResult>)
    ensures
        match request_error(
            headers@,
            valid_utf8(method@) && valid_utf8(scheme@) && valid_utf8(host@) && valid_utf8(path@),
            urgency,
        ) {
            Some(e) => request matches Err(x) && x == e,
            None => request matches Ok(r) && r.method@ == decode_utf8(method@) && r.scheme@
                == decode_utf8(scheme@) && r.host@ == decode_utf8(host@) && r.path@
                == decode_utf8(path@) && Some(header_views(r.headers@)) == parsed_headers(
                headers@,
            ),
        },
{
    let headers = parse_headers(headers)?;
    let invalid = NsResult::NS_ERROR_INVALID_ARG;
    let method = match decoded(method) {
        Some(text) => text,
        None => {
            return Err(invalid);
        },
    };
    let scheme = match decoded(scheme) {
        Some(text) => text,
        None => {
            return Err(invalid);
        },
    };
    let host = match decoded(host) {
        Some(text) => text,
        None => {
            return Err(invalid);
        },
    };
    let path = match decoded(path) {
        Some(text) => text,
        None => {
            return Err(invalid);
        },
    };
    if urgency >= 8 {
        return Err(invalid);
    }
    Ok(FetchRequest { method, scheme, host, path, headers })
}

/// A request to connect to a host, with its texts checked.
#[derive(Debug)]
pub struct ConnectRequest {
    pub host: String,
    pub headers: Vec<Header>,
}

/// Checks a request to connect to a host.
pub fn connect_request(host: &[u8], headers: &[u8], urgency: u8) -> (request: Result<
    ConnectRequest,
    NsResult,
>)
    ensures
        match request_error(headers@, valid_utf8(host@), urgency) {
            Some(e) => request matches Err(x) && x == e,
            None => request matches Ok(r) && r.host@ == decode_utf8(host@) && Some(
                header_views(r.headers@),
            ) == parsed_headers(headers@),
        },
{
    let headers = parse_headers(headers)?;
    let host = match decoded(host) {
        Some(text) => text,
        None => {
            return Err(NsResult::NS_ERROR_INVALID_ARG);
        },
    };
    if urgency >= 8 {
        return Err(NsResult::NS_ERROR_INVALID_ARG);
    }
    Ok(ConnectRequest { host, headers })
}

/// A request for a session, with its texts checked. Its scheme is `https`.
#[derive(Debug)]
pub struct SessionRequest {
    pub host: String,
    pub path: String,
    pub headers: Vec<Header>,
}

/// Checks a request for a session.
pub fn session_request(host: &[u8], path: &[u8], headers: &[u8]) -> (request: Result<
    SessionRequest,
    NsResult,
>)
    ensures
        match request_error(headers@, valid_utf8(host@) && valid_utf8(path@), 0) {
            Some(e) => request matches Err(x) && x == e,
            None => request matches Ok(r) && r.host@ == decode_utf8(host@) && r.path@
                == decode_utf8(path@) && Some(header_views(r.headers@)) == parsed_headers(
                headers@,
            ),
        },
{
    let headers = parse_headers(headers)?;
    let host = match decoded(host) {
        Some(text) => text,
        None => {
            return Err(NsResult::NS_ERROR_INVALID_ARG);
        },
    };
    let path = match decoded(path) {
        Some(text) => text,
        None => {
            return Err(NsResult::NS_ERROR_INVALID_ARG);
        },
    };
    Ok(SessionRequest { host, path, headers })
}

/// Checks the urgency of a request.
pub fn check_urgency(urgency: u8) -> (result: NsResult)
    ensures
        result == (if urgency >= 8 {
            NsResult::NS_ERROR_INVALID_ARG
        } else {
            NsResult::NS_OK
        }),
{
    if urgency >= 8 {
        NsResult::NS_ERROR_INVALID_ARG
    } else {
        NsResult::NS_OK
    }
}

/// What the embedder is told once a stream was to be opened: its number, that it has to wait, or
/// that it failed.
pub fn stream_opened(opened: Result<u64, Http3Error>, stream_id: &mut u64) -> (result: NsResult)
    ensures
        match opened {
            Ok(id) => result == NsResult::NS_OK && *final(stream_id) == id,
            Err(Http3Error::StreamLimit) => result == NsResult::NS_BASE_STREAM_WOULD_BLOCK
                && *final(stream_id) == *old(stream_id),
            Err(_) => result == NsResult::NS_ERROR_UNEXPECTED && *final(stream_id) == *old(
                stream_id,
            ),
        },
{
    match opened {
        Ok(id) => {
            *stream_id = id;
            NsResult::NS_OK
        },
        Err(Http3Error::StreamLimit) => NsResult::NS_BASE_STREAM_WOULD_BLOCK,
        Err(_) => NsResult::NS_ERROR_UNEXPECTED,
    }
}

/// What the embedder is told of an operation that either works or has the given error.
pub fn done_or(done: bool, error: NsResult) -> (result: NsResult)
    ensures
        result == (if done {
            NsResult::NS_OK
        } else {
            error
        }),
{
    if done {
        NsResult::NS_OK
    } else {
        error
    }
}

/// What the embedder is told once the body of a request was to be sent; none where sending
/// failed.
pub fn body_sent(sent: Option<usize>, read: &mut u32) -> (result: NsResult)
    ensures
        match sent {
            Some(amount) => if amount <= u32::MAX {
                &&& *final(read) == amount
                &&& result == (if amount == 0 {
                    NsResult::NS_BASE_STREAM_WOULD_BLOCK
                } else {
                    NsResult::NS_OK
                })
            } else {
                result == NsResult::NS_ERROR_UNEXPECTED && *final(read) == *old(read)
            },
            None => result == NsResult::NS_ERROR_UNEXPECTED && *final(read) == *old(read),
        },
{
    match sent {
        Some(amount) => {
            if amount as u64 > u32::MAX as u64 {
                return NsResult::NS_ERROR_UNEXPECTED;
            }
            *read = amount as u32;
            if amount == 0 {
                NsResult::NS_BASE_STREAM_WOULD_BLOCK
            } else {
                NsResult::NS_OK
            }
        },
        None => NsResult::NS_ERROR_UNEXPECTED,
    }
}

/// What the embedder is told once the body of a response was to be read: how much was, and
/// whether it ended.
pub fn response_read(
    outcome: Result<(usize, bool), Http3Error>,
    read: &mut u32,
    fin: &mut bool,
) -> (result: NsResult)
    ensures
        match outcome {
            Ok((amount, ended)) => if amount <= u32::MAX {
                &&& *final(read) == amount
                &&& *final(fin) == ended
                &&& result == (if amount == 0 && !ended {
                    NsResult::NS_BASE_STREAM_WOULD_BLOCK
                } else {
                    NsResult::NS_OK
                })
            } else {
                &&& *final(read) == *old(read)
                &&& *final(fin) == *old(fin)
                &&& result == NsResult::NS_ERROR_NET_HTTP3_PROTOCOL_ERROR
            },
            Err(e) => {
                &&& *final(read) == *old(read)
                &&& *final(fin) == *old(fin)
                &&& result == (match e {
                    Http3Error::InvalidStreamId => NsResult::NS_ERROR_INVALID_ARG,
                    Http3Error::Transport(TransportError::NoMoreData) => {
                        NsResult::NS_ERROR_INVALID_ARG
                    },
                    _ => NsResult::NS_ERROR_NET_HTTP3_PROTOCOL_ERROR,
                })
            },
        },
{
    match outcome {
        Ok((amount, ended)) => {
            if amount as u64 > u32::MAX as u64 {
                return NsResult::NS_ERROR_NET_HTTP3_PROTOCOL_ERROR;
            }
            *read = amount as u32;
            *fin = ended;
            if amount == 0 && !ended {
                NsResult::NS_BASE_STREAM_WOULD_BLOCK
            } else {
                NsResult::NS_OK
            }
        },
        Err(e) => match e {
            Http3Error::InvalidStreamId => NsResult::NS_ERROR_INVALID_ARG,
            Http3Error::Transport(TransportError::NoMoreData) => NsResult::NS_ERROR_INVALID_ARG,
            _ => NsResult::NS_ERROR_NET_HTTP3_PROTOCOL_ERROR,
        },
    }
}

/// The message with which a session is closed, where it is a text.
pub fn close_message(message: &[u8]) -> (text: Result<String, NsResult>)
    ensures
        match text {
            Ok(t) => valid_utf8(message@) && t@ == decode_utf8(message@),
            Err(e) => !valid_utf8(message@) && e == NsResult::NS_ERROR_INVALID_ARG,
        },
{
    match decoded(message) {
        Some(text) => Ok(text),
        None => Err(NsResult::NS_ERROR_INVALID_ARG),
    }
}

/// The identifier under which the fate of a datagram is followed; zero is none.
pub fn tracking_id(id: u64) -> (tracking: Option<u64>)
    ensures
        tracking == (if id == 0 {
            None
        } else {
            Some(id)
        }),
{
    if id == 0 {
        None
    } else {
        Some(id)
    }
}

/// What the embedder is told once a datagram was to be sent.
pub fn datagram_sent(sent: &Result<(), Http3Error>) -> (result: NsResult)
    ensures
        result == (match *sent {
            Ok(()) => NsResult::NS_OK,
            Err(Http3Error::Transport(TransportError::TooMuchData)) => {
                NsResult::NS_ERROR_NOT_AVAILABLE
            },
            Err(_) => NsResult::NS_ERROR_UNEXPECTED,
        }),
{
    match sent {
        Ok(()) => NsResult::NS_OK,
        Err(e) => match e {
            Http3Error::Transport(TransportError::TooMuchData) => NsResult::NS_ERROR_NOT_AVAILABLE,
            _ => NsResult::NS_ERROR_UNEXPECTED,
        },
    }
}

/// What the embedder is told of the largest datagram of a session.
pub fn max_datagram_size(size: Option<u64>, result: &mut u64) -> (code: NsResult)
    ensures
        match size {
            Some(n) => code == NsResult::NS_OK && *final(result) == n,
            None => code == NsResult::NS_ERROR_UNEXPECTED && *final(result) == *old(result),
        },
{
    match size {
        Some(n) => {
            *result = n;
            NsResult::NS_OK
        },
        None => NsResult::NS_ERROR_UNEXPECTED,
    }
}

/// What was counted on a connection, as the embedder gets it.
#[derive(Clone, Copy, Debug)]
pub struct Http3Stats {
    /// Total packets received, including all the bad ones.
    pub packets_rx: usize,
    /// Duplicate packets received.
    pub dups_rx: usize,
    /// Dropped packets or dropped garbage.
    pub dropped_rx: usize,
    /// The number of packets that were saved for later processing.
    pub saved_datagrams: usize,
    /// Total packets sent.
    pub packets_tx: usize,
    /// Total number of packets that are declared lost.
    pub lost: usize,
    /// Late acknowledgments, for packets that were declared lost already.
    pub late_ack: usize,
    /// Acknowledgments for packets that contained data that was marked for retransmission when
    /// the probe timer fired.
    pub pto_ack: usize,
    /// How often the probe timer fired once, twice in a row, and so on.
    pub pto_counts: [usize; 16],
    /// How often the socket was not ready to be read.
    pub would_block_rx: usize,
    /// How often the socket was not ready to be written to.
    pub would_block_tx: usize,
}

/// What the transport counted on a connection.
#[derive(Clone, Copy, Debug)]
pub struct PacketStats {
    pub packets_rx: usize,
    pub dups_rx: usize,
    pub dropped_rx: usize,
    pub saved_datagrams: usize,
    pub packets_tx: usize,
    pub lost: usize,
    pub late_ack: usize,
    pub pto_ack: usize,
    pub pto_counts: [usize; 16],
}

/// What is reported of a connection.
pub open spec fn http3_stats(packets: PacketStats, counter: WouldBlockCounter) -> Http3Stats {
    Http3Stats {
        packets_rx: packets.packets_rx,
        dups_rx: packets.dups_rx,
        dropped_rx: packets.dropped_rx,
        saved_datagrams: packets.saved_datagrams,
        packets_tx: packets.packets_tx,
        lost: packets.lost,
        late_ack: packets.late_ack,
        pto_ack: packets.pto_ack,
        pto_counts: packets.pto_counts,
        would_block_rx: counter.rx(),
        would_block_tx: counter.tx(),
    }
}

/// The reported counts are the numbers of times that the socket was not ready to be read and to
/// be written to, over all that happened at it since the connection was made.
pub proof fn law_reported_would_blocks(
    packets: PacketStats,
    counter: WouldBlockCounter,
    events: Seq<SocketEvent>,
)
    requires
        counter.counts() == counts_after(events),
    ensures
        http3_stats(packets, counter).would_block_rx == events.filter(
            |e: SocketEvent| read_blocks(e),
        ).len(),
        http3_stats(packets, counter).would_block_tx == events.filter(
            |e: SocketEvent| write_blocks(e),
        ).len(),
{
    law_would_blocks_are_counted(events);
}

/// What was counted on a connection.
pub fn get_stats(packets: &PacketStats, counter: &WouldBlockCounter) -> (stats: Http3Stats)
    ensures
        stats == http3_stats(*packets, *counter),
{
    Http3Stats {
        packets_rx: packets.packets_rx,
        dups_rx: packets.dups_rx,
        dropped_rx: packets.dropped_rx,
        saved_datagrams: packets.saved_datagrams,
        packets_tx: packets.packets_tx,
        lost: packets.lost,
        late_ack: packets.late_ack,
        pto_ack: packets.pto_ack,
        pto_counts: packets.pto_counts,
        would_block_rx: counter.rx_count(),
        would_block_tx: counter.tx_count(),
    }
}

/// How many key shares are sent besides the usual one: one for each of the two that a preference
/// asks for. A post-quantum key exchange needs both of its preferences.
pub proof fn law_key_shares(request: ConnectionRequest, prefs: ConnectionPreferences)
    ensures
        ({
            let config = connection_config(request, prefs);
            &&& config.additional_key_shares <= 2
            &&& config.additional_key_shares == 2 <==> prefs.send_p256_keyshare
                && config.offer_post_quantum
            &&& config.additional_key_shares == 0 <==> !prefs.send_p256_keyshare
                && !config.offer_post_quantum
        }),
{
}

/// Without a socket of its own, or with one whose datagrams may be fragmented, a connection does
/// not probe the path, whoever asks for it.
pub proof fn law_no_pmtud_without_socket(request: ConnectionRequest, prefs: ConnectionPreferences)
    requires
        request.socket_may_fragment != Some(false),
    ensures
        !connection_config(request, prefs).pmtud,
{
}

/// The algorithms of a new connection are those that the preferences name, each by its number:
/// New Reno is the only one besides CUBIC, and slow start is the classic one but for two numbers.
pub proof fn law_algorithms(
    request: ConnectionRequest,
    prefs: ConnectionPreferences,
    config: ConnectionConfig,
)
    requires
        call_ensures(configure, (&request, &prefs), config),
    ensures
        config.congestion_control is NewReno <==> prefs.cc_algorithm == 0,
        config.congestion_control is Cubic <==> prefs.cc_algorithm != 0,
        config.slow_start is HyStart <==> prefs.slow_start_algorithm == 1,
        config.slow_start is Search <==> prefs.slow_start_algorithm == 2,
        config.slow_start is Classic <==> prefs.slow_start_algorithm != 1
            && prefs.slow_start_algorithm != 2,
        config.css_baseline is EntryThreshold <==> prefs.hystart_alternative_css_baseline,
        config.css_baseline is CurrentRoundMinRtt <==> !prefs.hystart_alternative_css_baseline,
        config.spurious_recovery <==> prefs.spurious_recovery,
        config.grease <==> prefs.grease,
        config.sni_slicing <==> prefs.sni_slicing,
{
}

/// What the embedder asks for is what a new connection gets, each thing in its place: the times in
/// milliseconds, the scale of the probe timeout only from 1 to 255, and multicast with the
/// algorithms that there are.
pub proof fn law_requests_are_met(
    request: ConnectionRequest,
    prefs: ConnectionPreferences,
    config: ConnectionConfig,
)
    requires
        call_ensures(configure, (&request, &prefs), config),
    ensures
        config.all_versions <==> request.version_negotiation,
        config.webtransport <==> request.webtransport,
        config.max_data == request.max_data,
        config.max_stream_data == request.max_stream_data,
        config.max_table_size == request.max_table_size,
        config.max_blocked_streams == request.max_blocked_streams,
        prefs.fuzzing ==> config.idle_timeout == 10,
        !prefs.fuzzing ==> config.idle_timeout / 1000 == request.idle_timeout
            && config.idle_timeout % 1000 == 0,
        config.fast_pto is Some <==> 1 <= request.fast_pto <= 255,
        config.fast_pto matches Some(scale) ==> scale == request.fast_pto,
        config.mcquic is Some <==> request.mcquic_enabled,
        config.mcquic matches Some(params) ==> params.hash_algorithm == 1
            && params.encryption_algorithm == 0x1301 && params.limits.ipv4_channels_allowed
            && params.limits.ipv6_channels_allowed && params.limits.max_aggregate_rate_kibps
            == 100_000 && params.limits.max_channel_ids == 32,
        config.pmtud <==> request.socket_may_fragment == Some(false) && (request.pmtud_enabled
            || prefs.pmtud),
{
}

/// A way to compress certificates is offered where it is enabled both for TLS and for HTTP/3, and
/// so is a post-quantum key exchange, whose groups start with the hybrid one and hold each of the
/// classical ones once.
pub proof fn law_offers_need_both_preferences(
    request: ConnectionRequest,
    prefs: ConnectionPreferences,
    config: ConnectionConfig,
    groups: Vec<KeyGroup>,
)
    requires
        call_ensures(configure, (&request, &prefs), config),
        call_ensures(post_quantum_groups, (), groups),
    ensures
        config.zlib <==> prefs.tls_certificate_compression_zlib
            && prefs.http3_certificate_compression_zlib,
        config.zstd <==> prefs.tls_certificate_compression_zstd
            && prefs.http3_certificate_compression_zstd,
        config.brotli <==> prefs.tls_certificate_compression_brotli
            && prefs.http3_certificate_compression_brotli,
        config.offer_post_quantum <==> prefs.tls_enable_kyber && prefs.http3_enable_kyber,
        config.additional_key_shares == (if prefs.send_p256_keyshare {
            1int
        } else {
            0
        }) + (if prefs.tls_enable_kyber && prefs.http3_enable_kyber {
            1int
        } else {
            0
        }),
        groups@.len() == 5 && groups@.no_duplicates(),
        groups@[0] is Mlkem768X25519 && groups@[1] is X25519 && groups@[2] is Secp256R1
            && groups@[3] is Secp384R1 && groups@[4] is Secp521R1,
{
}

/// A descriptor is one that fits and is not the one that stands for none.
pub proof fn law_descriptors(socket: i64, fd: Result<i32, NsResult>)
    requires
        call_ensures(check_socket, (socket,), fd),
    ensures
        fd is Ok <==> socket != -1 && -0x8000_0000 <= socket <= 0x7fff_ffff,
        fd matches Ok(n) ==> n == socket,
        fd matches Err(e) ==> e == NsResult::NS_ERROR_INVALID_ARG,
{
}

/// A connection is made only for HTTP/3, between two addresses that were understood, under a name
/// that is text. An address that was not understood is reported as it was.
pub proof fn law_targets(
    origin: &[u8],
    alpn: &[u8],
    local: Result<SocketAddress, NsResult>,
    remote: Result<SocketAddress, NsResult>,
    target: Result<ConnectionTarget, NsResult>,
)
    requires
        call_ensures(connection_target, (origin, alpn, local, remote), target),
    ensures
        target is Ok <==> valid_utf8(origin@) && alpn@ == seq![0x68u8, 0x33] && local is Ok
            && remote is Ok,
        target matches Ok(t) ==> t.origin@ == decode_utf8(origin@) && local->Ok_0 == t.local
            && remote->Ok_0 == t.remote,
        !valid_utf8(origin@) || !valid_utf8(alpn@) ==> target is Err && target->Err_0
            == NsResult::NS_ERROR_INVALID_ARG,
        valid_utf8(origin@) && valid_utf8(alpn@) && local is Err ==> target is Err && target->Err_0
            == local->Err_0,
        valid_utf8(origin@) && valid_utf8(alpn@) && local is Ok && remote is Err ==> target is Err
            && target->Err_0 == remote->Err_0,
        valid_utf8(alpn@) && local is Ok && remote is Ok && target is Err ==> target->Err_0
            == NsResult::NS_ERROR_INVALID_ARG,
{
    reveal_strlit("h3");
    vstd::string::is_ascii_spec_bytes("h3");
    assert("h3".spec_bytes() =~= seq![0x68u8, 0x33]);
    let name = "h3"@;
    vstd::utf8::encode_utf8_valid_utf8(name);
}

/// The name of a log starts with the origin and ends in `.qlog`, with the identifier between them
/// behind an underscore. A log is asked for by a directory.
pub proof fn law_log_names(
    origin: &str,
    id: &str,
    name: String,
    dir: &[u8],
    request: Result<Option<QlogRequest>, NsResult>,
)
    requires
        call_ensures(qlog_file_name, (origin, id), name),
        call_ensures(qlog_request, (dir, origin), request),
    ensures
        name@ == origin@ + seq!['_'] + id@ + seq!['.', 'q', 'l', 'o', 'g'],
        request is Err <==> !valid_utf8(dir@),
        request matches Err(e) ==> e == NsResult::NS_ERROR_INVALID_ARG,
        request matches Ok(None) <==> dir@.len() == 0 && request is Ok,
        request matches Ok(Some(q)) ==> q.dir@ == decode_utf8(dir@) && q.file_name@.len()
            == origin@.len() + 42 && q.file_name@.take(origin@.len() as int) == origin@
            && q.file_name@.skip(origin@.len() as int + 37) == seq!['.', 'q', 'l', 'o', 'g'],
{
    reveal_strlit("_");
    reveal_strlit(".qlog");
    assert("_"@ =~= seq!['_']);
    assert(".qlog"@ =~= seq!['.', 'q', 'l', 'o', 'g']);
    if let Ok(Some(q)) = request {
        let uuid = choose|uuid: Seq<char>|
            #[trigger] is_hyphenated_uuid(uuid) && q.file_name@ == log_name(origin@, uuid);
        assert(q.file_name@.take(origin@.len() as int) =~= origin@);
        assert(q.file_name@.skip(origin@.len() as int + 37) =~= seq!['.', 'q', 'l', 'o', 'g']);
    }
}

/// A request is made exactly where its header fields can be read, its parts are text and its
/// urgency is one of the eight; header fields that cannot be read are told before all else. What
/// is made holds each part in its place.
pub proof fn law_requests_are_checked(
    method: &[u8],
    scheme: &[u8],
    host: &[u8],
    path: &[u8],
    headers: &[u8],
    urgency: u8,
    request: Result<FetchRequest, NsResult>,
)
    requires
        call_ensures(fetch_request, (method, scheme, host, path, headers, urgency), request),
    ensures
        request is Ok <==> parsed_headers(headers@) is Some && valid_utf8(method@) && valid_utf8(
            scheme@,
        ) && valid_utf8(host@) && valid_utf8(path@) && urgency <= 7,
        request matches Err(e) ==> {
            &&& e == NsResult::NS_ERROR_DOM_INVALID_HEADER_NAME <==> parsed_headers(headers@)
                is None
            &&& e == NsResult::NS_ERROR_INVALID_ARG <==> parsed_headers(headers@) is Some
        },
        request matches Ok(r) ==> {
            &&& r.method@ == decode_utf8(method@)
            &&& r.scheme@ == decode_utf8(scheme@)
            &&& r.host@ == decode_utf8(host@)
            &&& r.path@ == decode_utf8(path@)
            &&& parsed_headers(headers@) == Some(header_views(r.headers@))
        },
{
}

/// What holds of a request holds of one to connect and of one for a session, with the parts that
/// these have; a session has no urgency.
pub proof fn law_other_requests_are_checked(
    host: &[u8],
    path: &[u8],
    headers: &[u8],
    urgency: u8,
    connect: Result<ConnectRequest, NsResult>,
    session: Result<SessionRequest, NsResult>,
    result: NsResult,
)
    requires
        call_ensures(connect_request, (host, headers, urgency), connect),
        call_ensures(session_request, (host, path, headers), session),
        call_ensures(check_urgency, (urgency,), result),
    ensures
        result == NsResult::NS_OK <==> urgency <= 7,
        result == NsResult::NS_ERROR_INVALID_ARG <==> urgency > 7,
        connect is Ok <==> parsed_headers(headers@) is Some && valid_utf8(host@) && urgency <= 7,
        session is Ok <==> parsed_headers(headers@) is Some && valid_utf8(host@) && valid_utf8(
            path@,
        ),
        connect matches Err(e) ==> if parsed_headers(headers@) is None {
            e == NsResult::NS_ERROR_DOM_INVALID_HEADER_NAME
        } else {
            e == NsResult::NS_ERROR_INVALID_ARG
        },
        session matches Err(e) ==> if parsed_headers(headers@) is None {
            e == NsResult::NS_ERROR_DOM_INVALID_HEADER_NAME
        } else {
            e == NsResult::NS_ERROR_INVALID_ARG
        },
        connect matches Ok(r) ==> r.host@ == decode_utf8(host@) && parsed_headers(headers@) == Some(
            header_views(r.headers@),
        ),
        session matches Ok(r) ==> r.host@ == decode_utf8(host@) && r.path@ == decode_utf8(path@)
            && parsed_headers(headers@) == Some(header_views(r.headers@)),
{
}

/// A stream that was opened is told by its number; the embedder waits where the limit of streams
/// is reached, and only there.
pub proof fn law_streams_are_told(
    opened: Result<u64, Http3Error>,
    stream_id: &mut u64,
    result: NsResult,
)
    requires
        call_ensures(stream_opened, (opened, stream_id), result),
    ensures
        result == NsResult::NS_OK <==> opened is Ok,
        result == NsResult::NS_BASE_STREAM_WOULD_BLOCK <==> (opened matches Err(e)
            && e is StreamLimit),
        result == NsResult::NS_ERROR_UNEXPECTED <==> (opened matches Err(e) && e !is StreamLimit),
        *final(stream_id) == (match opened {
            Ok(id) => id,
            Err(_) => *old(stream_id),
        }),
{
}

/// The embedder is told how much of a body went out, and waits where nothing did.
pub proof fn law_bodies_are_sent(
    sent: Option<usize>,
    read: &mut u32,
    result: NsResult,
    done: bool,
    error: NsResult,
    told: NsResult,
)
    requires
        call_ensures(body_sent, (sent, read), result),
        call_ensures(done_or, (done, error), told),
    ensures
        result == NsResult::NS_OK <==> (sent matches Some(n) && 0 < n <= 0xffff_ffff),
        result == NsResult::NS_BASE_STREAM_WOULD_BLOCK <==> sent == Some(0usize),
        result == NsResult::NS_ERROR_UNEXPECTED <==> (sent is None || sent->0 > 0xffff_ffff),
        *final(read) == (if sent is Some && sent->0 <= 0xffff_ffff {
            sent->0 as int
        } else {
            *old(read) as int
        }),
        done ==> told == NsResult::NS_OK,
        !done ==> told == error,
{
}

/// The embedder is told how much of a response was read and whether it ended, and waits only
/// where nothing was read of one that goes on. A stream that is not there, or has no more data, is
/// the embedder's mistake; anything else breaks the protocol.
pub proof fn law_responses_are_read(
    outcome: Result<(usize, bool), Http3Error>,
    read: &mut u32,
    fin: &mut bool,
    result: NsResult,
)
    requires
        call_ensures(response_read, (outcome, read, fin), result),
    ensures
        result == NsResult::NS_BASE_STREAM_WOULD_BLOCK <==> outcome == Ok::<
            (usize, bool),
            Http3Error,
        >((0, false)),
        result == NsResult::NS_OK <==> (outcome matches Ok((n, ended)) && n <= 0xffff_ffff && (n > 0
            || ended)),
        result == NsResult::NS_ERROR_INVALID_ARG <==> (outcome matches Err(e) && (e
            is InvalidStreamId || e matches Http3Error::Transport(TransportError::NoMoreData))),
        result == NsResult::NS_OK || result == NsResult::NS_BASE_STREAM_WOULD_BLOCK || result
            == NsResult::NS_ERROR_INVALID_ARG || result
            == NsResult::NS_ERROR_NET_HTTP3_PROTOCOL_ERROR,
        result == NsResult::NS_OK || result == NsResult::NS_BASE_STREAM_WOULD_BLOCK ==> outcome
            == Ok::<(usize, bool), Http3Error>((*final(read) as usize, *final(fin))),
        result == NsResult::NS_OK || result == NsResult::NS_BASE_STREAM_WOULD_BLOCK || (*final(read)
            == *old(read) && *final(fin) == *old(fin)),
{
}

/// The message of a close is text or refused; a datagram is followed but under the number zero;
/// one that is too large is not available, and no other failure is.
pub proof fn law_sessions_are_told(
    message: &[u8],
    text: Result<String, NsResult>,
    id: u64,
    tracking: Option<u64>,
    sent: Result<(), Http3Error>,
    told: NsResult,
    size: Option<u64>,
    result: &mut u64,
    code: NsResult,
)
    requires
        call_ensures(close_message, (message,), text),
        call_ensures(tracking_id, (id,), tracking),
        call_ensures(datagram_sent, (&sent,), told),
        call_ensures(max_datagram_size, (size, result), code),
    ensures
        text is Ok <==> valid_utf8(message@),
        text matches Ok(t) ==> t@ == decode_utf8(message@),
        text matches Err(e) ==> e == NsResult::NS_ERROR_INVALID_ARG,
        tracking is None <==> id == 0,
        tracking matches Some(n) ==> n == id,
        told == NsResult::NS_OK <==> sent is Ok,
        told == NsResult::NS_ERROR_NOT_AVAILABLE <==> (sent matches Err(
            Http3Error::Transport(TransportError::TooMuchData),
        )),
        told == NsResult::NS_OK || told == NsResult::NS_ERROR_NOT_AVAILABLE || told
            == NsResult::NS_ERROR_UNEXPECTED,
        code == NsResult::NS_OK <==> size is Some,
        code == NsResult::NS_ERROR_UNEXPECTED <==> size is None,
        size == Some(*final(result)) || size is None && *final(result) == *old(result),
{
}

/// Each count is reported under its own name.
pub proof fn law_counts_are_reported(
    packets: PacketStats,
    counter: WouldBlockCounter,
    stats: Http3Stats,
)
    requires
        call_ensures(get_stats, (&packets, &counter), stats),
    ensures
        stats.packets_rx == packets.packets_rx && stats.packets_tx == packets.packets_tx,
        stats.dups_rx == packets.dups_rx && stats.dropped_rx == packets.dropped_rx,
        stats.saved_datagrams == packets.saved_datagrams && stats.lost == packets.lost,
        stats.late_ack == packets.late_ack && stats.pto_ack == packets.pto_ack,
        forall|i: int| 0 <= i < 16 ==> #[trigger] stats.pto_counts[i] == packets.pto_counts[i],
        stats.would_block_rx == counter.rx() && stats.would_block_tx == counter.tx(),
{
}

}
