//! Events of a connection, as the embedder gets them: an event, and the bytes that belong to it.
use crate::errors::{
    close_label, close_reason_error, close_reason_label, ech_retry, ech_retry_config, CloseError,
    CloseReason,
};
use crate::headers::{
    convert_h3_to_h1_headers, h1_head, has_one_status, header_views, law_one_status, status_count,
    Header,
};
use crate::nsresult::NsResult;
use crate::text::{decimal, decimal_text};
use crate::thin::{thin_bytes, thin_extend};
use thin_vec::ThinVec;
use vstd::prelude::*;
use vstd::string::StringSliceAdditionalSpecFns;
use vstd::utf8::encode_utf8;

verus! {

/// Whether both sides of a stream can send, or only the one that created it.
#[derive(Clone, Copy, Debug, PartialEq, Eq, Structural)]
pub enum StreamType {
    BiDi,
    UniDi,
}

/// The type of a WebTransport stream.
#[derive(Clone, Copy, Debug, PartialEq, Eq, Structural)]
pub enum WebTransportStreamType {
    BiDi,
    UniDi,
}

/// The stream type as the embedder names it.
pub open spec fn external_stream_type(t: StreamType) -> WebTransportStreamType {
    match t {
        StreamType::BiDi => WebTransportStreamType::BiDi,
        StreamType::UniDi => WebTransportStreamType::UniDi,
    }
}

/// The stream type that the embedder names.
pub open spec fn internal_stream_type(t: WebTransportStreamType) -> StreamType {
    match t {
        WebTransportStreamType::BiDi => StreamType::BiDi,
        WebTransportStreamType::UniDi => StreamType::UniDi,
    }
}

impl From<StreamType> for WebTransportStreamType {
    fn from(t: StreamType) -> (external: Self) {
        match t {
            StreamType::BiDi => WebTransportStreamType::BiDi,
            StreamType::UniDi => WebTransportStreamType::UniDi,
        }
    }
}

impl vstd::std_specs::convert::FromSpecImpl<StreamType> for WebTransportStreamType {
    open spec fn obeys_from_spec() -> bool {
        true
    }

    open spec fn from_spec(t: StreamType) -> Self {
        external_stream_type(t)
    }
}

impl From<WebTransportStreamType> for StreamType {
    fn from(t: WebTransportStreamType) -> (internal: Self) {
        match t {
            WebTransportStreamType::BiDi => StreamType::BiDi,
            WebTransportStreamType::UniDi => StreamType::UniDi,
        }
    }
}

impl vstd::std_specs::convert::FromSpecImpl<WebTransportStreamType> for StreamType {
    open spec fn obeys_from_spec() -> bool {
        true
    }

    open spec fn from_spec(t: WebTransportStreamType) -> Self {
        internal_stream_type(t)
    }
}

/// Naming a stream type for the embedder and taking the name back gives the type.
pub proof fn law_stream_type_round_trip(t: StreamType, u: WebTransportStreamType)
    ensures
        internal_stream_type(external_stream_type(t)) == t,
        external_stream_type(internal_stream_type(u)) == u,
{
}

/// The type that a stream's number tells: its second lowest bit.
pub open spec fn stream_type_of(stream_id: u64) -> StreamType {
    if (stream_id / 2) % 2 == 1 {
        StreamType::UniDi
    } else {
        StreamType::BiDi
    }
}

/// The type that a stream's number tells.
pub fn stream_type(stream_id: u64) -> (t: StreamType)
    ensures
        t == stream_type_of(stream_id),
{
    if (stream_id / 2) % 2 == 1 {
        StreamType::UniDi
    } else {
        StreamType::BiDi
    }
}

/// Why a session was closed.
#[derive(Debug)]
pub enum SessionCloseReason {
    Error(u64),
    Status(u16),
    Clean { error: u32, message: String },
}

/// Why a session was closed, as the embedder gets it.
#[derive(Clone, Copy, Debug, PartialEq, Eq, Structural)]
pub enum SessionCloseReasonExternal {
    Error(u64),
    Status(u16),
    Clean(u32),
}

/// An event of a WebTransport session.
#[derive(Debug)]
pub enum WebTransportEvent {
    Negotiated(bool),
    NewSession { stream_id: u64, status: u16 },
    SessionClosed { stream_id: u64, reason: SessionCloseReason },
    NewStream { stream_id: u64, session_id: u64 },
    Datagram { session_id: u64, datagram: Vec<u8> },
}

/// An event of a session that carries UDP.
#[derive(Debug)]
pub enum ConnectUdpEvent {
    Negotiated(bool),
    NewSession { stream_id: u64, status: u16 },
    SessionClosed { stream_id: u64, reason: SessionCloseReason },
    Datagram { session_id: u64, datagram: Vec<u8> },
}

#[derive(Clone, Copy, Debug, PartialEq, Eq, Structural)]
pub enum WebTransportEventExternal {
    Negotiated(bool),
    Session(u64),
    SessionClosed { stream_id: u64, reason: SessionCloseReasonExternal },
    NewStream { stream_id: u64, stream_type: WebTransportStreamType, session_id: u64 },
    Datagram { session_id: u64 },
}

#[derive(Clone, Copy, Debug, PartialEq, Eq, Structural)]
pub enum ConnectUdpEventExternal {
    Negotiated(bool),
    Session(u64),
    SessionClosed { stream_id: u64, reason: SessionCloseReasonExternal },
    Datagram { session_id: u64 },
}

/// The state of a connection, as far as it is told apart.
#[derive(Debug)]
pub enum Http3State {
    Connected,
    Closing(CloseReason),
    Closed(CloseReason),
    Other,
}

/// An event of a connection. Moments in time are nanoseconds.
#[derive(Debug)]
pub enum Http3ClientEvent {
    DataWritable { stream_id: u64 },
    StopSending { stream_id: u64, error: u64 },
    HeaderReady { stream_id: u64, headers: Vec<Header>, fin: bool, interim: bool },
    DataReadable { stream_id: u64 },
    Reset { stream_id: u64, error: u64, local: bool },
    PushPromise { push_id: u64, request_stream_id: u64, headers: Vec<Header> },
    PushHeaderReady { push_id: u64, headers: Vec<Header>, fin: bool, interim: bool },
    PushDataReadable { push_id: u64 },
    PushCanceled { push_id: u64 },
    PushReset { push_id: u64, error: u64 },
    RequestsCreatable,
    AuthenticationNeeded,
    ZeroRttRejected,
    ResumptionToken { token: Vec<u8>, expiration_time: u128 },
    GoawayReceived,
    StateChange(Http3State),
    EchFallbackAuthenticationNeeded { public_name: String },
    WebTransport(WebTransportEvent),
    ConnectUdp(ConnectUdpEvent),
}

/// An event of a connection, as the embedder gets it.
#[derive(Clone, Copy, Debug, PartialEq, Eq, Structural)]
#[allow(inconsistent_fields)]
pub enum Http3Event {
    /// A request stream has space for more data to be sent.
    DataWritable { stream_id: u64 },
    /// The server asked that sending be stopped.
    StopSending { stream_id: u64, error: u64 },
    HeaderReady { stream_id: u64, fin: bool, interim: bool },
    /// New bytes are available for reading.
    DataReadable { stream_id: u64 },
    /// The peer reset the stream.
    Reset { stream_id: u64, error: u64, local: bool },
    PushPromise { push_id: u64, request_stream_id: u64 },
    /// The headers of a push response are ready.
    PushHeaderReady { push_id: u64, fin: bool },
    /// New bytes are available on a push stream for reading.
    PushDataReadable { push_id: u64 },
    /// A push has been canceled.
    PushCanceled { push_id: u64 },
    PushReset { push_id: u64, error: u64 },
    RequestsCreatable,
    AuthenticationNeeded,
    ZeroRttRejected,
    ConnectionConnected,
    GoawayReceived,
    ConnectionClosing { error: CloseError },
    ConnectionClosed { error: CloseError },
    /// The token is valid for this number of microseconds.
    ResumptionToken { expire_in: u64 },
    EchFallbackAuthenticationNeeded,
    WebTransport(WebTransportEventExternal),
    ConnectUdp(ConnectUdpEventExternal),
    NoEvent,
}

/// Why a session was closed, as the embedder gets it.
pub open spec fn external_reason(reason: SessionCloseReason) -> SessionCloseReasonExternal {
    match reason {
        SessionCloseReason::Error(e) => SessionCloseReasonExternal::Error(e),
        SessionCloseReason::Status(s) => SessionCloseReasonExternal::Status(s),
        SessionCloseReason::Clean { error, message } => SessionCloseReasonExternal::Clean(error),
    }
}

/// The bytes that belong to a reason: the message of a clean close.
pub open spec fn reason_data(reason: SessionCloseReason) -> Seq<u8> {
    match reason {
        SessionCloseReason::Clean { error, message } => encode_utf8(message@),
        _ => Seq::empty(),
    }
}

/// The head of a response that has no more than a status.
pub open spec fn status_head(status: u16) -> Seq<u8> {
    "HTTP/3 ".spec_bytes() + encode_utf8(decimal(status as nat)) + "\r\n\r\n".spec_bytes()
}

/// A WebTransport event as the embedder gets it. A session that is closed with a status was
/// never set up, and is told like one that is.
pub open spec fn webtransport_external(event: WebTransportEvent) -> WebTransportEventExternal {
    match event {
        WebTransportEvent::Negotiated(n) => WebTransportEventExternal::Negotiated(n),
        WebTransportEvent::NewSession { stream_id, status } => WebTransportEventExternal::Session(
            stream_id,
        ),
        WebTransportEvent::SessionClosed { stream_id, reason } => match reason {
            SessionCloseReason::Status(_) => WebTransportEventExternal::Session(stream_id),
            _ => WebTransportEventExternal::SessionClosed {
                stream_id,
                reason: external_reason(reason),
            },
        },
        WebTransportEvent::NewStream { stream_id, session_id } => {
            WebTransportEventExternal::NewStream {
                stream_id,
                stream_type: external_stream_type(stream_type_of(stream_id)),
                session_id,
            }
        },
        WebTransportEvent::Datagram { session_id, datagram } => {
            WebTransportEventExternal::Datagram { session_id }
        },
    }
}

/// The bytes that belong to a WebTransport event.
pub open spec fn webtransport_data(event: WebTransportEvent) -> Seq<u8> {
    match event {
        WebTransportEvent::NewSession { stream_id, status } => status_head(status),
        WebTransportEvent::SessionClosed { stream_id, reason } => match reason {
            SessionCloseReason::Status(status) => status_head(status),
            _ => reason_data(reason),
        },
        WebTransportEvent::Datagram { session_id, datagram } => datagram@,
        _ => Seq::empty(),
    }
}

/// An event of a session that carries UDP, as the embedder gets it.
pub open spec fn connect_udp_external(event: ConnectUdpEvent) -> ConnectUdpEventExternal {
    match event {
        ConnectUdpEvent::Negotiated(n) => ConnectUdpEventExternal::Negotiated(n),
        ConnectUdpEvent::NewSession { stream_id, status } => ConnectUdpEventExternal::Session(
            stream_id,
        ),
        ConnectUdpEvent::SessionClosed { stream_id, reason } => match reason {
            SessionCloseReason::Status(_) => ConnectUdpEventExternal::Session(stream_id),
            _ => ConnectUdpEventExternal::SessionClosed {
                stream_id,
                reason: external_reason(reason),
            },
        },
        ConnectUdpEvent::Datagram { session_id, datagram } => ConnectUdpEventExternal::Datagram {
            session_id,
        },
    }
}

/// The bytes that belong to an event of a session that carries UDP.
pub open spec fn connect_udp_data(event: ConnectUdpEvent) -> Seq<u8> {
    match event {
        ConnectUdpEvent::NewSession { stream_id, status } => status_head(status),
        ConnectUdpEvent::SessionClosed { stream_id, reason } => match reason {
            SessionCloseReason::Status(status) => status_head(status),
            _ => reason_data(reason),
        },
        ConnectUdpEvent::Datagram { session_id, datagram } => datagram@,
        _ => Seq::empty(),
    }
}

/// Appends the head of a response that has no more than a status.
fn push_status_head(data: &mut ThinVec<u8>, status: u16)
    ensures
        thin_bytes(*final(data)) == thin_bytes(*old(data)) + status_head(status),
{
    thin_extend(data, "HTTP/3 ".as_bytes());
    thin_extend(data, decimal_text(status as u64).as_str().as_bytes());
    thin_extend(data, "\r\n\r\n".as_bytes());
    assert(thin_bytes(*data) =~= thin_bytes(*old(data)) + status_head(status));
}

impl SessionCloseReasonExternal {
    pub fn new(reason: &SessionCloseReason, data: &mut ThinVec<u8>) -> (external: Self)
        ensures
            external == external_reason(*reason),
            thin_bytes(*final(data)) == thin_bytes(*old(data)) + reason_data(*reason),
    {
        assert(thin_bytes(*old(data)) + Seq::<u8>::empty() =~= thin_bytes(*old(data)));
        match reason {
            SessionCloseReason::Error(e) => SessionCloseReasonExternal::Error(*e),
            SessionCloseReason::Status(s) => SessionCloseReasonExternal::Status(*s),
            SessionCloseReason::Clean { error, message } => {
                thin_extend(data, message.as_str().as_bytes());
                SessionCloseReasonExternal::Clean(*error)
            },
        }
    }
}

impl WebTransportEventExternal {
    pub fn new(event: &WebTransportEvent, data: &mut ThinVec<u8>) -> (external: Self)
        ensures
            external == webtransport_external(*event),
            thin_bytes(*final(data)) == thin_bytes(*old(data)) + webtransport_data(*event),
    {
        assert(thin_bytes(*old(data)) + Seq::<u8>::empty() =~= thin_bytes(*old(data)));
        match event {
            WebTransportEvent::Negotiated(n) => WebTransportEventExternal::Negotiated(*n),
            WebTransportEvent::NewSession { stream_id, status } => {
                push_status_head(data, *status);
                WebTransportEventExternal::Session(*stream_id)
            },
            WebTransportEvent::SessionClosed { stream_id, reason } => match reason {
                SessionCloseReason::Status(status) => {
                    push_status_head(data, *status);
                    WebTransportEventExternal::Session(*stream_id)
                },
                _ => WebTransportEventExternal::SessionClosed {
                    stream_id: *stream_id,
                    reason: SessionCloseReasonExternal::new(reason, data),
                },
            },
            WebTransportEvent::NewStream { stream_id, session_id } => {
                WebTransportEventExternal::NewStream {
                    stream_id: *stream_id,
                    stream_type: WebTransportStreamType::from(stream_type(*stream_id)),
                    session_id: *session_id,
                }
            },
            WebTransportEvent::Datagram { session_id, datagram } => {
                thin_extend(data, datagram.as_slice());
                WebTransportEventExternal::Datagram { session_id: *session_id }
            },
        }
    }
}

impl ConnectUdpEventExternal {
    pub fn new(event: &ConnectUdpEvent, data: &mut ThinVec<u8>) -> (external: Self)
        ensures
            external == connect_udp_external(*event),
            thin_bytes(*final(data)) == thin_bytes(*old(data)) + connect_udp_data(*event),
    {
        assert(thin_bytes(*old(data)) + Seq::<u8>::empty() =~= thin_bytes(*old(data)));
        match event {
            ConnectUdpEvent::Negotiated(n) => ConnectUdpEventExternal::Negotiated(*n),
            ConnectUdpEvent::NewSession { stream_id, status } => {
                push_status_head(data, *status);
                ConnectUdpEventExternal::Session(*stream_id)
            },
            ConnectUdpEvent::SessionClosed { stream_id, reason } => match reason {
                SessionCloseReason::Status(status) => {
                    push_status_head(data, *status);
                    ConnectUdpEventExternal::Session(*stream_id)
                },
                _ => ConnectUdpEventExternal::SessionClosed {
                    stream_id: *stream_id,
                    reason: SessionCloseReasonExternal::new(reason, data),
                },
            },
            ConnectUdpEvent::Datagram { session_id, datagram } => {
                thin_extend(data, datagram.as_slice());
                ConnectUdpEventExternal::Datagram { session_id: *session_id }
            },
        }
    }
}

/// Whether the header fields of an event can be given to the embedder.
pub open spec fn is_head(headers: Seq<Header>) -> bool {
    status_count(header_views(headers)) == 1
}

/// How many microseconds a token is still valid at time `now`, where it is and the number fits.
pub open spec fn token_lifetime(expiration_time: u128, now: u128) -> Option<u64> {
    if expiration_time > now && (expiration_time - now) / 1000 <= u64::MAX {
        Some(((expiration_time - now) / 1000) as u64)
    } else {
        None
    }
}

/// An event as the embedder gets it at time `now`, with the bytes that belong to it; none where
/// the header fields of the event do not form a head.
pub open spec fn external_event(event: Http3ClientEvent, now: u128) -> Option<
    (Http3Event, Seq<u8>),
> {
    let none = Seq::<u8>::empty();
    match event {
        Http3ClientEvent::DataWritable { stream_id } => Some(
            (Http3Event::DataWritable { stream_id }, none),
        ),
        Http3ClientEvent::StopSending { stream_id, error } => Some(
            (Http3Event::StopSending { stream_id, error }, none),
        ),
        Http3ClientEvent::HeaderReady { stream_id, headers, fin, interim } => if is_head(headers@) {
            Some(
                (
                    Http3Event::HeaderReady { stream_id, fin, interim },
                    h1_head(header_views(headers@)),
                ),
            )
        } else {
            None
        },
        Http3ClientEvent::DataReadable { stream_id } => Some(
            (Http3Event::DataReadable { stream_id }, none),
        ),
        Http3ClientEvent::Reset { stream_id, error, local } => Some(
            (Http3Event::Reset { stream_id, error, local }, none),
        ),
        Http3ClientEvent::PushPromise { push_id, request_stream_id, headers } => if is_head(
            headers@,
        ) {
            Some(
                (
                    Http3Event::PushPromise { push_id, request_stream_id },
                    h1_head(header_views(headers@)),
                ),
            )
        } else {
            None
        },
        Http3ClientEvent::PushHeaderReady { push_id, headers, fin, interim } => if interim {
            Some((Http3Event::NoEvent, none))
        } else if is_head(headers@) {
            Some((Http3Event::PushHeaderReady { push_id, fin }, h1_head(header_views(headers@))))
        } else {
            None
        },
        Http3ClientEvent::PushDataReadable { push_id } => Some(
            (Http3Event::PushDataReadable { push_id }, none),
        ),
        Http3ClientEvent::PushCanceled { push_id } => Some(
            (Http3Event::PushCanceled { push_id }, none),
        ),
        Http3ClientEvent::PushReset { push_id, error } => Some(
            (Http3Event::PushReset { push_id, error }, none),
        ),
        Http3ClientEvent::RequestsCreatable => Some((Http3Event::RequestsCreatable, none)),
        Http3ClientEvent::AuthenticationNeeded => Some((Http3Event::AuthenticationNeeded, none)),
        Http3ClientEvent::ZeroRttRejected => Some((Http3Event::ZeroRttRejected, none)),
        Http3ClientEvent::ResumptionToken { token, expiration_time } => match token_lifetime(
            expiration_time,
            now,
        ) {
            Some(expire_in) => Some((Http3Event::ResumptionToken { expire_in }, token@)),
            None => Some((Http3Event::NoEvent, none)),
        },
        Http3ClientEvent::GoawayReceived => Some((Http3Event::GoawayReceived, none)),
        Http3ClientEvent::StateChange(state) => match state {
            Http3State::Connected => Some((Http3Event::ConnectionConnected, none)),
            Http3State::Closing(reason) => Some(
                (
                    Http3Event::ConnectionClosing { error: close_reason_error(reason) },
                    match ech_retry(reason) {
                        Some(config) => config,
                        None => none,
                    },
                ),
            ),
            Http3State::Closed(reason) => Some(
                (
                    Http3Event::ConnectionClosed { error: close_reason_error(reason) },
                    match ech_retry(reason) {
                        Some(config) => config,
                        None => none,
                    },
                ),
            ),
            Http3State::Other => Some((Http3Event::NoEvent, none)),
        },
        Http3ClientEvent::EchFallbackAuthenticationNeeded { public_name } => Some(
            (Http3Event::EchFallbackAuthenticationNeeded, encode_utf8(public_name@)),
        ),
        Http3ClientEvent::WebTransport(e) => Some(
            (Http3Event::WebTransport(webtransport_external(e)), webtransport_data(e)),
        ),
        Http3ClientEvent::ConnectUdp(e) => Some(
            (Http3Event::ConnectUdp(connect_udp_external(e)), connect_udp_data(e)),
        ),
    }
}

/// Appends the configuration with which a closed connection is to be tried again.
fn push_ech_retry(data: &mut ThinVec<u8>, reason: &CloseReason)
    ensures
        thin_bytes(*final(data)) == thin_bytes(*old(data)) + (match ech_retry(*reason) {
            Some(config) => config,
            None => Seq::<u8>::empty(),
        }),
{
    match ech_retry_config(reason) {
        Some(config) => {
            thin_extend(data, config);
        },
        None => {},
    }
    assert(thin_bytes(*old(data)) + Seq::<u8>::empty() =~= thin_bytes(*old(data)));
}

/// How many microseconds a token is still valid at time `now`.
fn remaining_lifetime(expiration_time: u128, now: u128) -> (lifetime: Option<u64>)
    ensures
        lifetime == token_lifetime(expiration_time, now),
{
    if expiration_time > now {
        let micros: u128 = (expiration_time - now) / 1000;
        if micros <= u64::MAX as u128 {
            return Some(micros as u64);
        }
    }
    None
}

/// Gives the embedder an event; the bytes that belong to it are appended to `data`.
pub fn convert_event(event: Http3ClientEvent, now: u128, data: &mut ThinVec<u8>) -> (external:
    Result<Http3Event, NsResult>)
    ensures
        external is Ok <==> external_event(event, now) is Some,
        external matches Ok(e) ==> external_event(event, now) matches Some((x, bytes)) && e == x
            && thin_bytes(*final(data)) == thin_bytes(*old(data)) + bytes,
        external matches Err(e) ==> e == NsResult::NS_ERROR_ILLEGAL_VALUE && thin_bytes(
            *final(data),
        ) == thin_bytes(*old(data)),
{
    assert(thin_bytes(*old(data)) + Seq::<u8>::empty() =~= thin_bytes(*old(data)));
    let external = match event {
        Http3ClientEvent::DataWritable { stream_id } => Http3Event::DataWritable { stream_id },
        Http3ClientEvent::StopSending { stream_id, error } => Http3Event::StopSending {
            stream_id,
            error,
        },
        Http3ClientEvent::HeaderReady { stream_id, headers, fin, interim } => {
            let result = convert_h3_to_h1_headers(&headers, data);
            if result != NsResult::NS_OK {
                return Err(result);
            }
            Http3Event::HeaderReady { stream_id, fin, interim }
        },
        Http3ClientEvent::DataReadable { stream_id } => Http3Event::DataReadable { stream_id },
        Http3ClientEvent::Reset { stream_id, error, local } => Http3Event::Reset {
            stream_id,
            error,
            local,
        },
        Http3ClientEvent::PushPromise { push_id, request_stream_id, headers } => {
            let result = convert_h3_to_h1_headers(&headers, data);
            if result != NsResult::NS_OK {
                return Err(result);
            }
            Http3Event::PushPromise { push_id, request_stream_id }
        },
        Http3ClientEvent::PushHeaderReady { push_id, headers, fin, interim } => {
            if interim {
                Http3Event::NoEvent
            } else {
                let result = convert_h3_to_h1_headers(&headers, data);
                if result != NsResult::NS_OK {
                    return Err(result);
                }
                Http3Event::PushHeaderReady { push_id, fin }
            }
        },
        Http3ClientEvent::PushDataReadable { push_id } => Http3Event::PushDataReadable { push_id },
        Http3ClientEvent::PushCanceled { push_id } => Http3Event::PushCanceled { push_id },
        Http3ClientEvent::PushReset { push_id, error } => Http3Event::PushReset { push_id, error },
        Http3ClientEvent::RequestsCreatable => Http3Event::RequestsCreatable,
        Http3ClientEvent::AuthenticationNeeded => Http3Event::AuthenticationNeeded,
        Http3ClientEvent::ZeroRttRejected => Http3Event::ZeroRttRejected,
        Http3ClientEvent::ResumptionToken { token, expiration_time } => {
            match remaining_lifetime(expiration_time, now) {
                Some(expire_in) => {
                    thin_extend(data, token.as_slice());
                    Http3Event::ResumptionToken { expire_in }
                },
                None => Http3Event::NoEvent,
            }
        },
        Http3ClientEvent::GoawayReceived => Http3Event::GoawayReceived,
        Http3ClientEvent::StateChange(state) => match state {
            Http3State::Connected => Http3Event::ConnectionConnected,
            Http3State::Closing(reason) => {
                push_ech_retry(data, &reason);
                Http3Event::ConnectionClosing { error: CloseError::from(reason) }
            },
            Http3State::Closed(reason) => {
                push_ech_retry(data, &reason);
                Http3Event::ConnectionClosed { error: CloseError::from(reason) }
            },
            Http3State::Other => Http3Event::NoEvent,
        },
        Http3ClientEvent::EchFallbackAuthenticationNeeded { public_name } => {
            thin_extend(data, public_name.as_str().as_bytes());
            Http3Event::EchFallbackAuthenticationNeeded
        },
        Http3ClientEvent::WebTransport(e) => Http3Event::WebTransport(
            WebTransportEventExternal::new(&e, data),
        ),
        Http3ClientEvent::ConnectUdp(e) => Http3Event::ConnectUdp(
            ConnectUdpEventExternal::new(&e, data),
        ),
    };
    Ok(external)
}

/// The name under which a closing connection is counted.
pub fn closing_label(event: &Http3ClientEvent) -> (label: Option<&'static str>)
    ensures
        match *event {
            Http3ClientEvent::StateChange(Http3State::Closing(reason)) => label matches Some(l)
                && l@ == close_label(reason),
            _ => label is None,
        },
{
    match event {
        Http3ClientEvent::StateChange(state) => match state {
            Http3State::Closing(reason) => Some(close_reason_label(reason)),
            _ => None,
        },
        _ => None,
    }
}

/// Looks at the next event of a connection, if there is one. Gives the result for the embedder,
/// or none where the event is not for the embedder and the one behind it is to be looked at.
pub fn neqo_http3conn_event(
    event: Option<Http3ClientEvent>,
    now: u128,
    ret_event: &mut Http3Event,
    data: &mut ThinVec<u8>,
) -> (result: Option<NsResult>)
    ensures
        event is None ==> result == Some(NsResult::NS_OK) && *final(ret_event)
            == Http3Event::NoEvent && thin_bytes(*final(data)) == thin_bytes(*old(data)),
        event matches Some(e) ==> match external_event(e, now) {
            None => {
                &&& result == Some(NsResult::NS_ERROR_ILLEGAL_VALUE)
                &&& *final(ret_event) == *old(ret_event)
                &&& thin_bytes(*final(data)) == thin_bytes(*old(data))
            },
            Some((external, bytes)) => {
                &&& result == (if external == Http3Event::NoEvent {
                    None
                } else {
                    Some(NsResult::NS_OK)
                })
                &&& *final(ret_event) == (if external == Http3Event::NoEvent {
                    *old(ret_event)
                } else {
                    external
                })
                &&& thin_bytes(*final(data)) == thin_bytes(*old(data)) + bytes
            },
        },
{
    match event {
        Some(event) => match convert_event(event, now, data) {
            Err(result) => Some(result),
            Ok(external) => {
                if external == Http3Event::NoEvent {
                    None
                } else {
                    *ret_event = external;
                    Some(NsResult::NS_OK)
                }
            },
        },
        None => {
            *ret_event = Http3Event::NoEvent;
            Some(NsResult::NS_OK)
        },
    }
}

/// An event that is not for the embedder leaves no bytes behind.
pub proof fn law_no_event_no_data(event: Http3ClientEvent, now: u128)
    ensures
        external_event(event, now) matches Some((external, bytes)) ==> (external
            == Http3Event::NoEvent ==> bytes.len() == 0),
{
}

/// Whether the embedder is told of an event at time `now` by this one.
pub open spec fn told_as(event: Http3ClientEvent, now: u128, external: Http3Event) -> bool {
    external_event(event, now) matches Some((told, _)) && told == external
}

/// The embedder is told of what happened on a stream, with the stream's number, and of nothing
/// that did not happen: each kind of event exactly where the connection had it.
pub proof fn law_stream_events(event: Http3ClientEvent, now: u128)
    ensures
        forall|id: u64| #[trigger]
            told_as(event, now, Http3Event::DataWritable { stream_id: id }) <==> event
                == (Http3ClientEvent::DataWritable { stream_id: id }),
        forall|id: u64| #[trigger]
            told_as(event, now, Http3Event::DataReadable { stream_id: id }) <==> event
                == (Http3ClientEvent::DataReadable { stream_id: id }),
        forall|id: u64, e: u64| #[trigger]
            told_as(event, now, Http3Event::StopSending { stream_id: id, error: e }) <==> event
                == (Http3ClientEvent::StopSending { stream_id: id, error: e }),
        forall|id: u64, e: u64, l: bool| #[trigger]
            told_as(event, now, Http3Event::Reset { stream_id: id, error: e, local: l }) <==> event
                == (Http3ClientEvent::Reset { stream_id: id, error: e, local: l }),
        forall|id: u64, f: bool, i: bool| #[trigger]
            told_as(event, now, Http3Event::HeaderReady { stream_id: id, fin: f, interim: i })
                <==> (event matches Http3ClientEvent::HeaderReady {
                stream_id,
                headers,
                fin,
                interim,
            } && stream_id == id && fin == f && interim == i && has_one_status(
                header_views(headers@),
            )),
{
    if let Http3ClientEvent::HeaderReady { headers, .. } = event {
        law_one_status(header_views(headers@));
    }
}

/// The embedder is told of what happened to a push, with the push's number, exactly where it
/// happened; of the headers of a push only once they are final.
pub proof fn law_push_events(event: Http3ClientEvent, now: u128)
    ensures
        forall|id: u64| #[trigger]
            told_as(event, now, Http3Event::PushDataReadable { push_id: id }) <==> event
                == (Http3ClientEvent::PushDataReadable { push_id: id }),
        forall|id: u64| #[trigger]
            told_as(event, now, Http3Event::PushCanceled { push_id: id }) <==> event
                == (Http3ClientEvent::PushCanceled { push_id: id }),
        forall|id: u64, e: u64| #[trigger]
            told_as(event, now, Http3Event::PushReset { push_id: id, error: e }) <==> event
                == (Http3ClientEvent::PushReset { push_id: id, error: e }),
        forall|id: u64, r: u64| #[trigger]
            told_as(event, now, Http3Event::PushPromise { push_id: id, request_stream_id: r })
                <==> (event matches Http3ClientEvent::PushPromise {
                push_id,
                request_stream_id,
                headers,
            } && push_id == id && request_stream_id == r && has_one_status(
                header_views(headers@),
            )),
        forall|id: u64, f: bool| #[trigger]
            told_as(event, now, Http3Event::PushHeaderReady { push_id: id, fin: f }) <==> (event
                matches Http3ClientEvent::PushHeaderReady { push_id, headers, fin, interim }
                && push_id == id && fin == f && !interim && has_one_status(header_views(headers@))),
{
    if let Http3ClientEvent::PushPromise { headers, .. } = event {
        law_one_status(header_views(headers@));
    }
    if let Http3ClientEvent::PushHeaderReady { headers, .. } = event {
        law_one_status(header_views(headers@));
    }
}

/// The embedder is told of what happened to the connection exactly where it happened.
pub proof fn law_connection_events(event: Http3ClientEvent, now: u128)
    ensures
        told_as(event, now, Http3Event::RequestsCreatable) <==> event
            == Http3ClientEvent::RequestsCreatable,
        told_as(event, now, Http3Event::AuthenticationNeeded) <==> event
            == Http3ClientEvent::AuthenticationNeeded,
        told_as(event, now, Http3Event::ZeroRttRejected) <==> event
            == Http3ClientEvent::ZeroRttRejected,
        told_as(event, now, Http3Event::GoawayReceived) <==> event
            == Http3ClientEvent::GoawayReceived,
        told_as(event, now, Http3Event::EchFallbackAuthenticationNeeded) <==> event
            is EchFallbackAuthenticationNeeded,
        told_as(event, now, Http3Event::ConnectionConnected) <==> event
            == Http3ClientEvent::StateChange(Http3State::Connected),
        forall|e: CloseError| #[trigger]
            told_as(event, now, Http3Event::ConnectionClosing { error: e }) <==> (event
                matches Http3ClientEvent::StateChange(Http3State::Closing(reason)) && e
                == close_reason_error(reason)),
        forall|e: CloseError| #[trigger]
            told_as(event, now, Http3Event::ConnectionClosed { error: e }) <==> (event
                matches Http3ClientEvent::StateChange(Http3State::Closed(reason)) && e
                == close_reason_error(reason)),
        forall|us: u64| #[trigger]
            told_as(event, now, Http3Event::ResumptionToken { expire_in: us }) <==> (event
                matches Http3ClientEvent::ResumptionToken { expiration_time, .. } && now
                < expiration_time && us * 1000 <= expiration_time - now < us * 1000 + 1000),
        told_as(event, now, Http3Event::NoEvent) <==> {
            ||| event == Http3ClientEvent::StateChange(Http3State::Other)
            ||| event matches Http3ClientEvent::PushHeaderReady { interim, .. } && interim
            ||| event matches Http3ClientEvent::ResumptionToken { expiration_time, .. }
                && (expiration_time <= now || expiration_time - now >= 0x1_0000_0000_0000_0000
                * 1000)
        },
        external_event(event, now) is None <==> {
            ||| event matches Http3ClientEvent::HeaderReady { headers, .. } && !has_one_status(
                header_views(headers@),
            )
            ||| event matches Http3ClientEvent::PushPromise { headers, .. } && !has_one_status(
                header_views(headers@),
            )
            ||| event matches Http3ClientEvent::PushHeaderReady { headers, interim, .. }
                && !interim && !has_one_status(header_views(headers@))
        },
{
    match event {
        Http3ClientEvent::HeaderReady { headers, .. } => {
            law_one_status(header_views(headers@));
        },
        Http3ClientEvent::PushPromise { headers, .. } => {
            law_one_status(header_views(headers@));
        },
        Http3ClientEvent::PushHeaderReady { headers, .. } => {
            law_one_status(header_views(headers@));
        },
        _ => {},
    }
}

/// The embedder is told of what happened to a WebTransport session, with its numbers, exactly
/// where it happened. A session that a status refuses is told like one that is set up. A stream
/// is one-way where the second bit of its number is set.
pub proof fn law_webtransport_events(event: Http3ClientEvent, now: u128)
    ensures
        forall|n: bool| #[trigger]
            told_as(event, now, Http3Event::WebTransport(WebTransportEventExternal::Negotiated(n)))
                <==> event == Http3ClientEvent::WebTransport(WebTransportEvent::Negotiated(n)),
        forall|id: u64| #[trigger]
            told_as(event, now, Http3Event::WebTransport(WebTransportEventExternal::Session(id)))
                <==> {
                ||| event matches Http3ClientEvent::WebTransport(
                    WebTransportEvent::NewSession { stream_id, .. },
                ) && stream_id == id
                ||| event matches Http3ClientEvent::WebTransport(
                    WebTransportEvent::SessionClosed { stream_id, reason },
                ) && stream_id == id && reason is Status
            },
        forall|id: u64, r: SessionCloseReasonExternal| #[trigger]
            told_as(
                event,
                now,
                Http3Event::WebTransport(
                    WebTransportEventExternal::SessionClosed { stream_id: id, reason: r },
                ),
            ) <==> (event matches Http3ClientEvent::WebTransport(
                WebTransportEvent::SessionClosed { stream_id, reason },
            ) && stream_id == id && is_told_reason(reason, r)),
        forall|id: u64, t: WebTransportStreamType, session: u64| #[trigger]
            told_as(
                event,
                now,
                Http3Event::WebTransport(
                    WebTransportEventExternal::NewStream {
                        stream_id: id,
                        stream_type: t,
                        session_id: session,
                    },
                ),
            ) <==> (event == Http3ClientEvent::WebTransport(
                WebTransportEvent::NewStream { stream_id: id, session_id: session },
            ) && (t == WebTransportStreamType::UniDi <==> id % 4 >= 2)),
        forall|session: u64| #[trigger]
            told_as(
                event,
                now,
                Http3Event::WebTransport(
                    WebTransportEventExternal::Datagram { session_id: session },
                ),
            ) <==> (event matches Http3ClientEvent::WebTransport(
                WebTransportEvent::Datagram { session_id, .. },
            ) && session_id == session),
{
    if let Http3ClientEvent::WebTransport(WebTransportEvent::NewStream { stream_id, .. }) = event {
        assert((stream_id / 2) % 2 == 1 <==> stream_id % 4 >= 2);
    }
}

/// Whether a session that was set up ended for this reason, as the embedder gets it.
pub open spec fn is_told_reason(
    reason: SessionCloseReason,
    told: SessionCloseReasonExternal,
) -> bool {
    match told {
        SessionCloseReasonExternal::Error(code) => reason == SessionCloseReason::Error(code),
        SessionCloseReasonExternal::Clean(code) => reason matches SessionCloseReason::Clean {
            error,
            ..
        } && error == code,
        SessionCloseReasonExternal::Status(_) => false,
    }
}

/// The embedder is told of what happened to a session that carries UDP, with its numbers, exactly
/// where it happened. A session that a status refuses is told like one that is set up.
pub proof fn law_connect_udp_events(event: Http3ClientEvent, now: u128)
    ensures
        forall|n: bool| #[trigger]
            told_as(event, now, Http3Event::ConnectUdp(ConnectUdpEventExternal::Negotiated(n)))
                <==> event == Http3ClientEvent::ConnectUdp(ConnectUdpEvent::Negotiated(n)),
        forall|id: u64| #[trigger]
            told_as(event, now, Http3Event::ConnectUdp(ConnectUdpEventExternal::Session(id)))
                <==> {
                ||| event matches Http3ClientEvent::ConnectUdp(
                    ConnectUdpEvent::NewSession { stream_id, .. },
                ) && stream_id == id
                ||| event matches Http3ClientEvent::ConnectUdp(
                    ConnectUdpEvent::SessionClosed { stream_id, reason },
                ) && stream_id == id && reason is Status
            },
        forall|id: u64, r: SessionCloseReasonExternal| #[trigger]
            told_as(
                event,
                now,
                Http3Event::ConnectUdp(
                    ConnectUdpEventExternal::SessionClosed { stream_id: id, reason: r },
                ),
            ) <==> (event matches Http3ClientEvent::ConnectUdp(
                ConnectUdpEvent::SessionClosed { stream_id, reason },
            ) && stream_id == id && is_told_reason(reason, r)),
        forall|session: u64| #[trigger]
            told_as(
                event,
                now,
                Http3Event::ConnectUdp(ConnectUdpEventExternal::Datagram { session_id: session }),
            ) <==> (event matches Http3ClientEvent::ConnectUdp(
                ConnectUdpEvent::Datagram { session_id, .. },
            ) && session_id == session),
{
}

/// The bytes that come with an event are those of the event and no others: a token, a name, a
/// datagram, the message of a clean close, the configuration to try again with, or a head. A
/// status is told as the head of a response that has nothing else.
pub proof fn law_event_bytes(event: Http3ClientEvent, now: u128)
    ensures
        external_event(event, now) matches Some((told, bytes)) ==> {
            &&& event matches Http3ClientEvent::ResumptionToken { token, .. } ==> bytes == (
            if told == Http3Event::NoEvent {
                Seq::<u8>::empty()
            } else {
                token@
            })
            &&& event matches Http3ClientEvent::EchFallbackAuthenticationNeeded { public_name }
                ==> bytes == encode_utf8(public_name@)
            &&& event matches Http3ClientEvent::StateChange(Http3State::Closing(reason))
                ==> bytes == ech_retry(reason).unwrap_or(Seq::empty())
            &&& event matches Http3ClientEvent::StateChange(Http3State::Closed(reason)) ==> bytes
                == ech_retry(reason).unwrap_or(Seq::empty())
            &&& event matches Http3ClientEvent::WebTransport(
                WebTransportEvent::Datagram { datagram, .. },
            ) ==> bytes == datagram@
            &&& event matches Http3ClientEvent::ConnectUdp(
                ConnectUdpEvent::Datagram { datagram, .. },
            ) ==> bytes == datagram@
            &&& event matches Http3ClientEvent::WebTransport(
                WebTransportEvent::NewSession { status, .. },
            ) ==> is_status_head(bytes, status)
            &&& event matches Http3ClientEvent::ConnectUdp(
                ConnectUdpEvent::NewSession { status, .. },
            ) ==> is_status_head(bytes, status)
            &&& event matches Http3ClientEvent::WebTransport(
                WebTransportEvent::SessionClosed { reason, .. },
            ) ==> closes_with(reason, bytes)
            &&& event matches Http3ClientEvent::ConnectUdp(
                ConnectUdpEvent::SessionClosed { reason, .. },
            ) ==> closes_with(reason, bytes)
            &&& event matches Http3ClientEvent::HeaderReady { headers, .. } ==> bytes == h1_head(
                header_views(headers@),
            )
            &&& event matches Http3ClientEvent::PushPromise { headers, .. } ==> bytes == h1_head(
                header_views(headers@),
            )
            &&& told is PushHeaderReady ==> (event matches Http3ClientEvent::PushHeaderReady {
                headers,
                ..
            } && bytes == h1_head(header_views(headers@)))
            &&& (told is DataReadable || told is DataWritable || told is StopSending
                || told is Reset || told is PushDataReadable || told is PushCanceled
                || told is PushReset || told is RequestsCreatable || told is AuthenticationNeeded
                || told is ZeroRttRejected || told is ConnectionConnected || told is GoawayReceived
                || told is NoEvent || told matches Http3Event::WebTransport(
                WebTransportEventExternal::Negotiated(_),
            ) || told matches Http3Event::WebTransport(
                WebTransportEventExternal::NewStream { .. },
            ) || told matches Http3Event::ConnectUdp(ConnectUdpEventExternal::Negotiated(_)))
                ==> bytes.len() == 0
        },
{
    reveal_strlit("HTTP/3 ");
    reveal_strlit("\r\n\r\n");
    vstd::string::is_ascii_spec_bytes("HTTP/3 ");
    vstd::string::is_ascii_spec_bytes("\r\n\r\n");
    assert("HTTP/3 ".spec_bytes() =~= seq![0x48u8, 0x54, 0x54, 0x50, 0x2f, 0x33, 0x20]);
    assert("\r\n\r\n".spec_bytes() =~= seq![0x0du8, 0x0a, 0x0d, 0x0a]);
}

/// Whether these bytes are the head of a response of HTTP/3 with this status and nothing else:
/// `HTTP/3`, a space, the status in decimal and two line ends.
pub open spec fn is_status_head(bytes: Seq<u8>, status: u16) -> bool {
    bytes == seq![0x48u8, 0x54, 0x54, 0x50, 0x2f, 0x33, 0x20] + encode_utf8(
        decimal(status as nat),
    ) + seq![0x0du8, 0x0a, 0x0d, 0x0a]
}

/// Whether these bytes belong to the reason of a close: the head of a refusal, the message of a
/// clean close, or nothing.
pub open spec fn closes_with(reason: SessionCloseReason, bytes: Seq<u8>) -> bool {
    match reason {
        SessionCloseReason::Status(status) => is_status_head(bytes, status),
        SessionCloseReason::Clean { message, .. } => bytes == encode_utf8(message@),
        SessionCloseReason::Error(_) => bytes.len() == 0,
    }
}

/// What a call gives the embedder is the event that happened, with its bytes behind those that
/// were there: nothing is told of an event that is not for the embedder, and where there is no
/// event, that is told.
pub proof fn law_call_tells_event(
    event: Option<Http3ClientEvent>,
    now: u128,
    ret_event: &mut Http3Event,
    data: &mut ThinVec<u8>,
    result: Option<NsResult>,
)
    requires
        call_ensures(neqo_http3conn_event, (event, now, ret_event, data), result),
    ensures
        event is None ==> result == Some(NsResult::NS_OK) && *final(ret_event)
            == Http3Event::NoEvent && thin_bytes(*final(data)) == thin_bytes(*old(data)),
        event matches Some(e) ==> (result == Some(NsResult::NS_OK) <==> external_event(e, now)
            is Some && !told_as(e, now, Http3Event::NoEvent)),
        event matches Some(e) ==> (result is None <==> told_as(e, now, Http3Event::NoEvent)),
        event matches Some(e) ==> (result == Some(NsResult::NS_ERROR_ILLEGAL_VALUE)
            <==> external_event(e, now) is None),
        event matches Some(e) ==> (result == Some(NsResult::NS_OK) ==> told_as(
            e,
            now,
            *final(ret_event),
        ) && thin_bytes(*final(data)) == thin_bytes(*old(data)) + (external_event(e, now)->0).1),
        event is Some && result != Some(NsResult::NS_OK) ==> *final(ret_event) == *old(ret_event)
            && thin_bytes(*final(data)) == thin_bytes(*old(data)),
{
    if let Some(e) = event {
        law_event_bytes(e, now);
        assert(thin_bytes(*old(data)) + Seq::<u8>::empty() =~= thin_bytes(*old(data)));
        if told_as(e, now, Http3Event::NoEvent) {
            assert((external_event(e, now)->0).1 =~= Seq::<u8>::empty());
        }
    }
}

/// A closing connection is counted under the name of its reason, and nothing else is counted.
pub proof fn law_closing_is_counted(event: Http3ClientEvent, label: Option<&'static str>)
    requires
        call_ensures(closing_label, (&event,), label),
    ensures
        label is Some <==> (event matches Http3ClientEvent::StateChange(Http3State::Closing(_))),
        event matches Http3ClientEvent::StateChange(Http3State::Closing(reason)) ==> label->0@
            == close_label(reason),
{
}

/// The second lowest bit of a stream's number tells its type.
pub proof fn law_stream_types(stream_id: u64, t: StreamType)
    requires
        call_ensures(stream_type, (stream_id,), t),
    ensures
        t == StreamType::UniDi <==> stream_id % 4 == 2 || stream_id % 4 == 3,
{
    assert((stream_id / 2) % 2 == 1 <==> stream_id % 4 >= 2);
}

}
