//! What the server answers to a request, by its path.
use crate::bytes::{append, copy, either, is_text, repeated, slices, split, split_at, text_bytes};
use crate::headers::{header_views, Header, HeaderView};
use crate::text::{
    decimal, decimal_text, is_digit, law_decimal_round_trip, lemma_decimal_bytes, parse_unsigned,
    trim, trim_bytes, trim_end, trim_start, unsigned,
};
use vstd::prelude::*;
use vstd::string::StringSliceAdditionalSpecFns;
use vstd::utf8::{encode_utf8, valid_utf8};

verus! {

/// The code of an orderly end.
pub const HTTP_NONE: u64 = 0x100;

/// The code of a request that was not processed.
pub const HTTP_REQUEST_REJECTED: u64 = 0x10b;

/// The code of a request that is no longer wanted.
pub const HTTP_REQUEST_CANCELLED: u64 = 0x10c;

/// The code of a request that is to be tried over an older version of HTTP.
pub const HTTP_VERSION_FALLBACK: u64 = 0x110;

/// A code that HTTP/3 does not define.
pub const UNKNOWN_CODE: u64 = 0xfe;

/// What is to be done on the stream of a request.
#[derive(Debug)]
pub enum RequestAction {
    SendHeaders(Vec<Header>),
    /// Send a body and then close the sending side.
    Respond(Vec<u8>),
    CloseSend,
    StopSending(u64),
    ResetSend(u64),
}

/// The contents of a [`RequestAction`].
pub enum RequestActionView {
    SendHeaders(Seq<HeaderView>),
    Respond(Seq<u8>),
    CloseSend,
    StopSending(u64),
    ResetSend(u64),
}

impl View for RequestAction {
    type V = RequestActionView;

    open spec fn view(&self) -> RequestActionView {
        match *self {
            RequestAction::SendHeaders(headers) => RequestActionView::SendHeaders(
                header_views(headers@),
            ),
            RequestAction::Respond(body) => RequestActionView::Respond(body@),
            RequestAction::CloseSend => RequestActionView::CloseSend,
            RequestAction::StopSending(code) => RequestActionView::StopSending(code),
            RequestAction::ResetSend(code) => RequestActionView::ResetSend(code),
        }
    }
}

/// The contents of a list of actions.
pub open spec fn action_views(actions: Seq<RequestAction>) -> Seq<RequestActionView> {
    actions.map_values(|a: RequestAction| a@)
}

/// Appends an action.
pub fn push_action(actions: &mut Vec<RequestAction>, action: RequestAction)
    ensures
        action_views(final(actions)@) == action_views(old(actions)@).push(action@),
{
    actions.push(action);
    assert(action_views(actions@) =~= action_views(old(actions)@).push(action@));
}

/// A header field with a text.
pub open spec fn text_field(name: &'static str, value: &'static str) -> HeaderView {
    HeaderView { name: name@, value: value.spec_bytes() }
}

/// A header field with a number.
pub open spec fn number_field(name: &'static str, n: nat) -> HeaderView {
    HeaderView { name: name@, value: encode_utf8(decimal(n)) }
}

/// A header field with bytes.
pub open spec fn bytes_field(name: &'static str, value: Seq<u8>) -> HeaderView {
    HeaderView { name: name@, value }
}

/// Appends a header field with a text.
pub fn push_text(headers: &mut Vec<Header>, name: &'static str, value: &'static str)
    ensures
        header_views(final(headers)@) == header_views(old(headers)@).push(text_field(name, value)),
{
    headers.push(Header::new(name, value));
    assert(header_views(headers@) =~= header_views(old(headers)@).push(text_field(name, value)));
}

/// Appends a header field with a number.
pub fn push_number(headers: &mut Vec<Header>, name: &'static str, n: u64)
    ensures
        header_views(final(headers)@) == header_views(old(headers)@).push(
            number_field(name, n as nat),
        ),
{
    let text = decimal_text(n);
    headers.push(Header::new(name, text.as_str()));
    assert(header_views(headers@) =~= header_views(old(headers)@).push(
        number_field(name, n as nat),
    ));
}

/// Appends a header field with bytes.
pub fn push_bytes(headers: &mut Vec<Header>, name: &'static str, value: &[u8])
    ensures
        header_views(final(headers)@) == header_views(old(headers)@).push(
            bytes_field(name, value@),
        ),
{
    headers.push(Header::with_bytes(name, value));
    assert(header_views(headers@) =~= header_views(old(headers)@).push(bytes_field(name, value@)));
}

/// The value of the first header field with a name.
pub open spec fn find_value(headers: Seq<HeaderView>, name: Seq<char>) -> Option<Seq<u8>>
    decreases headers.len(),
{
    if headers.len() == 0 {
        None
    } else if headers[0].name == name {
        Some(headers[0].value)
    } else {
        find_value(headers.skip(1), name)
    }
}

/// The value of the first header field with a name.
pub fn find_header<'a>(headers: &'a Vec<Header>, name: &str) -> (value: Option<&'a [u8]>)
    ensures
        match value {
            Some(v) => find_value(header_views(headers@), name@) == Some(v@),
            None => find_value(header_views(headers@), name@) is None,
        },
{
    let ghost all = header_views(headers@);
    let mut i: usize = 0;
    assert(all.skip(0) =~= all);
    while i < headers.len()
        invariant
            i <= headers@.len(),
            all == header_views(headers@),
            find_value(all, name@) == find_value(all.skip(i as int), name@),
        decreases headers@.len() - i,
    {
        proof {
            assert(all.skip(i as int)[0] == headers@[i as int]@);
            assert(all.skip(i as int).skip(1) =~= all.skip(i + 1));
        }
        if headers[i].is_named(name) {
            return Some(headers[i].value.as_slice());
        }
        i += 1;
    }
    None
}

/// What a path asks for.
#[derive(Clone, Copy, Debug, PartialEq, Eq, Structural)]
pub enum Route {
    Response421,
    RequestCancelled,
    VersionFallback,
    EarlyResponse,
    SetStuckZeroRtt,
    RequestRejected,
    UnknownReset,
    CloseAfter1000Ms,
    HttpOpportunistic,
    NoBody,
    NoContentLength,
    ContentLengthSmaller,
    Post,
    PriorityMirror,
    EarlyHints,
    GetWebTransportDatagram,
    AltSvcHeader,
    /// A body of this many bytes.
    Sized(usize),
    Other,
}

/// What a path asks for.
pub open spec fn route(path: Seq<u8>) -> Route {
    if path == "/Response421".spec_bytes() {
        Route::Response421
    } else if path == "/RequestCancelled".spec_bytes() {
        Route::RequestCancelled
    } else if path == "/VersionFallback".spec_bytes() {
        Route::VersionFallback
    } else if path == "/EarlyResponse".spec_bytes() {
        Route::EarlyResponse
    } else if path == "/SetStuckZeroRtt".spec_bytes() {
        Route::SetStuckZeroRtt
    } else if path == "/RequestRejected".spec_bytes() {
        Route::RequestRejected
    } else if path == "/UnknownReset".spec_bytes() {
        Route::UnknownReset
    } else if path == "/closeafter1000ms".spec_bytes() {
        Route::CloseAfter1000Ms
    } else if path == "/.well-known/http-opportunistic".spec_bytes() {
        Route::HttpOpportunistic
    } else if path == "/no_body".spec_bytes() {
        Route::NoBody
    } else if path == "/no_content_length".spec_bytes() {
        Route::NoContentLength
    } else if path == "/content_length_smaller".spec_bytes() {
        Route::ContentLengthSmaller
    } else if path == "/post".spec_bytes() {
        Route::Post
    } else if path == "/priority_mirror".spec_bytes() {
        Route::PriorityMirror
    } else if path == "/103_response".spec_bytes() {
        Route::EarlyHints
    } else if path == "/get_webtransport_datagram".spec_bytes() {
        Route::GetWebTransportDatagram
    } else if path == "/alt_svc_header".spec_bytes() {
        Route::AltSvcHeader
    } else {
        match unsigned(trim(path, either(0x2f, 0x2f)), usize::MAX as nat) {
            Some(n) => Route::Sized(n as usize),
            None => Route::Other,
        }
    }
}

/// What a path asks for.
pub fn find_route(path: &[u8]) -> (found: Route)
    ensures
        found == route(path@),
{
    if is_text(path, "/Response421") {
        Route::Response421
    } else if is_text(path, "/RequestCancelled") {
        Route::RequestCancelled
    } else if is_text(path, "/VersionFallback") {
        Route::VersionFallback
    } else if is_text(path, "/EarlyResponse") {
        Route::EarlyResponse
    } else if is_text(path, "/SetStuckZeroRtt") {
        Route::SetStuckZeroRtt
    } else if is_text(path, "/RequestRejected") {
        Route::RequestRejected
    } else if is_text(path, "/UnknownReset") {
        Route::UnknownReset
    } else if is_text(path, "/closeafter1000ms") {
        Route::CloseAfter1000Ms
    } else if is_text(path, "/.well-known/http-opportunistic") {
        Route::HttpOpportunistic
    } else if is_text(path, "/no_body") {
        Route::NoBody
    } else if is_text(path, "/no_content_length") {
        Route::NoContentLength
    } else if is_text(path, "/content_length_smaller") {
        Route::ContentLengthSmaller
    } else if is_text(path, "/post") {
        Route::Post
    } else if is_text(path, "/priority_mirror") {
        Route::PriorityMirror
    } else if is_text(path, "/103_response") {
        Route::EarlyHints
    } else if is_text(path, "/get_webtransport_datagram") {
        Route::GetWebTransportDatagram
    } else if is_text(path, "/alt_svc_header") {
        Route::AltSvcHeader
    } else {
        match parse_unsigned(trim_bytes(path, 0x2f, 0x2f), usize::MAX as u64) {
            Some(n) => Route::Sized(n as usize),
            None => Route::Other,
        }
    }
}

/// The path of a request, where it has one that is not empty.
pub open spec fn request_path(headers: Seq<HeaderView>) -> Option<Seq<u8>> {
    match find_value(headers, ":path"@) {
        Some(path) => if path.len() > 0 {
            Some(path)
        } else {
            None
        },
        None => None,
    }
}

/// The path of a request, where it has one that is not empty.
pub fn find_path<'a>(headers: &'a Vec<Header>) -> (path: Option<&'a [u8]>)
    ensures
        match path {
            Some(p) => request_path(header_views(headers@)) == Some(p@),
            None => request_path(header_views(headers@)) is None,
        },
{
    match find_header(headers, ":path") {
        Some(path) => if path.len() > 0 {
            Some(path)
        } else {
            None
        },
        None => None,
    }
}

/// A head with a status, for a text of a length.
pub open spec fn text_head(status: &'static str, len: nat) -> RequestActionView {
    RequestActionView::SendHeaders(
        seq![
            text_field(":status", status),
            text_field("cache-control", "no-cache"),
            text_field("content-type", "text/plain"),
            number_field("content-length", len),
        ],
    )
}

/// A head that says no more than that the request succeeded.
pub open spec fn bare_head(status: &'static str) -> RequestActionView {
    RequestActionView::SendHeaders(
        seq![text_field(":status", status), text_field("cache-control", "no-cache")],
    )
}

/// The answer to a request that asks for nothing in particular.
pub open spec fn default_answer(connection_hash: u64) -> Seq<RequestActionView> {
    seq![
        RequestActionView::SendHeaders(
            seq![
                text_field(":status", "200"),
                text_field("cache-control", "no-cache"),
                number_field("content-length", "Hello World".spec_bytes().len()),
                number_field("x-http3-conn-hash", connection_hash as nat),
            ],
        ),
        RequestActionView::Respond("Hello World".spec_bytes()),
    ]
}

/// A body of `n` letters.
pub open spec fn letters(n: nat) -> Seq<u8> {
    Seq::new(n, |i: int| 0x61u8)
}

/// The answers that hint at links before the real answer.
pub open spec fn hints(links: Seq<Seq<u8>>) -> Seq<RequestActionView> {
    links.map_values(
        |link: Seq<u8>|
            RequestActionView::SendHeaders(
                seq![text_field(":status", "103"), bytes_field("link", link)],
            ),
    )
}

/// The end of a stream after an error.
pub open spec fn aborted(code: u64) -> Seq<RequestActionView> {
    seq![RequestActionView::StopSending(code), RequestActionView::ResetSend(code)]
}

/// The content in which a host says that it can be reached without encryption.
pub open spec fn opportunistic_content(host: Seq<u8>) -> Seq<u8> {
    "[\"http://".spec_bytes() + host + "\"]".spec_bytes()
}

/// The contents of bytes that may be missing.
pub open spec fn data_view(data: Option<Vec<u8>>) -> Option<Seq<u8>> {
    match data {
        Some(d) => Some(d@),
        None => None,
    }
}

/// A text as an answer.
pub open spec fn text_answer(status: &'static str, body: &'static str) -> Seq<RequestActionView> {
    seq![
        text_head(status, body.spec_bytes().len()),
        RequestActionView::Respond(body.spec_bytes()),
    ]
}

/// An answer without a body.
pub open spec fn empty_answer(status: &'static str) -> Seq<RequestActionView> {
    seq![bare_head(status), RequestActionView::CloseSend]
}

/// A body of letters as an answer that does not announce its length.
pub open spec fn unannounced_answer(n: nat) -> Seq<RequestActionView> {
    seq![bare_head("200"), RequestActionView::Respond(letters(n))]
}

/// A body of `n` letters as an answer that announces `announced`.
pub open spec fn sized_answer(announced: nat, n: nat) -> Seq<RequestActionView> {
    seq![text_head("200", announced), RequestActionView::Respond(letters(n))]
}

/// The answer in which a host says that it can be reached without encryption; one that is not
/// named gives the default answer.
pub open spec fn opportunistic_answer(
    headers: Seq<HeaderView>,
    connection_hash: u64,
) -> Seq<RequestActionView> {
    match find_value(headers, ":authority"@) {
        Some(host) => if host.len() > 0 {
            seq![
                RequestActionView::SendHeaders(
                    seq![
                        text_field(":status", "200"),
                        text_field("cache-control", "no-cache"),
                        text_field("content-type", "application/json"),
                        number_field("content-length", opportunistic_content(host).len()),
                    ],
                ),
                RequestActionView::Respond(opportunistic_content(host)),
            ]
        } else {
            default_answer(connection_hash)
        },
        None => default_answer(connection_hash),
    }
}

/// The answer that gives the priority of the request back.
pub open spec fn priority_answer(headers: Seq<HeaderView>) -> Seq<RequestActionView> {
    match find_value(headers, "priority"@) {
        Some(priority) => seq![
            RequestActionView::SendHeaders(
                seq![
                    text_field(":status", "200"),
                    text_field("cache-control", "no-cache"),
                    text_field("content-type", "text/plain"),
                    bytes_field("priority-mirror", priority),
                    number_field("content-length", priority.len()),
                ],
            ),
            RequestActionView::Respond(priority),
        ],
        None => empty_answer("200"),
    }
}

/// The answer with hints at the links that the request names, separated by commas.
pub open spec fn hints_answer(headers: Seq<HeaderView>) -> Seq<RequestActionView> {
    (match find_value(headers, "link-to-set"@) {
        Some(links) => hints(split(links, either(0x2c, 0x2c))),
        None => Seq::empty(),
    }) + seq![
        RequestActionView::SendHeaders(
            seq![
                text_field(":status", "200"),
                text_field("cache-control", "no-cache"),
                text_field("content-length", "0"),
            ],
        ),
        RequestActionView::CloseSend,
    ]
}

/// The answer that gives a received datagram back.
pub open spec fn datagram_answer(datagram: Option<Seq<u8>>) -> Seq<RequestActionView> {
    match datagram {
        Some(data) => seq![
            RequestActionView::SendHeaders(
                seq![
                    text_field(":status", "200"),
                    number_field("content-length", data.len()),
                ],
            ),
            RequestActionView::Respond(data),
        ],
        None => empty_answer("404"),
    }
}

/// The answer that names the alternative service that the request names.
pub open spec fn alt_svc_answer(headers: Seq<HeaderView>) -> Seq<RequestActionView> {
    match find_value(headers, "x-altsvc"@) {
        Some(service) => seq![
            RequestActionView::SendHeaders(
                seq![
                    text_field(":status", "200"),
                    text_field("cache-control", "no-cache"),
                    text_field("content-type", "text/plain"),
                    number_field("content-length", 100),
                    bytes_field("alt-svc", "h3=".spec_bytes() + service),
                ],
            ),
            RequestActionView::Respond(letters(100)),
        ],
        None => unannounced_answer(100),
    }
}

/// The answer to a request. `datagram` is the datagram that was received last and not asked for
/// yet.
pub open spec fn answer(
    route: Route,
    headers: Seq<HeaderView>,
    datagram: Option<Seq<u8>>,
    connection_hash: u64,
) -> Seq<RequestActionView> {
    match route {
        Route::Response421 => text_answer("421", "0123456789"),
        Route::RequestCancelled => aborted(HTTP_REQUEST_CANCELLED),
        Route::VersionFallback => aborted(HTTP_VERSION_FALLBACK),
        Route::EarlyResponse => seq![RequestActionView::StopSending(HTTP_NONE)],
        Route::SetStuckZeroRtt => text_answer("200", "Stuck 0-RTT mode enabled"),
        Route::RequestRejected => aborted(HTTP_REQUEST_REJECTED),
        Route::UnknownReset => aborted(UNKNOWN_CODE),
        Route::CloseAfter1000Ms => text_answer("200", "0123456789"),
        Route::HttpOpportunistic => opportunistic_answer(headers, connection_hash),
        Route::NoBody => empty_answer("200"),
        Route::NoContentLength => unannounced_answer(4000),
        Route::ContentLengthSmaller => sized_answer(4000, 8000),
        Route::Post => Seq::empty(),
        Route::PriorityMirror => priority_answer(headers),
        Route::EarlyHints => hints_answer(headers),
        Route::GetWebTransportDatagram => datagram_answer(datagram),
        Route::AltSvcHeader => alt_svc_answer(headers),
        Route::Sized(n) => sized_answer(n as nat, n as nat),
        Route::Other => default_answer(connection_hash),
    }
}

/// Whether the header fields that a route gives back are texts, and the body that is asked for is
/// not too long to exist.
pub open spec fn is_answerable(route: Route, headers: Seq<HeaderView>) -> bool {
    match route {
        Route::PriorityMirror => find_value(headers, "priority"@) matches Some(v) ==> valid_utf8(v),
        Route::EarlyHints => find_value(headers, "link-to-set"@) matches Some(v) ==> valid_utf8(v),
        Route::AltSvcHeader => find_value(headers, "x-altsvc"@) matches Some(v) ==> valid_utf8(v),
        Route::Sized(n) => n <= isize::MAX,
        _ => true,
    }
}

fn is_text_or_missing(value: Option<&[u8]>) -> (text: bool)
    ensures
        text == (value matches Some(v) ==> valid_utf8(v@)),
{
    match value {
        Some(v) => crate::text::decoded(v).is_some(),
        None => true,
    }
}

/// Whether a request can be answered.
pub fn can_answer(route: Route, headers: &Vec<Header>) -> (can: bool)
    ensures
        can == is_answerable(route, header_views(headers@)),
{
    match route {
        Route::PriorityMirror => is_text_or_missing(find_header(headers, "priority")),
        Route::EarlyHints => is_text_or_missing(find_header(headers, "link-to-set")),
        Route::AltSvcHeader => is_text_or_missing(find_header(headers, "x-altsvc")),
        Route::Sized(n) => n <= isize::MAX as usize,
        _ => true,
    }
}

fn text_header(status: &'static str, len: usize) -> (action: RequestAction)
    ensures
        action@ == text_head(status, len as nat),
{
    let mut headers: Vec<Header> = Vec::new();
    push_text(&mut headers, ":status", status);
    push_text(&mut headers, "cache-control", "no-cache");
    push_text(&mut headers, "content-type", "text/plain");
    push_number(&mut headers, "content-length", len as u64);
    assert(header_views(headers@) =~= text_head(status, len as nat)->SendHeaders_0);
    RequestAction::SendHeaders(headers)
}

fn bare_header(status: &'static str) -> (action: RequestAction)
    ensures
        action@ == bare_head(status),
{
    let mut headers: Vec<Header> = Vec::new();
    push_text(&mut headers, ":status", status);
    push_text(&mut headers, "cache-control", "no-cache");
    assert(header_views(headers@) =~= bare_head(status)->SendHeaders_0);
    RequestAction::SendHeaders(headers)
}

fn two_actions(first: RequestAction, second: RequestAction) -> (actions: Vec<RequestAction>)
    ensures
        action_views(actions@) == seq![first@, second@],
{
    let mut actions: Vec<RequestAction> = Vec::new();
    actions.push(first);
    actions.push(second);
    assert(action_views(actions@) =~= seq![first@, second@]);
    actions
}

fn answer_default(connection_hash: u64) -> (actions: Vec<RequestAction>)
    ensures
        action_views(actions@) == default_answer(connection_hash),
{
    let body = text_bytes("Hello World");
    let mut headers: Vec<Header> = Vec::new();
    push_text(&mut headers, ":status", "200");
    push_text(&mut headers, "cache-control", "no-cache");
    push_number(&mut headers, "content-length", body.len() as u64);
    push_number(&mut headers, "x-http3-conn-hash", connection_hash);
    assert(header_views(headers@) =~= default_answer(connection_hash)[0]->SendHeaders_0);
    two_actions(RequestAction::SendHeaders(headers), RequestAction::Respond(body))
}

fn answer_text(status: &'static str, body: &'static str) -> (actions: Vec<RequestAction>)
    ensures
        action_views(actions@) == text_answer(status, body),
{
    let body = text_bytes(body);
    two_actions(text_header(status, body.len()), RequestAction::Respond(body))
}

fn answer_aborted(code: u64) -> (actions: Vec<RequestAction>)
    ensures
        action_views(actions@) == aborted(code),
{
    two_actions(RequestAction::StopSending(code), RequestAction::ResetSend(code))
}

fn answer_empty(status: &'static str) -> (actions: Vec<RequestAction>)
    ensures
        action_views(actions@) == empty_answer(status),
{
    two_actions(bare_header(status), RequestAction::CloseSend)
}

fn answer_unannounced(n: usize) -> (actions: Vec<RequestAction>)
    ensures
        action_views(actions@) == unannounced_answer(n as nat),
{
    let body = repeated(0x61, n);
    assert(body@ =~= letters(n as nat));
    two_actions(bare_header("200"), RequestAction::Respond(body))
}

fn answer_sized(announced: usize, n: usize) -> (actions: Vec<RequestAction>)
    ensures
        action_views(actions@) == sized_answer(announced as nat, n as nat),
{
    let body = repeated(0x61, n);
    assert(body@ =~= letters(n as nat));
    two_actions(text_header("200", announced), RequestAction::Respond(body))
}

fn answer_opportunistic(headers: &Vec<Header>, connection_hash: u64) -> (actions: Vec<
    RequestAction,
>)
    ensures
        action_views(actions@) == opportunistic_answer(header_views(headers@), connection_hash),
{
    match find_header(headers, ":authority") {
        Some(host) => {
            if host.len() == 0 {
                return answer_default(connection_hash);
            }
            let mut content = text_bytes("[\"http://");
            append(&mut content, host);
            append(&mut content, "\"]".as_bytes());
            let mut head: Vec<Header> = Vec::new();
            push_text(&mut head, ":status", "200");
            push_text(&mut head, "cache-control", "no-cache");
            push_text(&mut head, "content-type", "application/json");
            push_number(&mut head, "content-length", content.len() as u64);
            assert(header_views(head@) =~= seq![
                text_field(":status", "200"),
                text_field("cache-control", "no-cache"),
                text_field("content-type", "application/json"),
                number_field("content-length", opportunistic_content(host@).len()),
            ]);
            two_actions(RequestAction::SendHeaders(head), RequestAction::Respond(content))
        },
        None => answer_default(connection_hash),
    }
}

fn answer_priority(headers: &Vec<Header>) -> (actions: Vec<RequestAction>)
    ensures
        action_views(actions@) == priority_answer(header_views(headers@)),
{
    match find_header(headers, "priority") {
        Some(priority) => {
            let mut head: Vec<Header> = Vec::new();
            push_text(&mut head, ":status", "200");
            push_text(&mut head, "cache-control", "no-cache");
            push_text(&mut head, "content-type", "text/plain");
            push_bytes(&mut head, "priority-mirror", priority);
            push_number(&mut head, "content-length", priority.len() as u64);
            assert(header_views(head@) =~= seq![
                text_field(":status", "200"),
                text_field("cache-control", "no-cache"),
                text_field("content-type", "text/plain"),
                bytes_field("priority-mirror", priority@),
                number_field("content-length", priority@.len()),
            ]);
            two_actions(
                RequestAction::SendHeaders(head),
                RequestAction::Respond(copy(priority)),
            )
        },
        None => answer_empty("200"),
    }
}

fn answer_alt_svc(headers: &Vec<Header>) -> (actions: Vec<RequestAction>)
    ensures
        action_views(actions@) == alt_svc_answer(header_views(headers@)),
{
    match find_header(headers, "x-altsvc") {
        Some(service) => {
            let mut value = text_bytes("h3=");
            append(&mut value, service);
            let mut head: Vec<Header> = Vec::new();
            push_text(&mut head, ":status", "200");
            push_text(&mut head, "cache-control", "no-cache");
            push_text(&mut head, "content-type", "text/plain");
            push_number(&mut head, "content-length", 100);
            push_bytes(&mut head, "alt-svc", value.as_slice());
            assert(header_views(head@) =~= seq![
                text_field(":status", "200"),
                text_field("cache-control", "no-cache"),
                text_field("content-type", "text/plain"),
                number_field("content-length", 100),
                bytes_field("alt-svc", "h3=".spec_bytes() + service@),
            ]);
            let body = repeated(0x61, 100);
            assert(body@ =~= letters(100));
            two_actions(RequestAction::SendHeaders(head), RequestAction::Respond(body))
        },
        None => answer_unannounced(100),
    }
}

fn answer_datagram(datagram: &Option<Vec<u8>>) -> (actions: Vec<RequestAction>)
    ensures
        action_views(actions@) == datagram_answer(data_view(*datagram)),
{
    match datagram {
        Some(data) => {
            let mut head: Vec<Header> = Vec::new();
            push_text(&mut head, ":status", "200");
            push_number(&mut head, "content-length", data.len() as u64);
            assert(header_views(head@) =~= seq![
                text_field(":status", "200"),
                number_field("content-length", data@.len()),
            ]);
            two_actions(
                RequestAction::SendHeaders(head),
                RequestAction::Respond(copy(data.as_slice())),
            )
        },
        None => answer_empty("404"),
    }
}

fn push_hints(actions: &mut Vec<RequestAction>, links: &[u8])
    ensures
        action_views(final(actions)@) == action_views(old(actions)@) + hints(
            split(links@, either(0x2c, 0x2c)),
        ),
{
    let pieces = split_at(links, 0x2c, 0x2c);
    let ghost all = slices(pieces@);
    let ghost start = action_views(actions@);
    let mut i: usize = 0;
    assert(start =~= start + hints(all.take(0)));
    while i < pieces.len()
        invariant
            i <= pieces@.len(),
            all == slices(pieces@),
            action_views(actions@) == start + hints(all.take(i as int)),
        decreases pieces@.len() - i,
    {
        let mut head: Vec<Header> = Vec::new();
        push_text(&mut head, ":status", "103");
        push_bytes(&mut head, "link", pieces[i]);
        assert(header_views(head@) =~= seq![
            text_field(":status", "103"),
            bytes_field("link", all[i as int]),
        ]);
        push_action(actions, RequestAction::SendHeaders(head));
        assert(action_views(actions@) =~= start + hints(all.take(i + 1)));
        i += 1;
    }
    assert(all.take(i as int) =~= all);
}

fn answer_hints(headers: &Vec<Header>) -> (actions: Vec<RequestAction>)
    ensures
        action_views(actions@) == hints_answer(header_views(headers@)),
{
    let mut actions: Vec<RequestAction> = Vec::new();
    assert(action_views(actions@) =~= Seq::<RequestActionView>::empty());
    if let Some(links) = find_header(headers, "link-to-set") {
        push_hints(&mut actions, links);
    }
    let mut head: Vec<Header> = Vec::new();
    push_text(&mut head, ":status", "200");
    push_text(&mut head, "cache-control", "no-cache");
    push_text(&mut head, "content-length", "0");
    assert(header_views(head@) =~= seq![
        text_field(":status", "200"),
        text_field("cache-control", "no-cache"),
        text_field("content-length", "0"),
    ]);
    push_action(&mut actions, RequestAction::SendHeaders(head));
    push_action(&mut actions, RequestAction::CloseSend);
    assert(action_views(actions@) =~= hints_answer(header_views(headers@)));
    actions
}

fn answer_early() -> (actions: Vec<RequestAction>)
    ensures
        action_views(actions@) == seq![RequestActionView::StopSending(HTTP_NONE)],
{
    let mut actions: Vec<RequestAction> = Vec::new();
    push_action(&mut actions, RequestAction::StopSending(HTTP_NONE));
    assert(action_views(actions@) =~= seq![RequestActionView::StopSending(HTTP_NONE)]);
    actions
}

fn no_answer() -> (actions: Vec<RequestAction>)
    ensures
        action_views(actions@) == Seq::<RequestActionView>::empty(),
{
    let actions: Vec<RequestAction> = Vec::new();
    assert(action_views(actions@) =~= Seq::<RequestActionView>::empty());
    actions
}

/// The answer to a request.
pub fn answer_request(
    route: Route,
    headers: &Vec<Header>,
    datagram: &Option<Vec<u8>>,
    connection_hash: u64,
) -> (actions: Vec<RequestAction>)
    requires
        is_answerable(route, header_views(headers@)),
    ensures
        action_views(actions@) == answer(
            route,
            header_views(headers@),
            data_view(*datagram),
            connection_hash,
        ),
{
    match route {
        Route::Response421 => answer_text("421", "0123456789"),
        Route::RequestCancelled => answer_aborted(HTTP_REQUEST_CANCELLED),
        Route::VersionFallback => answer_aborted(HTTP_VERSION_FALLBACK),
        Route::EarlyResponse => answer_early(),
        Route::SetStuckZeroRtt => answer_text("200", "Stuck 0-RTT mode enabled"),
        Route::RequestRejected => answer_aborted(HTTP_REQUEST_REJECTED),
        Route::UnknownReset => answer_aborted(UNKNOWN_CODE),
        Route::CloseAfter1000Ms => answer_text("200", "0123456789"),
        Route::HttpOpportunistic => answer_opportunistic(headers, connection_hash),
        Route::NoBody => answer_empty("200"),
        Route::NoContentLength => answer_unannounced(4000),
        Route::ContentLengthSmaller => answer_sized(4000, 8000),
        Route::Post => no_answer(),
        Route::PriorityMirror => answer_priority(headers),
        Route::EarlyHints => answer_hints(headers),
        Route::GetWebTransportDatagram => answer_datagram(datagram),
        Route::AltSvcHeader => answer_alt_svc(headers),
        Route::Sized(n) => answer_sized(n, n),
        Route::Other => answer_default(connection_hash),
    }
}

/// The head and the body of the answer to a finished upload.
pub open spec fn post_answer(received: nat) -> Seq<RequestActionView> {
    seq![
        RequestActionView::SendHeaders(
            seq![
                text_field(":status", "200"),
                text_field("cache-control", "no-cache"),
                number_field("x-data-received-length", received),
                number_field("content-length", "Hello World".spec_bytes().len()),
            ],
        ),
        RequestActionView::Respond("Hello World".spec_bytes()),
    ]
}

/// The answer to a finished upload of `received` bytes.
pub fn answer_post(received: usize) -> (actions: Vec<RequestAction>)
    ensures
        action_views(actions@) == post_answer(received as nat),
{
    let body = text_bytes("Hello World");
    let mut head: Vec<Header> = Vec::new();
    push_text(&mut head, ":status", "200");
    push_text(&mut head, "cache-control", "no-cache");
    push_number(&mut head, "x-data-received-length", received as u64);
    push_number(&mut head, "content-length", body.len() as u64);
    assert(header_views(head@) =~= post_answer(received as nat)[0]->SendHeaders_0);
    let mut actions: Vec<RequestAction> = Vec::new();
    push_action(&mut actions, RequestAction::SendHeaders(head));
    push_action(&mut actions, RequestAction::Respond(body));
    assert(action_views(actions@) =~= post_answer(received as nat));
    actions
}

/// Whether every length that a head announces is that of the body.
pub open spec fn announces(head: Seq<HeaderView>, body: Seq<u8>) -> bool {
    forall|i: int|
        0 <= i < head.len() && (#[trigger] head[i]).name == "content-length"@ ==> head[i].value
            == encode_utf8(decimal(body.len()))
}

proof fn lemma_names()
    ensures
        ":status"@ != "content-length"@,
        "cache-control"@ != "content-length"@,
        "content-type"@ != "content-length"@,
        "x-http3-conn-hash"@ != "content-length"@,
        "priority-mirror"@ != "content-length"@,
        "alt-svc"@ != "content-length"@,
{
    reveal_strlit("content-length");
    reveal_strlit(":status");
    reveal_strlit("cache-control");
    reveal_strlit("content-type");
    reveal_strlit("x-http3-conn-hash");
    reveal_strlit("priority-mirror");
    reveal_strlit("alt-svc");
    assert("content-length"@.len() == 14);
    assert(":status"@.len() == 7);
    assert("cache-control"@.len() == 13);
    assert("content-type"@.len() == 12);
    assert("x-http3-conn-hash"@.len() == 17);
    assert("priority-mirror"@.len() == 15);
    assert("alt-svc"@.len() == 7);
}

/// Whether an answer that has a head and a body announces the length of the body.
#[verifier::opaque]
pub open spec fn is_honest(actions: Seq<RequestActionView>) -> bool {
    actions.len() == 2 ==> match (actions[0], actions[1]) {
        (RequestActionView::SendHeaders(head), RequestActionView::Respond(body)) => announces(
            head,
            body,
        ),
        _ => true,
    }
}

proof fn lemma_honest(head: Seq<HeaderView>, k: int, body: Seq<u8>)
    requires
        0 <= k < head.len(),
        head[k] == number_field("content-length", body.len()),
        forall|i: int|
            0 <= i < head.len() && i != k ==> (#[trigger] head[i]).name != "content-length"@,
    ensures
        is_honest(
            seq![RequestActionView::SendHeaders(head), RequestActionView::Respond(body)],
        ),
{
    reveal(is_honest);
}

proof fn lemma_without_body(actions: Seq<RequestActionView>)
    requires
        actions.len() != 2 || !(actions[0] is SendHeaders) || !(actions[1] is Respond),
    ensures
        is_honest(actions),
{
    reveal(is_honest);
}

proof fn lemma_text_answer(status: &'static str, body: Seq<u8>)
    ensures
        is_honest(seq![text_head(status, body.len()), RequestActionView::Respond(body)]),
{
    lemma_names();
    lemma_honest(text_head(status, body.len())->SendHeaders_0, 3, body);
}

proof fn lemma_default_answer(connection_hash: u64)
    ensures
        is_honest(default_answer(connection_hash)),
{
    lemma_names();
    let head = default_answer(connection_hash)[0]->SendHeaders_0;
    lemma_honest(head, 2, "Hello World".spec_bytes());
}

proof fn lemma_unannounced_answer(n: nat)
    ensures
        is_honest(unannounced_answer(n)),
{
    lemma_names();
    reveal(is_honest);
}

proof fn lemma_empty_answer(status: &'static str)
    ensures
        is_honest(empty_answer(status)),
{
    lemma_without_body(empty_answer(status));
}

proof fn lemma_opportunistic_answer(headers: Seq<HeaderView>, connection_hash: u64)
    ensures
        is_honest(opportunistic_answer(headers, connection_hash)),
{
    lemma_names();
    lemma_default_answer(connection_hash);
    if let Some(host) = find_value(headers, ":authority"@) {
        if host.len() > 0 {
            let head = opportunistic_answer(headers, connection_hash)[0]->SendHeaders_0;
            lemma_honest(head, 3, opportunistic_content(host));
        }
    }
}

proof fn lemma_priority_answer(headers: Seq<HeaderView>)
    ensures
        is_honest(priority_answer(headers)),
{
    lemma_names();
    lemma_empty_answer("200");
    if let Some(priority) = find_value(headers, "priority"@) {
        lemma_honest(priority_answer(headers)[0]->SendHeaders_0, 4, priority);
    }
}

proof fn lemma_datagram_answer(datagram: Option<Seq<u8>>)
    ensures
        is_honest(datagram_answer(datagram)),
{
    lemma_names();
    lemma_empty_answer("404");
    if let Some(data) = datagram {
        lemma_honest(datagram_answer(datagram)[0]->SendHeaders_0, 1, data);
    }
}

proof fn lemma_alt_svc_answer(headers: Seq<HeaderView>)
    ensures
        is_honest(alt_svc_answer(headers)),
{
    lemma_names();
    lemma_unannounced_answer(100);
    if let Some(service) = find_value(headers, "x-altsvc"@) {
        assert(letters(100).len() == 100);
        lemma_honest(alt_svc_answer(headers)[0]->SendHeaders_0, 3, letters(100));
    }
}

proof fn lemma_hints_answer(headers: Seq<HeaderView>)
    ensures
        is_honest(hints_answer(headers)),
{
    assert(hints_answer(headers).last() == RequestActionView::CloseSend);
    lemma_without_body(hints_answer(headers));
}

/// The length that an answer announces is that of its body, but for the path that is there to
/// announce a smaller one.
pub proof fn law_announced_length(
    route: Route,
    headers: Seq<HeaderView>,
    datagram: Option<Seq<u8>>,
    connection_hash: u64,
)
    requires
        route != Route::ContentLengthSmaller,
    ensures
        is_honest(answer(route, headers, datagram, connection_hash)),
{
    match route {
        Route::Response421 => lemma_text_answer("421", "0123456789".spec_bytes()),
        Route::SetStuckZeroRtt => lemma_text_answer(
            "200",
            "Stuck 0-RTT mode enabled".spec_bytes(),
        ),
        Route::CloseAfter1000Ms => lemma_text_answer("200", "0123456789".spec_bytes()),
        Route::HttpOpportunistic => lemma_opportunistic_answer(headers, connection_hash),
        Route::NoBody => lemma_empty_answer("200"),
        Route::NoContentLength => lemma_unannounced_answer(4000),
        Route::PriorityMirror => lemma_priority_answer(headers),
        Route::EarlyHints => lemma_hints_answer(headers),
        Route::GetWebTransportDatagram => lemma_datagram_answer(datagram),
        Route::AltSvcHeader => lemma_alt_svc_answer(headers),
        Route::Sized(n) => {
            assert(letters(n as nat).len() == n);
            lemma_text_answer("200", letters(n as nat));
        },
        Route::Other => lemma_default_answer(connection_hash),
        _ => lemma_without_body(answer(route, headers, datagram, connection_hash)),
    }
}

/// The paths that ask for something in particular can be told apart by their length and their
/// second byte, and none is a number.
proof fn lemma_paths()
    ensures
        "/Response421".spec_bytes().len() == 12 && "/Response421".spec_bytes()[1] == 0x52,
        "/RequestCancelled".spec_bytes().len() == 17 && "/RequestCancelled".spec_bytes()[1] == 0x52,
        "/VersionFallback".spec_bytes().len() == 16 && "/VersionFallback".spec_bytes()[1] == 0x56,
        "/EarlyResponse".spec_bytes().len() == 14 && "/EarlyResponse".spec_bytes()[1] == 0x45,
        "/SetStuckZeroRtt".spec_bytes().len() == 16 && "/SetStuckZeroRtt".spec_bytes()[1] == 0x53,
        "/RequestRejected".spec_bytes().len() == 16 && "/RequestRejected".spec_bytes()[1] == 0x52,
        "/UnknownReset".spec_bytes().len() == 13 && "/UnknownReset".spec_bytes()[1] == 0x55,
        "/closeafter1000ms".spec_bytes().len() == 17 && "/closeafter1000ms".spec_bytes()[1] == 0x63,
        "/.well-known/http-opportunistic".spec_bytes().len() == 31,
        "/.well-known/http-opportunistic".spec_bytes()[1] == 0x2e,
        "/no_body".spec_bytes().len() == 8 && "/no_body".spec_bytes()[1] == 0x6e,
        "/no_content_length".spec_bytes().len() == 18,
        "/no_content_length".spec_bytes()[1] == 0x6e,
        "/content_length_smaller".spec_bytes().len() == 23,
        "/content_length_smaller".spec_bytes()[1] == 0x63,
        "/post".spec_bytes().len() == 5 && "/post".spec_bytes()[1] == 0x70,
        "/priority_mirror".spec_bytes().len() == 16 && "/priority_mirror".spec_bytes()[1] == 0x70,
        "/103_response".spec_bytes().len() == 13 && "/103_response".spec_bytes()[1] == 0x31,
        "/get_webtransport_datagram".spec_bytes().len() == 26,
        "/get_webtransport_datagram".spec_bytes()[1] == 0x67,
        "/alt_svc_header".spec_bytes().len() == 15 && "/alt_svc_header".spec_bytes()[1] == 0x61,
        "/103_response".spec_bytes()[4] == 0x5f,
{
    reveal_strlit("/Response421");
    vstd::string::is_ascii_spec_bytes("/Response421");
    reveal_strlit("/RequestCancelled");
    vstd::string::is_ascii_spec_bytes("/RequestCancelled");
    reveal_strlit("/VersionFallback");
    vstd::string::is_ascii_spec_bytes("/VersionFallback");
    reveal_strlit("/EarlyResponse");
    vstd::string::is_ascii_spec_bytes("/EarlyResponse");
    reveal_strlit("/SetStuckZeroRtt");
    vstd::string::is_ascii_spec_bytes("/SetStuckZeroRtt");
    reveal_strlit("/RequestRejected");
    vstd::string::is_ascii_spec_bytes("/RequestRejected");
    reveal_strlit("/UnknownReset");
    vstd::string::is_ascii_spec_bytes("/UnknownReset");
    reveal_strlit("/closeafter1000ms");
    vstd::string::is_ascii_spec_bytes("/closeafter1000ms");
    reveal_strlit("/.well-known/http-opportunistic");
    vstd::string::is_ascii_spec_bytes("/.well-known/http-opportunistic");
    reveal_strlit("/no_body");
    vstd::string::is_ascii_spec_bytes("/no_body");
    reveal_strlit("/no_content_length");
    vstd::string::is_ascii_spec_bytes("/no_content_length");
    reveal_strlit("/content_length_smaller");
    vstd::string::is_ascii_spec_bytes("/content_length_smaller");
    reveal_strlit("/post");
    vstd::string::is_ascii_spec_bytes("/post");
    reveal_strlit("/priority_mirror");
    vstd::string::is_ascii_spec_bytes("/priority_mirror");
    reveal_strlit("/103_response");
    vstd::string::is_ascii_spec_bytes("/103_response");
    reveal_strlit("/get_webtransport_datagram");
    vstd::string::is_ascii_spec_bytes("/get_webtransport_datagram");
    reveal_strlit("/alt_svc_header");
    vstd::string::is_ascii_spec_bytes("/alt_svc_header");
}

/// Each of the paths that ask for something in particular asks for it, and no other path does.
pub proof fn law_routes(path: &[u8], found: Route)
    requires
        call_ensures(find_route, (path,), found),
    ensures
        found is Response421 <==> path@ == "/Response421".spec_bytes(),
        found is RequestCancelled <==> path@ == "/RequestCancelled".spec_bytes(),
        found is VersionFallback <==> path@ == "/VersionFallback".spec_bytes(),
        found is EarlyResponse <==> path@ == "/EarlyResponse".spec_bytes(),
        found is SetStuckZeroRtt <==> path@ == "/SetStuckZeroRtt".spec_bytes(),
        found is RequestRejected <==> path@ == "/RequestRejected".spec_bytes(),
        found is UnknownReset <==> path@ == "/UnknownReset".spec_bytes(),
        found is CloseAfter1000Ms <==> path@ == "/closeafter1000ms".spec_bytes(),
        found is HttpOpportunistic <==> path@ == "/.well-known/http-opportunistic".spec_bytes(),
        found is NoBody <==> path@ == "/no_body".spec_bytes(),
        found is NoContentLength <==> path@ == "/no_content_length".spec_bytes(),
        found is ContentLengthSmaller <==> path@ == "/content_length_smaller".spec_bytes(),
        found is Post <==> path@ == "/post".spec_bytes(),
        found is PriorityMirror <==> path@ == "/priority_mirror".spec_bytes(),
        found is EarlyHints <==> path@ == "/103_response".spec_bytes(),
        found is GetWebTransportDatagram <==> path@ == "/get_webtransport_datagram".spec_bytes(),
        found is AltSvcHeader <==> path@ == "/alt_svc_header".spec_bytes(),
{
    lemma_paths();
}

/// A path that is a number asks for a body of so many bytes.
pub proof fn law_sized_route(path: &[u8], found: Route, n: nat)
    requires
        call_ensures(find_route, (path,), found),
        n <= usize::MAX,
        path@ == seq![0x2fu8] + encode_utf8(decimal(n)),
    ensures
        found == Route::Sized(n as usize),
{
    let digits = encode_utf8(decimal(n));
    let f = either(0x2f, 0x2f);
    lemma_paths();
    lemma_decimal_bytes(n);
    law_decimal_round_trip(n, usize::MAX as nat);
    assert(is_digit(digits[0]));
    assert(is_digit(digits[digits.len() - 1]));
    assert(path@[1] == digits[0]);
    if path@.len() == 13 {
        assert(is_digit(digits[3]));
        assert(path@[4] == digits[3]);
    }
    assert(path@.skip(1) =~= digits);
    assert(trim_start(digits, f) == digits);
    assert(trim_start(path@, f) == trim_start(path@.skip(1), f));
    assert(trim_end(digits, f) == digits);
}

/// A value is found under a name exactly where a field has that name, and it is that of the first
/// such field.
pub proof fn law_first_value(headers: Seq<HeaderView>, name: Seq<char>, k: int)
    requires
        0 <= k < headers.len(),
        headers[k].name == name,
        forall|i: int| 0 <= i < k ==> (#[trigger] headers[i]).name != name,
    ensures
        find_value(headers, name) == Some(headers[k].value),
    decreases k,
{
    if k > 0 {
        assert(headers[0].name != name);
        let rest = headers.skip(1);
        assert forall|i: int| 0 <= i < k - 1 implies (#[trigger] rest[i]).name != name by {
            assert(rest[i] == headers[i + 1]);
        }
        law_first_value(rest, name, k - 1);
    }
}

/// No value is found under a name that no field has.
pub proof fn law_no_value(headers: Seq<HeaderView>, name: Seq<char>)
    requires
        forall|i: int| 0 <= i < headers.len() ==> (#[trigger] headers[i]).name != name,
    ensures
        find_value(headers, name) is None,
    decreases headers.len(),
{
    if headers.len() > 0 {
        assert(headers[0].name != name);
        let rest = headers.skip(1);
        assert forall|i: int| 0 <= i < rest.len() implies (#[trigger] rest[i]).name != name by {
            assert(rest[i] == headers[i + 1]);
        }
        law_no_value(rest, name);
    }
}

/// Whether a head has a field with this name and value.
pub open spec fn has_field(head: Seq<HeaderView>, name: &'static str, value: Seq<u8>) -> bool {
    exists|i: int|
        0 <= i < head.len() && (#[trigger] head[i]).name == name@ && head[i].value == value
}

/// Whether no field of a head has this name.
pub open spec fn lacks_field(head: Seq<HeaderView>, name: &'static str) -> bool {
    forall|i: int| 0 <= i < head.len() ==> (#[trigger] head[i]).name != name@
}

/// Whether an answer is a head with this status, and then this body.
pub open spec fn replies(
    actions: Seq<RequestActionView>,
    status: &'static str,
    body: Seq<u8>,
) -> bool {
    &&& actions.len() == 2
    &&& actions[0] is SendHeaders
    &&& actions[0]->SendHeaders_0.len() > 0
    &&& actions[0]->SendHeaders_0[0].name == ":status"@
    &&& actions[0]->SendHeaders_0[0].value == status.spec_bytes()
    &&& actions[1] == RequestActionView::Respond(body)
}

/// Whether an answer is a head with this status, and then the end.
pub open spec fn replies_empty(actions: Seq<RequestActionView>, status: &'static str) -> bool {
    &&& actions.len() == 2
    &&& actions[0] is SendHeaders
    &&& actions[0]->SendHeaders_0.len() > 0
    &&& actions[0]->SendHeaders_0[0].name == ":status"@
    &&& actions[0]->SendHeaders_0[0].value == status.spec_bytes()
    &&& actions[1] is CloseSend
}

/// Whether a request is turned away with a code, in both directions.
pub open spec fn turns_away(actions: Seq<RequestActionView>, code: u64) -> bool {
    &&& actions.len() == 2
    &&& actions[0] == RequestActionView::StopSending(code)
    &&& actions[1] == RequestActionView::ResetSend(code)
}

/// The paths that abort a request do so with their own code; the early answer only says that no
/// more is wanted, and an upload is not answered before it is over.
pub proof fn law_aborted_requests(
    route: Route,
    headers: Vec<Header>,
    datagram: Option<Vec<u8>>,
    connection_hash: u64,
    actions: Vec<RequestAction>,
)
    requires
        is_answerable(route, header_views(headers@)),
        call_ensures(answer_request, (route, &headers, &datagram, connection_hash), actions),
    ensures
        ({
            let a = action_views(actions@);
            &&& route is RequestCancelled ==> turns_away(a, 0x10c)
            &&& route is VersionFallback ==> turns_away(a, 0x110)
            &&& route is RequestRejected ==> turns_away(a, 0x10b)
            &&& route is UnknownReset ==> turns_away(a, 0xfe)
            &&& route is EarlyResponse ==> a.len() == 1 && a[0] == RequestActionView::StopSending(
                0x100,
            )
            &&& route is Post <==> a.len() == 0
        }),
{
    assert(actions@.len() == action_views(actions@).len());
    if route is EarlyHints {
        let a = hints_answer(header_views(headers@));
        assert(a[a.len() - 1] is CloseSend);
    }
}

/// The paths that give a fixed text, or letters, give exactly these. The one that announces less
/// announces 4000 of 8000 letters, the one that announces nothing gives 4000, and a number gives
/// as many letters as it says.
pub proof fn law_fixed_answers(
    route: Route,
    headers: Vec<Header>,
    datagram: Option<Vec<u8>>,
    connection_hash: u64,
    actions: Vec<RequestAction>,
    n: usize,
)
    requires
        is_answerable(route, header_views(headers@)),
        call_ensures(answer_request, (route, &headers, &datagram, connection_hash), actions),
    ensures
        ({
            let a = action_views(actions@);
            let head = a[0]->SendHeaders_0;
            &&& route is Response421 ==> replies(a, "421", "0123456789".spec_bytes())
            &&& route is SetStuckZeroRtt ==> replies(
                a,
                "200",
                "Stuck 0-RTT mode enabled".spec_bytes(),
            )
            &&& route is CloseAfter1000Ms ==> replies(a, "200", "0123456789".spec_bytes())
            &&& route is NoBody ==> replies_empty(a, "200") && lacks_field(head, "content-length")
            &&& route is NoContentLength ==> replies(a, "200", Seq::new(4000, |i: int| 0x61u8))
                && lacks_field(head, "content-length")
            &&& route is ContentLengthSmaller ==> replies(a, "200", Seq::new(8000, |i: int| 0x61u8))
                && has_field(head, "content-length", encode_utf8(decimal(4000)))
            &&& route == Route::Sized(n) ==> replies(a, "200", Seq::new(n as nat, |i: int| 0x61u8))
                && has_field(head, "content-length", encode_utf8(decimal(n as nat)))
            &&& route is Other ==> replies(a, "200", "Hello World".spec_bytes()) && has_field(
                head,
                "x-http3-conn-hash",
                encode_utf8(decimal(connection_hash as nat)),
            )
            &&& route is Response421 || route is SetStuckZeroRtt || route is CloseAfter1000Ms
                || route is NoBody || route is NoContentLength || route is ContentLengthSmaller
                || route is Sized || route is Other ==> has_field(
                head,
                "cache-control",
                "no-cache".spec_bytes(),
            )
        }),
{
    lemma_names();
    let a = answer(route, header_views(headers@), data_view(datagram), connection_hash);
    let head = a[0]->SendHeaders_0;
    if route is Other {
        assert(head[3].name == "x-http3-conn-hash"@);
        assert(head[1].name == "cache-control"@);
    } else if a.len() == 2 && a[0] is SendHeaders && !(route is HttpOpportunistic || route
        is PriorityMirror || route is EarlyHints || route is GetWebTransportDatagram || route
        is AltSvcHeader) {
        assert(head[1].name == "cache-control"@);
        if route is ContentLengthSmaller || route is Sized {
            assert(head[3].name == "content-length"@);
        }
    }
}

/// The paths that give something back give back what the request, or a datagram before it, held:
/// its authority as a JSON list, its priority, its alternative service, or the datagram.
pub proof fn law_mirrored_answers(
    route: Route,
    headers: Vec<Header>,
    datagram: Option<Vec<u8>>,
    connection_hash: u64,
    actions: Vec<RequestAction>,
)
    requires
        is_answerable(route, header_views(headers@)),
        call_ensures(answer_request, (route, &headers, &datagram, connection_hash), actions),
    ensures
        ({
            let a = action_views(actions@);
            let head = a[0]->SendHeaders_0;
            let asked = header_views(headers@);
            &&& route is HttpOpportunistic ==> match find_value(asked, ":authority"@) {
                Some(host) if host.len() > 0 => replies(
                    a,
                    "200",
                    "[\"http://".spec_bytes() + host + "\"]".spec_bytes(),
                ) && has_field(head, "content-type", "application/json".spec_bytes()),
                _ => replies(a, "200", "Hello World".spec_bytes()),
            }
            &&& route is PriorityMirror ==> match find_value(asked, "priority"@) {
                Some(priority) => replies(a, "200", priority) && has_field(
                    head,
                    "priority-mirror",
                    priority,
                ),
                None => replies_empty(a, "200"),
            }
            &&& route is AltSvcHeader ==> match find_value(asked, "x-altsvc"@) {
                Some(service) => replies(a, "200", Seq::new(100, |i: int| 0x61u8)) && has_field(
                    head,
                    "alt-svc",
                    "h3=".spec_bytes() + service,
                ),
                None => replies(a, "200", Seq::new(100, |i: int| 0x61u8)),
            }
            &&& route is GetWebTransportDatagram ==> match datagram {
                Some(data) => replies(a, "200", data@),
                None => replies_empty(a, "404"),
            }
        }),
{
    let asked = header_views(headers@);
    let a = answer(route, asked, data_view(datagram), connection_hash);
    let head = a[0]->SendHeaders_0;
    if route is HttpOpportunistic {
        if let Some(host) = find_value(asked, ":authority"@) {
            if host.len() > 0 {
                assert(head[2].name == "content-type"@);
            }
        }
    }
    if route is PriorityMirror && head.len() == 5 {
        assert(head[3].name == "priority-mirror"@);
    }
    if route is AltSvcHeader && head.len() == 5 {
        assert(head[4].name == "alt-svc"@);
    }
}

/// Before the answer, a client is hinted at each link that it named, in order, and at nothing
/// else; then the answer comes, without a body.
pub proof fn law_hints(
    headers: Vec<Header>,
    datagram: Option<Vec<u8>>,
    connection_hash: u64,
    actions: Vec<RequestAction>,
    i: int,
)
    requires
        is_answerable(Route::EarlyHints, header_views(headers@)),
        call_ensures(
            answer_request,
            (Route::EarlyHints, &headers, &datagram, connection_hash),
            actions,
        ),
    ensures
        ({
            let a = action_views(actions@);
            let links = match find_value(header_views(headers@), "link-to-set"@) {
                Some(value) => split(value, either(0x2c, 0x2c)),
                None => Seq::empty(),
            };
            &&& a.len() == links.len() + 2
            &&& 0 <= i < links.len() ==> a[i] is SendHeaders && a[i]->SendHeaders_0.len() == 2
                && a[i]->SendHeaders_0[0].name == ":status"@ && a[i]->SendHeaders_0[0].value
                == "103".spec_bytes() && a[i]->SendHeaders_0[1].name == "link"@
                && a[i]->SendHeaders_0[1].value == links[i]
            &&& replies_empty(a.skip(links.len() as int), "200")
        }),
{
}

/// The answer to an upload tells how many bytes came.
pub proof fn law_upload_answer(received: usize, actions: Vec<RequestAction>)
    requires
        call_ensures(answer_post, (received,), actions),
    ensures
        replies(action_views(actions@), "200", "Hello World".spec_bytes()),
        has_field(
            action_views(actions@)[0]->SendHeaders_0,
            "x-data-received-length",
            encode_utf8(decimal(received as nat)),
        ),
{
    assert(post_answer(received as nat)[0]->SendHeaders_0[2].name == "x-data-received-length"@);
}

/// A request has a path where it has a field for it that is not empty. One can be answered unless
/// what is to be given back is no text, or the body asked for is too long to exist.
pub proof fn law_request_checks(
    headers: Vec<Header>,
    path: Option<&[u8]>,
    route: Route,
    can: bool,
)
    requires
        call_ensures(find_path, (&headers,), path),
        call_ensures(can_answer, (route, &headers), can),
    ensures
        ({
            let asked = header_views(headers@);
            let given_back = match route {
                Route::PriorityMirror => find_value(asked, "priority"@),
                Route::EarlyHints => find_value(asked, "link-to-set"@),
                Route::AltSvcHeader => find_value(asked, "x-altsvc"@),
                _ => None,
            };
            &&& path is Some <==> (find_value(asked, ":path"@) matches Some(p) && p.len() > 0)
            &&& path matches Some(p) ==> find_value(asked, ":path"@) == Some(p@)
            &&& can <==> (given_back matches Some(v) ==> valid_utf8(v)) && (route matches
                Route::Sized(n) ==> n <= isize::MAX)
        }),
{
}

/// Whether a head tells that what follows is plain text of a length, and that it is not to be
/// kept, and has so many fields more than these and its status.
pub open spec fn tells_text(head: Seq<HeaderView>, len: nat, more: nat) -> bool {
    &&& head.len() == 4 + more
    &&& has_field(head, "cache-control", "no-cache".spec_bytes())
    &&& has_field(head, "content-type", "text/plain".spec_bytes())
    &&& has_field(head, "content-length", encode_utf8(decimal(len)))
}

/// A text that is given is said to be one, with its length; an answer that gives none has no
/// more than its status, and the default answer tells its length and the connection.
pub proof fn law_heads_of_answers(
    route: Route,
    headers: Vec<Header>,
    datagram: Option<Vec<u8>>,
    connection_hash: u64,
    actions: Vec<RequestAction>,
    n: usize,
)
    requires
        is_answerable(route, header_views(headers@)),
        call_ensures(answer_request, (route, &headers, &datagram, connection_hash), actions),
    ensures
        ({
            let asked = header_views(headers@);
            let a = action_views(actions@);
            let head = a[0]->SendHeaders_0;
            &&& route is Response421 || route is CloseAfter1000Ms ==> tells_text(head, 10, 0)
            &&& route is SetStuckZeroRtt ==> tells_text(head, 24, 0)
            &&& route is ContentLengthSmaller ==> tells_text(head, 4000, 0)
            &&& route == Route::Sized(n) ==> tells_text(head, n as nat, 0)
            &&& route is PriorityMirror ==> match find_value(asked, "priority"@) {
                Some(priority) => tells_text(head, priority.len(), 1),
                None => head.len() == 2 && has_field(
                    head,
                    "cache-control",
                    "no-cache".spec_bytes(),
                ),
            }
            &&& route is AltSvcHeader ==> match find_value(asked, "x-altsvc"@) {
                Some(_) => tells_text(head, 100, 1),
                None => head.len() == 2 && has_field(
                    head,
                    "cache-control",
                    "no-cache".spec_bytes(),
                ),
            }
            &&& route is NoBody || route is NoContentLength ==> head.len() == 2
            &&& route is Other ==> head.len() == 4 && has_field(
                head,
                "content-length",
                encode_utf8(decimal(11)),
            )
            &&& route is GetWebTransportDatagram ==> match datagram {
                Some(data) => head.len() == 2 && has_field(
                    head,
                    "content-length",
                    encode_utf8(decimal(data@.len())),
                ),
                None => head.len() == 2 && has_field(
                    head,
                    "cache-control",
                    "no-cache".spec_bytes(),
                ),
            }
            &&& route is EarlyHints ==> {
                let last = a[a.len() - 2]->SendHeaders_0;
                &&& last.len() == 3
                &&& has_field(last, "cache-control", "no-cache".spec_bytes())
                &&& has_field(last, "content-length", "0".spec_bytes())
            }
        }),
{
    reveal_strlit("0123456789");
    vstd::string::is_ascii_spec_bytes("0123456789");
    reveal_strlit("Stuck 0-RTT mode enabled");
    vstd::string::is_ascii_spec_bytes("Stuck 0-RTT mode enabled");
    reveal_strlit("Hello World");
    vstd::string::is_ascii_spec_bytes("Hello World");
    let a = answer(route, header_views(headers@), data_view(datagram), connection_hash);
    let head = a[0]->SendHeaders_0;
    let (second, third, fourth, fifth) = (head[1].name, head[2].name, head[3].name, head[4].name);
    assert(fifth == head[4].name && fourth == head[3].name && third == head[2].name && second
        == head[1].name);
    if route is EarlyHints {
        let last = a[a.len() - 2]->SendHeaders_0;
        assert(last[1].name == "cache-control"@);
        assert(last[2].name == "content-length"@);
    }
}

/// The answer to an upload, and the one that names a host, tell what follows and its length.
pub proof fn law_other_heads(
    headers: Vec<Header>,
    datagram: Option<Vec<u8>>,
    connection_hash: u64,
    actions: Vec<RequestAction>,
    received: usize,
    uploaded: Vec<RequestAction>,
)
    requires
        call_ensures(
            answer_request,
            (Route::HttpOpportunistic, &headers, &datagram, connection_hash),
            actions,
        ),
        call_ensures(answer_post, (received,), uploaded),
    ensures
        ({
            let head = action_views(actions@)[0]->SendHeaders_0;
            let after = action_views(uploaded@)[0]->SendHeaders_0;
            &&& head.len() == 4
            &&& has_field(head, "cache-control", "no-cache".spec_bytes())
            &&& (find_value(header_views(headers@), ":authority"@) matches Some(host)
                && host.len() > 0) ==> has_field(
                head,
                "content-length",
                encode_utf8(
                    decimal(find_value(header_views(headers@), ":authority"@)->0.len() + 11),
                ),
            )
            &&& after.len() == 4
            &&& has_field(after, "cache-control", "no-cache".spec_bytes())
            &&& has_field(after, "content-length", encode_utf8(decimal(11)))
        }),
{
    reveal_strlit("Hello World");
    vstd::string::is_ascii_spec_bytes("Hello World");
    reveal_strlit("[\"http://");
    vstd::string::is_ascii_spec_bytes("[\"http://");
    reveal_strlit("\"]");
    vstd::string::is_ascii_spec_bytes("\"]");
    let head = opportunistic_answer(header_views(headers@), connection_hash)[0]->SendHeaders_0;
    let after = post_answer(received as nat)[0]->SendHeaders_0;
    let (second, fourth) = (head[1].name, head[3].name);
    assert(second == "cache-control"@ && fourth == head[3].name);
    assert(after[1].name == "cache-control"@);
    assert(after[3].name == "content-length"@);
}

}
