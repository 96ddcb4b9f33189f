//! The server that hands requests on to a server of HTTP/1 on this machine.
use crate::bytes::{append, copy, is_text, strip_prefix, text_bytes};
use crate::headers::{header_views, Header, HeaderView};
use crate::server::forward::{
    header_fields, insert_field, is_field_name, is_field_value, is_method, is_uri, is_visible,
    method_is_valid, name_is_valid, new_fields, uri_is_valid, value_is_valid, value_is_visible,
};
use crate::server::requests::{
    action_views, find_header, find_value, push_action, push_text, request_path, text_field,
    RequestAction, RequestActionView, HTTP_REQUEST_CANCELLED,
};
use crate::server::responses::{left_over, ResponseQueue, StreamStep};
use crate::text::{decimal, decoded, parse_i32, parse_unsigned, push_decimal, signed32, unsigned};
use http::{HeaderMap, HeaderValue};
use std::collections::HashMap;
use vstd::prelude::*;
use vstd::string::StringSliceAdditionalSpecFns;
use vstd::utf8::{decode_utf8, encode_utf8, encode_utf8_valid_utf8, valid_utf8};

verus! {

broadcast use vstd::std_specs::hash::group_hash_axioms;

/// A request as it is handed on.
pub struct ProxyRequest {
    pub method: Vec<u8>,
    pub fields: HeaderMap<HeaderValue>,
    pub body: Vec<u8>,
    pub uri: String,
}

/// The method of a request, where a header field may set it.
pub open spec fn method_of(headers: Seq<HeaderView>) -> Seq<u8>
    decreases headers.len(),
{
    if headers.len() == 0 {
        "GET".spec_bytes()
    } else if headers.last().name == ":method"@ {
        headers.last().value
    } else {
        method_of(headers.drop_last())
    }
}

/// The path of a request: that of the last header field for it, and the root where that is no
/// text.
pub open spec fn path_of(headers: Seq<HeaderView>) -> Seq<char>
    decreases headers.len(),
{
    if headers.len() == 0 {
        Seq::empty()
    } else if headers.last().name == ":path"@ {
        if valid_utf8(headers.last().value) {
            decode_utf8(headers.last().value)
        } else {
            "/"@
        }
    } else {
        path_of(headers.drop_last())
    }
}

/// What a header field sets in the request that is handed on.
pub enum FieldUse {
    Method,
    Path,
    Host,
    /// A header field of the same name.
    Field,
    Nothing,
}

/// What a header field sets.
pub open spec fn field_use(header: HeaderView) -> FieldUse {
    if header.name == ":method"@ {
        FieldUse::Method
    } else if header.name == ":scheme"@ {
        FieldUse::Nothing
    } else if header.name == ":authority"@ {
        FieldUse::Host
    } else if header.name == ":path"@ {
        FieldUse::Path
    } else if is_field_name(encode_utf8(header.name)) {
        FieldUse::Field
    } else {
        FieldUse::Nothing
    }
}

/// The header fields of the request that is handed on: a later one takes the place of an earlier
/// one of the same name.
pub open spec fn fields_of(headers: Seq<HeaderView>) -> Map<Seq<u8>, Seq<u8>>
    decreases headers.len(),
{
    if headers.len() == 0 {
        Map::empty()
    } else {
        let before = fields_of(headers.drop_last());
        match field_use(headers.last()) {
            FieldUse::Host => before.insert("host".spec_bytes(), headers.last().value),
            FieldUse::Field => before.insert(
                encode_utf8(headers.last().name),
                headers.last().value,
            ),
            _ => before,
        }
    }
}

/// Whether the values of the header fields can be handed on.
pub open spec fn is_forwardable(headers: Seq<HeaderView>) -> bool {
    forall|i: int|
        0 <= i < headers.len() ==> (match field_use(#[trigger] headers[i]) {
            FieldUse::Method => is_method(headers[i].value),
            FieldUse::Host => is_field_value(headers[i].value),
            FieldUse::Field => is_field_value(headers[i].value),
            _ => true,
        })
}

/// A number with its sign.
pub open spec fn signed_decimal(n: int) -> Seq<char> {
    if n < 0 {
        "-"@ + decimal((-n) as nat)
    } else {
        decimal(n as nat)
    }
}

/// Where a request is handed on to.
pub open spec fn forward_uri(port: i32, path: Seq<char>) -> Seq<char> {
    "http://127.0.0.1:"@ + signed_decimal(port as int) + path
}

fn find_use(header: &Header) -> (found: FieldUse)
    ensures
        found == field_use(header@),
{
    if header.is_named(":method") {
        FieldUse::Method
    } else if header.is_named(":scheme") {
        FieldUse::Nothing
    } else if header.is_named(":authority") {
        FieldUse::Host
    } else if header.is_named(":path") {
        FieldUse::Path
    } else if name_is_valid(header.name.as_str().as_bytes()) {
        FieldUse::Field
    } else {
        FieldUse::Nothing
    }
}

/// Whether the values of the header fields can be handed on.
pub fn can_forward(headers: &Vec<Header>) -> (can: bool)
    ensures
        can == is_forwardable(header_views(headers@)),
{
    let ghost all = header_views(headers@);
    let mut i: usize = 0;
    while i < headers.len()
        invariant
            i <= headers@.len(),
            all == header_views(headers@),
            forall|j: int|
                0 <= j < i ==> (match field_use(#[trigger] all[j]) {
                    FieldUse::Method => is_method(all[j].value),
                    FieldUse::Host => is_field_value(all[j].value),
                    FieldUse::Field => is_field_value(all[j].value),
                    _ => true,
                }),
        decreases headers@.len() - i,
    {
        let header = &headers[i];
        assert(all[i as int] == header@);
        let valid = match find_use(header) {
            FieldUse::Method => method_is_valid(header.value.as_slice()),
            FieldUse::Host => value_is_valid(header.value.as_slice()),
            FieldUse::Field => value_is_valid(header.value.as_slice()),
            FieldUse::Path => true,
            FieldUse::Nothing => true,
        };
        if !valid {
            return false;
        }
        i += 1;
    }
    true
}

proof fn lemma_host()
    ensures
        is_field_name("host".spec_bytes()),
{
    reveal_strlit("host");
    vstd::string::is_ascii_spec_bytes("host");
    assert("host".spec_bytes().len() == 4);
}

proof fn lemma_fields_grow(headers: Seq<HeaderView>, k: int)
    requires
        0 <= k <= headers.len(),
    ensures
        fields_of(headers).dom().finite(),
        fields_of(headers.take(k)).dom().len() <= fields_of(headers).dom().len(),
    decreases headers.len(),
{
    if k < headers.len() {
        let before = headers.drop_last();
        assert(before.take(k) =~= headers.take(k));
        lemma_fields_grow(before, k);
    } else {
        assert(headers.take(k) =~= headers);
        if headers.len() > 0 {
            lemma_fields_grow(headers.drop_last(), 0);
        }
    }
}

/// The header fields of the request that is handed on; none where there are too many.
fn forward_fields(headers: &Vec<Header>) -> (fields: Option<HeaderMap<HeaderValue>>)
    requires
        is_forwardable(header_views(headers@)),
    ensures
        fields matches Some(f) ==> header_fields(f) == fields_of(header_views(headers@)),
        fields_of(header_views(headers@)).dom().len() < 6000 ==> fields is Some,
{
    let ghost all = header_views(headers@);
    let mut fields = new_fields();
    let mut i: usize = 0;
    proof {
        lemma_host();
        assert(all.take(0) =~= Seq::<HeaderView>::empty());
    }
    while i < headers.len()
        invariant
            i <= headers@.len(),
            all == header_views(headers@),
            is_forwardable(all),
            is_field_name("host".spec_bytes()),
            header_fields(fields) == fields_of(all.take(i as int)),
        decreases headers@.len() - i,
    {
        let header = &headers[i];
        proof {
            assert(all[i as int] == header@);
            assert(all.take(i + 1).drop_last() =~= all.take(i as int));
            assert(all.take(i + 1).last() == header@);
            lemma_fields_grow(all, i as int);
        }
        let done = match find_use(header) {
            FieldUse::Host => insert_field(
                &mut fields,
                "host".as_bytes(),
                header.value.as_slice(),
            ),
            FieldUse::Field => insert_field(
                &mut fields,
                header.name.as_str().as_bytes(),
                header.value.as_slice(),
            ),
            FieldUse::Method => true,
            FieldUse::Path => true,
            FieldUse::Nothing => true,
        };
        if !done {
            return None;
        }
        i += 1;
    }
    assert(all.take(i as int) =~= all);
    Some(fields)
}

fn forward_method(headers: &Vec<Header>) -> (method: Vec<u8>)
    ensures
        method@ == method_of(header_views(headers@)),
{
    let ghost all = header_views(headers@);
    let mut n: usize = headers.len();
    assert(all.take(n as int) =~= all);
    while n > 0
        invariant
            n <= headers@.len(),
            all == header_views(headers@),
            method_of(all) == method_of(all.take(n as int)),
        decreases n,
    {
        n -= 1;
        proof {
            assert(all.take(n + 1).last() == headers@[n as int]@);
            assert(all.take(n + 1).drop_last() =~= all.take(n as int));
        }
        if headers[n].is_named(":method") {
            return copy(headers[n].value.as_slice());
        }
    }
    text_bytes("GET")
}

fn forward_path(headers: &Vec<Header>) -> (path: String)
    ensures
        path@ == path_of(header_views(headers@)),
{
    let ghost all = header_views(headers@);
    let mut n: usize = headers.len();
    assert(all.take(n as int) =~= all);
    while n > 0
        invariant
            n <= headers@.len(),
            all == header_views(headers@),
            path_of(all) == path_of(all.take(n as int)),
        decreases n,
    {
        n -= 1;
        proof {
            assert(all.take(n + 1).last() == headers@[n as int]@);
            assert(all.take(n + 1).drop_last() =~= all.take(n as int));
        }
        if headers[n].is_named(":path") {
            return match decoded(headers[n].value.as_slice()) {
                Some(path) => path,
                None => "/".to_owned(),
            };
        }
    }
    proof {
        reveal_strlit("");
        assert(""@ =~= Seq::<char>::empty());
    }
    "".to_owned()
}

fn to_forward_uri(port: i32, path: &str) -> (uri: String)
    ensures
        uri@ == forward_uri(port, path@),
{
    let mut uri = "http://127.0.0.1:".to_owned();
    if port < 0 {
        uri.append("-");
        let n: i64 = 0 - port as i64;
        push_decimal(&mut uri, n as u64);
        assert(uri@ =~= "http://127.0.0.1:"@ + signed_decimal(port as int));
    } else {
        push_decimal(&mut uri, port as u64);
    }
    uri.append(path);
    uri
}

/// What comes of a request that is to be handed on.
pub enum Fetch {
    /// Hand this on, and the answer later back.
    Send(ProxyRequest),
    /// The path gives no URI.
    BadUri,
    /// There are more header fields than can be handed on.
    TooManyFields,
}

/// Makes the request that is handed on to a port. Too many header fields are found only where
/// there are thousands of names; when exactly depends on how the names are spread.
pub fn fetch(port: i32, headers: &Vec<Header>, body: Vec<u8>) -> (fetch: Fetch)
    requires
        is_forwardable(header_views(headers@)),
    ensures
        fetch is TooManyFields ==> fields_of(header_views(headers@)).dom().len() >= 6000,
        fetch is BadUri ==> !is_uri(forward_uri(port, path_of(header_views(headers@)))),
        fetch matches Fetch::Send(request) ==> {
            &&& request.method@ == method_of(header_views(headers@))
            &&& header_fields(request.fields) == fields_of(header_views(headers@))
            &&& request.body@ == body@
            &&& request.uri@ == forward_uri(port, path_of(header_views(headers@)))
            &&& is_uri(request.uri@)
        },
{
    let fields = match forward_fields(headers) {
        Some(fields) => fields,
        None => {
            return Fetch::TooManyFields;
        },
    };
    let path = forward_path(headers);
    let uri = to_forward_uri(port, path.as_str());
    if !uri_is_valid(uri.as_str()) {
        return Fetch::BadUri;
    }
    Fetch::Send(ProxyRequest { method: forward_method(headers), fields, body, uri })
}

/// The head of an answer without a body.
pub open spec fn empty_head(status: &'static str) -> Seq<RequestActionView> {
    seq![
        RequestActionView::SendHeaders(
            seq![
                text_field(":status", status),
                text_field("cache-control", "no-cache"),
                text_field("content-length", "0"),
            ],
        ),
    ]
}

fn send_empty_head(status: &'static str) -> (actions: Vec<RequestAction>)
    ensures
        action_views(actions@) == empty_head(status),
{
    let mut head: Vec<Header> = Vec::new();
    push_text(&mut head, ":status", status);
    push_text(&mut head, "cache-control", "no-cache");
    push_text(&mut head, "content-length", "0");
    assert(header_views(head@) =~= empty_head(status)[0]->SendHeaders_0);
    let mut actions: Vec<RequestAction> = Vec::new();
    push_action(&mut actions, RequestAction::SendHeaders(head));
    assert(action_views(actions@) =~= empty_head(status));
    actions
}

/// What a request is answered whose path gives no URI.
pub fn answer_bad_uri() -> (actions: Vec<RequestAction>)
    ensures
        action_views(actions@) == empty_head("400"),
{
    send_empty_head("400")
}

/// A header field of an answer as it is handed back.
pub open spec fn returned_field(name: Seq<char>, value: Seq<u8>) -> HeaderView {
    HeaderView {
        name,
        value: if is_visible(value) {
            value
        } else {
            Seq::empty()
        },
    }
}

/// The head of an answer as it is handed back.
pub open spec fn returned_head(status: Seq<u8>, fields: Seq<HeaderView>) -> Seq<HeaderView> {
    seq![HeaderView { name: ":status"@, value: status }] + fields.map_values(
        |f: HeaderView| returned_field(f.name, f.value),
    )
}

/// The head of an answer as it is handed back. The names of the header fields are in lower case.
pub fn response_head(status: &str, fields: &Vec<Header>) -> (head: Vec<Header>)
    requires
        forall|i: int| 0 <= i < fields@.len() ==> is_field_value((#[trigger] fields@[i])@.value),
    ensures
        header_views(head@) == returned_head(status.spec_bytes(), header_views(fields@)),
{
    let ghost all = header_views(fields@);
    let ghost returned = all.map_values(|f: HeaderView| returned_field(f.name, f.value));
    let mut head: Vec<Header> = Vec::new();
    head.push(Header::new(":status", status));
    let ghost first = HeaderView { name: ":status"@, value: status.spec_bytes() };
    assert(header_views(head@) =~= seq![first] + returned.take(0));
    let mut i: usize = 0;
    while i < fields.len()
        invariant
            i <= fields@.len(),
            all == header_views(fields@),
            returned == all.map_values(|f: HeaderView| returned_field(f.name, f.value)),
            forall|i: int|
                0 <= i < fields@.len() ==> is_field_value((#[trigger] fields@[i])@.value),
            header_views(head@) == seq![first] + returned.take(i as int),
        decreases fields@.len() - i,
    {
        let ghost before = head@;
        let field = &fields[i];
        assert(is_field_value(fields@[i as int]@.value));
        if value_is_visible(field.value.as_slice()) {
            head.push(field.duplicate());
        } else {
            let empty: Vec<u8> = Vec::new();
            head.push(Header::with_bytes(field.name.as_str(), empty.as_slice()));
            assert(head@.last()@.value =~= Seq::<u8>::empty());
        }
        proof {
            assert(header_views(head@) =~= header_views(before).push(head@.last()@));
            assert(returned[i as int] == head@.last()@);
            assert(returned.take(i + 1) =~= returned.take(i as int).push(returned[i as int]));
            assert(header_views(head@) =~= seq![first] + returned.take(i + 1));
        }
        i += 1;
    }
    assert(returned.take(i as int) =~= returned);
    head
}

/// What the server keeps.
pub struct Http3ReverseProxyServer {
    responses: ResponseQueue,
    server_port: i32,
    requests: HashMap<u64, (Vec<Header>, Vec<u8>)>,
}

/// The contents of a [`Http3ReverseProxyServer`]. Streams are numbers.
#[verifier::ext_equal]
pub struct ReverseProxyView {
    /// What the streams did not take yet.
    pub responses: Map<u64, Seq<u8>>,
    /// Where requests are handed on to; -1 where that is not known.
    pub server_port: i32,
    /// The requests whose bodies have not come in full, with what has come.
    pub requests: Map<u64, (Seq<HeaderView>, Seq<u8>)>,
}

impl View for Http3ReverseProxyServer {
    type V = ReverseProxyView;

    closed spec fn view(&self) -> ReverseProxyView {
        ReverseProxyView {
            responses: self.responses@,
            server_port: self.server_port,
            requests: self.requests@.map_values(
                |r: (Vec<Header>, Vec<u8>)| (header_views(r.0@), r.1@),
            ),
        }
    }
}

/// What is done about a request.
pub enum ProxyStep {
    Nothing,
    /// Hand the request on to this port.
    Forward(i32, Vec<Header>, Vec<u8>),
    Answer(Vec<RequestAction>),
}

/// The contents of a [`ProxyStep`].
pub enum ProxyStepView {
    Nothing,
    Forward(i32, Seq<HeaderView>, Seq<u8>),
    Answer(Seq<RequestActionView>),
}

impl View for ProxyStep {
    type V = ProxyStepView;

    open spec fn view(&self) -> ProxyStepView {
        match *self {
            ProxyStep::Nothing => ProxyStepView::Nothing,
            ProxyStep::Forward(port, headers, body) => ProxyStepView::Forward(
                port,
                header_views(headers@),
                body@,
            ),
            ProxyStep::Answer(actions) => ProxyStepView::Answer(action_views(actions@)),
        }
    }
}

/// What a request asks of the proxy.
pub enum Demand {
    Nothing,
    /// Wait for the body.
    Wait,
    Forward,
}

/// What a request asks of the proxy: one that brings a body has to say how long it is.
pub open spec fn demand(headers: Seq<HeaderView>) -> Demand {
    match find_value(headers, ":method"@) {
        None => Demand::Nothing,
        Some(method) => if method == "POST".spec_bytes() {
            match find_value(headers, "content-length"@) {
                None => Demand::Nothing,
                Some(length) => if valid_utf8(length) {
                    match unsigned(length, u32::MAX as nat) {
                        None => Demand::Nothing,
                        Some(n) => if n > 0 {
                            Demand::Wait
                        } else {
                            Demand::Forward
                        },
                    }
                } else {
                    Demand::Forward
                },
            }
        } else {
            Demand::Forward
        },
    }
}

/// The port that a request names.
pub open spec fn named_port(headers: Seq<HeaderView>) -> Option<i32> {
    match request_path(headers) {
        Some(path) => if crate::bytes::has_prefix(path, "/port?".spec_bytes()) {
            match signed32(path.skip("/port?".spec_bytes().len() as int)) {
                Some(n) => Some(n as i32),
                None => None,
            }
        } else {
            None
        },
        None => None,
    }
}

fn find_demand(headers: &Vec<Header>) -> (found: Demand)
    ensures
        found == demand(header_views(headers@)),
{
    match find_header(headers, ":method") {
        None => Demand::Nothing,
        Some(method) => {
            if !is_text(method, "POST") {
                return Demand::Forward;
            }
            match find_header(headers, "content-length") {
                None => Demand::Nothing,
                Some(length) => {
                    if decoded(length).is_none() {
                        return Demand::Forward;
                    }
                    match parse_unsigned(length, 0xffff_ffff) {
                        None => Demand::Nothing,
                        Some(n) => if n > 0 {
                            Demand::Wait
                        } else {
                            Demand::Forward
                        },
                    }
                },
            }
        },
    }
}

fn find_port(headers: &Vec<Header>) -> (port: Option<i32>)
    ensures
        port == named_port(header_views(headers@)),
{
    match crate::server::requests::find_path(headers) {
        Some(path) => match strip_prefix(path, "/port?".as_bytes()) {
            Some(text) => parse_i32(text),
            None => None,
        },
        None => None,
    }
}

impl ReverseProxyView {
    /// What is done about a request.
    pub open spec fn headers_step(self, headers: Seq<HeaderView>) -> ProxyStepView {
        if self.server_port != -1 {
            match demand(headers) {
                Demand::Forward => ProxyStepView::Forward(
                    self.server_port,
                    headers,
                    Seq::empty(),
                ),
                _ => ProxyStepView::Nothing,
            }
        } else {
            ProxyStepView::Answer(empty_head("200"))
        }
    }

    /// The server after a request. Until it knows where to hand requests on to, a request may
    /// tell it.
    pub open spec fn after_headers(
        self,
        stream: u64,
        headers: Seq<HeaderView>,
    ) -> ReverseProxyView {
        if self.server_port != -1 {
            match demand(headers) {
                Demand::Wait => ReverseProxyView {
                    requests: self.requests.insert(stream, (headers, Seq::empty())),
                    ..self
                },
                _ => self,
            }
        } else {
            match named_port(headers) {
                Some(port) => ReverseProxyView { server_port: port, ..self },
                None => self,
            }
        }
    }

    /// What is done about data.
    pub open spec fn data_step(self, stream: u64, data: Seq<u8>, fin: bool) -> ProxyStepView {
        if fin && self.requests.contains_key(stream) {
            ProxyStepView::Forward(
                self.server_port,
                self.requests[stream].0,
                self.requests[stream].1 + data,
            )
        } else {
            ProxyStepView::Nothing
        }
    }

    /// The server after data.
    pub open spec fn after_data(self, stream: u64, data: Seq<u8>, fin: bool) -> ReverseProxyView {
        if self.requests.contains_key(stream) {
            ReverseProxyView {
                requests: if fin {
                    self.requests.remove(stream)
                } else {
                    self.requests.insert(
                        stream,
                        (self.requests[stream].0, self.requests[stream].1 + data),
                    )
                },
                ..self
            }
        } else {
            self
        }
    }
}

impl Http3ReverseProxyServer {
    pub fn new(server_port: i32) -> (server: Self)
        ensures
            server@ == (ReverseProxyView {
                responses: Map::empty(),
                server_port,
                requests: Map::empty(),
            }),
    {
        let server = Http3ReverseProxyServer {
            responses: ResponseQueue::new(),
            server_port,
            requests: HashMap::new(),
        };
        assert(server@.requests =~= Map::<u64, (Seq<HeaderView>, Seq<u8>)>::empty());
        server
    }

    /// Takes in a request.
    pub fn on_headers(&mut self, stream: u64, headers: Vec<Header>) -> (step: ProxyStep)
        ensures
            step@ == old(self)@.headers_step(header_views(headers@)),
            final(self)@ == old(self)@.after_headers(stream, header_views(headers@)),
    {
        if self.server_port != -1 {
            match find_demand(&headers) {
                Demand::Nothing => ProxyStep::Nothing,
                Demand::Wait => {
                    let body: Vec<u8> = Vec::new();
                    assert(body@ =~= Seq::<u8>::empty());
                    self.requests.insert(stream, (headers, body));
                    assert(self@ =~= old(self)@.after_headers(stream, header_views(headers@)));
                    ProxyStep::Nothing
                },
                Demand::Forward => {
                    let body: Vec<u8> = Vec::new();
                    assert(body@ =~= Seq::<u8>::empty());
                    ProxyStep::Forward(self.server_port, headers, body)
                },
            }
        } else {
            if let Some(port) = find_port(&headers) {
                self.server_port = port;
            }
            ProxyStep::Answer(send_empty_head("200"))
        }
    }

    /// Takes in data of a stream.
    pub fn on_data(&mut self, stream: u64, data: Vec<u8>, fin: bool) -> (step: ProxyStep)
        ensures
            step@ == old(self)@.data_step(stream, data@, fin),
            final(self)@ == old(self)@.after_data(stream, data@, fin),
    {
        match self.requests.remove(&stream) {
            Some(request) => {
                let (headers, mut body) = request;
                append(&mut body, data.as_slice());
                if fin {
                    assert(self@ =~= old(self)@.after_data(stream, data@, fin));
                    ProxyStep::Forward(self.server_port, headers, body)
                } else {
                    self.requests.insert(stream, (headers, body));
                    assert(self@ =~= old(self)@.after_data(stream, data@, fin));
                    ProxyStep::Nothing
                }
            },
            None => {
                assert(self.requests@ =~= old(self).requests@);
                assert(self@ =~= old(self)@);
                ProxyStep::Nothing
            },
        }
    }

    /// What to do with a body that is to be sent on a stream.
    pub fn new_response(&self, data: Vec<u8>) -> (step: StreamStep)
        ensures
            data@.len() == 0 ==> step is Close,
            data@.len() > 0 ==> (step matches StreamStep::Send(d) && d@ == data@),
    {
        ResponseQueue::new_response(data)
    }

    /// Takes in how many bytes of a new body the stream took.
    pub fn response_sent(&mut self, stream: u64, data: Vec<u8>, sent: usize) -> (step: StreamStep)
        requires
            sent <= data@.len(),
        ensures
            if sent < data@.len() {
                step is Nothing && final(self)@ == (ReverseProxyView {
                    responses: old(self)@.responses.insert(stream, left_over(data@, sent)),
                    ..old(self)@
                })
            } else {
                step is Close && final(self)@ == old(self)@
            },
    {
        self.responses.response_sent(stream, data, Some(sent))
    }

    /// What is to be done about a stream that failed to take a new body.
    pub fn response_failed(&self) -> (action: RequestAction)
        ensures
            action@ == RequestActionView::ResetSend(HTTP_REQUEST_CANCELLED),
    {
        RequestAction::ResetSend(HTTP_REQUEST_CANCELLED)
    }

    /// What to send on a stream that can be written to.
    pub fn handle_stream_writable(&self, stream: u64) -> (step: StreamStep)
        ensures
            if self@.responses.contains_key(stream) {
                step matches StreamStep::Send(d) && d@ == self@.responses[stream]
            } else {
                step is Nothing
            },
    {
        self.responses.stream_writable(stream)
    }

    /// Takes in how many of the waiting bytes the stream took, or that it failed.
    pub fn writable_sent(&mut self, stream: u64, sent: Option<usize>) -> (step: StreamStep)
        requires
            old(self)@.responses.contains_key(stream),
            sent matches Some(n) ==> n <= old(self)@.responses[stream].len(),
        ensures
            match sent {
                None => step is Nothing && final(self)@ == old(self)@,
                Some(n) => if n < old(self)@.responses[stream].len() {
                    step is Nothing && final(self)@ == (ReverseProxyView {
                        responses: old(self)@.responses.insert(
                            stream,
                            left_over(old(self)@.responses[stream], n),
                        ),
                        ..old(self)@
                    })
                } else {
                    step is Close && final(self)@ == (ReverseProxyView {
                        responses: old(self)@.responses.remove(stream),
                        ..old(self)@
                    })
                },
            },
    {
        self.responses.writable_sent(stream, sent)
    }
}

/// The pieces of a body, one after the other.
pub open spec fn whole(pieces: Seq<Seq<u8>>) -> Seq<u8>
    decreases pieces.len(),
{
    if pieces.len() == 0 {
        Seq::empty()
    } else {
        whole(pieces.drop_last()) + pieces.last()
    }
}

/// The server after the pieces of a body that is not finished.
pub open spec fn after_pieces(
    server: ReverseProxyView,
    stream: u64,
    pieces: Seq<Seq<u8>>,
) -> ReverseProxyView
    decreases pieces.len(),
{
    if pieces.len() == 0 {
        server
    } else {
        after_pieces(server, stream, pieces.drop_last()).after_data(stream, pieces.last(), false)
    }
}

proof fn lemma_pieces(
    server: ReverseProxyView,
    stream: u64,
    headers: Seq<HeaderView>,
    pieces: Seq<Seq<u8>>,
)
    requires
        server.requests.contains_key(stream),
        server.requests[stream] == (headers, Seq::<u8>::empty()),
    ensures
        ({
            let after = after_pieces(server, stream, pieces);
            &&& after.server_port == server.server_port
            &&& after.requests.contains_key(stream)
            &&& after.requests[stream] == (headers, whole(pieces))
        }),
    decreases pieces.len(),
{
    if pieces.len() > 0 {
        lemma_pieces(server, stream, headers, pieces.drop_last());
    }
}

/// A request with a body is handed on once all of it has come, with the body as it was sent.
pub proof fn law_body_is_handed_on(
    server: ReverseProxyView,
    stream: u64,
    headers: Seq<HeaderView>,
    pieces: Seq<Seq<u8>>,
    last: Seq<u8>,
)
    requires
        server.server_port != -1,
        demand(headers) == Demand::Wait,
    ensures
        server.headers_step(headers) == ProxyStepView::Nothing,
        after_pieces(server.after_headers(stream, headers), stream, pieces).data_step(
            stream,
            last,
            true,
        ) == ProxyStepView::Forward(server.server_port, headers, whole(pieces) + last),
{
    lemma_pieces(server.after_headers(stream, headers), stream, headers, pieces);
}

/// Whether a header field is the first of its name.
pub open spec fn is_first(headers: Seq<HeaderView>, i: int, name: Seq<char>) -> bool {
    0 <= i < headers.len() && headers[i].name == name && forall|j: int|
        0 <= j < i ==> (#[trigger] headers[j]).name != name
}

proof fn lemma_first(headers: Seq<HeaderView>, i: int, name: Seq<char>)
    requires
        is_first(headers, i, name),
    ensures
        find_value(headers, name) == Some(headers[i].value),
    decreases i,
{
    if i > 0 {
        assert(headers[0].name != name);
        let rest = headers.skip(1);
        assert forall|j: int| 0 <= j < i - 1 implies (#[trigger] rest[j]).name != name by {
            assert(rest[j] == headers[j + 1]);
        }
        lemma_first(rest, i - 1, name);
    }
}

proof fn lemma_absent(headers: Seq<HeaderView>, name: Seq<char>)
    requires
        forall|j: int| 0 <= j < headers.len() ==> (#[trigger] headers[j]).name != name,
    ensures
        find_value(headers, name) is None,
    decreases headers.len(),
{
    if headers.len() > 0 {
        assert(headers[0].name != name);
        let rest = headers.skip(1);
        assert forall|j: int| 0 <= j < rest.len() implies (#[trigger] rest[j]).name != name by {
            assert(rest[j] == headers[j + 1]);
        }
        lemma_absent(rest, name);
    }
}

proof fn lemma_post()
    ensures
        "POST".spec_bytes() == seq![0x50u8, 0x4f, 0x53, 0x54],
{
    reveal_strlit("POST");
    vstd::string::is_ascii_spec_bytes("POST");
    assert("POST".spec_bytes() =~= seq![0x50u8, 0x4f, 0x53, 0x54]);
}

/// Something that comes in at the proxy.
pub enum ProxyEvent {
    Headers { stream: u64, headers: Seq<HeaderView> },
    Data { stream: u64, data: Seq<u8>, fin: bool },
}

/// The proxy after a list of events.
pub open spec fn after_proxy_events(
    server: ReverseProxyView,
    events: Seq<ProxyEvent>,
) -> ReverseProxyView
    decreases events.len(),
{
    if events.len() == 0 {
        server
    } else {
        let before = after_proxy_events(server, events.drop_last());
        match events.last() {
            ProxyEvent::Headers { stream, headers } => before.after_headers(stream, headers),
            ProxyEvent::Data { stream, data, fin } => before.after_data(stream, data, fin),
        }
    }
}

/// Whether an event is a piece of a body on a stream, but not the last.
pub open spec fn is_body_piece(event: ProxyEvent, body: u64) -> bool {
    event matches ProxyEvent::Data { stream, fin, .. } && stream == body && !fin
}

/// Whether an event is for another stream.
pub open spec fn is_for_other(event: ProxyEvent, body: u64) -> bool {
    match event {
        ProxyEvent::Headers { stream, .. } => stream != body,
        ProxyEvent::Data { stream, .. } => stream != body,
    }
}

/// The pieces of a body that came on a stream.
pub open spec fn body_pieces(events: Seq<ProxyEvent>, body: u64) -> Seq<Seq<u8>> {
    events.filter(|e: ProxyEvent| is_body_piece(e, body)).map_values(
        |e: ProxyEvent| e->Data_data,
    )
}

proof fn lemma_body_events(
    server: ReverseProxyView,
    body: u64,
    headers: Seq<HeaderView>,
    events: Seq<ProxyEvent>,
)
    requires
        server.server_port != -1,
        server.requests.contains_key(body),
        server.requests[body] == (headers, Seq::<u8>::empty()),
        forall|i: int|
            0 <= i < events.len() ==> is_body_piece(#[trigger] events[i], body) || is_for_other(
                events[i],
                body,
            ),
    ensures
        ({
            let after = after_proxy_events(server, events);
            &&& after.server_port == server.server_port
            &&& after.requests.contains_key(body)
            &&& after.requests[body] == (headers, body_pieces(events, body).flatten())
        }),
    decreases events.len(),
{
    reveal(Seq::filter);
    let piece = |e: ProxyEvent| is_body_piece(e, body);
    let data = |e: ProxyEvent| e->Data_data;
    if events.len() > 0 {
        let before = events.drop_last();
        assert forall|i: int| 0 <= i < before.len() implies is_body_piece(
            #[trigger] before[i],
            body,
        ) || is_for_other(before[i], body) by {
            assert(before[i] == events[i]);
        }
        lemma_body_events(server, body, headers, before);
        let last = events[events.len() - 1];
        assert(is_body_piece(last, body) || is_for_other(last, body));
        if is_body_piece(last, body) {
            let pieces = body_pieces(before, body);
            assert(body_pieces(events, body) =~= pieces.push(last->Data_data));
            pieces.lemma_flatten_push(last->Data_data);
        } else {
            assert(body_pieces(events, body) =~= body_pieces(before, body));
        }
    } else {
        assert(body_pieces(events, body) =~= Seq::<Seq<u8>>::empty());
        assert(body_pieces(events, body).flatten() =~= Seq::<u8>::empty());
    }
}

proof fn lemma_announced_length(headers: Seq<HeaderView>, method: int, length: int, n: nat)
    requires
        is_first(headers, method, ":method"@),
        headers[method].value == seq![0x50u8, 0x4f, 0x53, 0x54],
        is_first(headers, length, "content-length"@),
        headers[length].value == encode_utf8(decimal(n)),
    ensures
        demand(headers) == (if n == 0 {
            Demand::Forward
        } else if n <= 0xffff_ffff {
            Demand::Wait
        } else {
            Demand::Nothing
        }),
{
    lemma_first(headers, method, ":method"@);
    lemma_first(headers, length, "content-length"@);
    lemma_post();
    encode_utf8_valid_utf8(decimal(n));
    if n <= 0xffff_ffff {
        crate::text::law_decimal_round_trip(n, 0xffff_ffff);
    } else {
        crate::text::lemma_decimal_bytes(n);
        assert(crate::text::is_digit(encode_utf8(decimal(n))[0]));
    }
}

/// A request by `POST` that announces a body of any length but zero is kept when its head comes,
/// and once the body has come it is handed on with all of its pieces one after the other, whatever
/// came on other streams in between. Nothing is handed on before.
pub proof fn law_post_waits_for_its_body(
    server: ReverseProxyView,
    stream: u64,
    headers: Seq<HeaderView>,
    method: int,
    length: int,
    n: nat,
    events: Seq<ProxyEvent>,
    last: Seq<u8>,
)
    requires
        server.server_port != -1,
        1 <= n <= 0xffff_ffff,
        is_first(headers, method, ":method"@),
        headers[method].value == seq![0x50u8, 0x4f, 0x53, 0x54],
        is_first(headers, length, "content-length"@),
        headers[length].value == encode_utf8(decimal(n)),
        forall|i: int|
            0 <= i < events.len() ==> is_body_piece(#[trigger] events[i], stream) || is_for_other(
                events[i],
                stream,
            ),
    ensures
        server.headers_step(headers) == ProxyStepView::Nothing,
        ({
            let kept = server.after_headers(stream, headers);
            let come = after_proxy_events(kept, events);
            &&& forall|i: int|
                0 <= i < events.len() && is_body_piece(#[trigger] events[i], stream)
                    ==> after_proxy_events(kept, events.take(i)).data_step(
                    stream,
                    events[i]->Data_data,
                    false,
                ) == ProxyStepView::Nothing
            &&& come.data_step(stream, last, true) == ProxyStepView::Forward(
                server.server_port,
                headers,
                body_pieces(events, stream).flatten() + last,
            )
            &&& !come.after_data(stream, last, true).requests.contains_key(stream)
        }),
{
    lemma_announced_length(headers, method, length, n);
    let kept = server.after_headers(stream, headers);
    lemma_body_events(kept, stream, headers, events);
    assert forall|i: int|
        0 <= i < events.len() && is_body_piece(
            #[trigger] events[i],
            stream,
        ) implies after_proxy_events(kept, events.take(i)).data_step(
        stream,
        events[i]->Data_data,
        false,
    ) == ProxyStepView::Nothing by {}
}

/// A request without a body is handed on at once, with no body: one by any other method, and one
/// by `POST` that announces a length of zero. One by `POST` that announces no length, or none
/// that 32 bits hold, is not handed on, and neither is one without a method.
pub proof fn law_requests_without_body(
    server: ReverseProxyView,
    stream: u64,
    headers: Seq<HeaderView>,
    method: int,
    length: int,
    n: nat,
)
    requires
        server.server_port != -1,
    ensures
        is_first(headers, method, ":method"@) && headers[method].value != seq![
            0x50u8,
            0x4f,
            0x53,
            0x54,
        ] ==> server.headers_step(headers) == ProxyStepView::Forward(
            server.server_port,
            headers,
            Seq::empty(),
        ) && server.after_headers(stream, headers) == server,
        is_first(headers, method, ":method"@) && headers[method].value == seq![
            0x50u8,
            0x4f,
            0x53,
            0x54,
        ] && is_first(headers, length, "content-length"@) && headers[length].value == encode_utf8(
            decimal(0),
        ) ==> server.headers_step(headers) == ProxyStepView::Forward(
            server.server_port,
            headers,
            Seq::empty(),
        ) && server.after_headers(stream, headers) == server,
        is_first(headers, method, ":method"@) && headers[method].value == seq![
            0x50u8,
            0x4f,
            0x53,
            0x54,
        ] && (forall|j: int|
            0 <= j < headers.len() ==> (#[trigger] headers[j]).name != "content-length"@)
            ==> server.headers_step(headers) == ProxyStepView::Nothing && server.after_headers(
            stream,
            headers,
        ) == server,
        is_first(headers, method, ":method"@) && headers[method].value == seq![
            0x50u8,
            0x4f,
            0x53,
            0x54,
        ] && is_first(headers, length, "content-length"@) && headers[length].value == encode_utf8(
            decimal(n),
        ) && n > 0xffff_ffff ==> server.headers_step(headers) == ProxyStepView::Nothing
            && server.after_headers(stream, headers) == server,
        (forall|j: int| 0 <= j < headers.len() ==> (#[trigger] headers[j]).name != ":method"@)
            ==> server.headers_step(headers) == ProxyStepView::Nothing && server.after_headers(
            stream,
            headers,
        ) == server,
{
    lemma_post();
    if is_first(headers, method, ":method"@) {
        lemma_first(headers, method, ":method"@);
        if headers[method].value == seq![0x50u8, 0x4f, 0x53, 0x54] {
            if is_first(headers, length, "content-length"@) {
                if headers[length].value == encode_utf8(decimal(0)) {
                    lemma_announced_length(headers, method, length, 0);
                }
                if headers[length].value == encode_utf8(decimal(n)) {
                    lemma_announced_length(headers, method, length, n);
                }
            }
            if forall|j: int| 0 <= j < headers.len() ==> (#[trigger] headers[j]).name
                != "content-length"@ {
                lemma_absent(headers, "content-length"@);
            }
        }
    }
    if forall|j: int| 0 <= j < headers.len() ==> (#[trigger] headers[j]).name != ":method"@ {
        lemma_absent(headers, ":method"@);
    }
}

/// A proxy that knows no port learns it from a path, answers every request with success until
/// then, and keeps the port for good. So the port is that of the last number before requests are
/// handed on.
pub proof fn law_port_is_learnt(
    server: ReverseProxyView,
    stream: u64,
    headers: Seq<HeaderView>,
    path: int,
    n: nat,
    data: Seq<u8>,
    fin: bool,
)
    ensures
        server.server_port == -1 ==> (server.headers_step(headers)
            matches ProxyStepView::Answer(actions) && actions == seq![
            RequestActionView::SendHeaders(
                seq![
                    text_field(":status", "200"),
                    text_field("cache-control", "no-cache"),
                    text_field("content-length", "0"),
                ],
            ),
        ]),
        server.server_port == -1 && is_first(headers, path, ":path"@) && n <= 0x7fff_ffff
            && headers[path].value == seq![0x2fu8, 0x70, 0x6f, 0x72, 0x74, 0x3f] + encode_utf8(
            decimal(n),
        ) ==> server.after_headers(stream, headers) == (ReverseProxyView {
            server_port: n as i32,
            ..server
        }),
        server.server_port == -1 && is_first(headers, path, ":path"@) && (
        headers[path].value.len() < 6 || headers[path].value.subrange(0, 6) != seq![
            0x2fu8,
            0x70,
            0x6f,
            0x72,
            0x74,
            0x3f,
        ]) ==> server.after_headers(stream, headers) == server,
        server.server_port != -1 ==> server.after_headers(stream, headers).server_port
            == server.server_port,
        server.after_data(stream, data, fin).server_port == server.server_port,
{
    reveal_strlit("/port?");
    vstd::string::is_ascii_spec_bytes("/port?");
    let prefix = "/port?".spec_bytes();
    assert(prefix =~= seq![0x2fu8, 0x70, 0x6f, 0x72, 0x74, 0x3f]);
    if is_first(headers, path, ":path"@) {
        lemma_first(headers, path, ":path"@);
        let value = headers[path].value;
        crate::text::law_signed_is_read(n);
        if value == prefix + encode_utf8(decimal(n)) {
            assert(value.take(6) =~= prefix);
            assert(value.skip(6) =~= encode_utf8(decimal(n)));
        }
        if value.len() >= 6 {
            assert(value.take(6) =~= value.subrange(0, 6));
        }
    }
}

proof fn lemma_method(headers: Seq<HeaderView>, i: int)
    requires
        0 <= i < headers.len(),
        headers[i].name == ":method"@,
        forall|j: int| i < j < headers.len() ==> (#[trigger] headers[j]).name != ":method"@,
    ensures
        method_of(headers) == headers[i].value,
    decreases headers.len(),
{
    if i < headers.len() - 1 {
        assert(headers[headers.len() - 1].name != ":method"@);
        assert forall|j: int| i < j < headers.drop_last().len() implies (
        #[trigger] headers.drop_last()[j]).name != ":method"@ by {
            assert(headers.drop_last()[j] == headers[j]);
        }
        lemma_method(headers.drop_last(), i);
    }
}

proof fn lemma_path(headers: Seq<HeaderView>, i: int)
    requires
        0 <= i < headers.len(),
        headers[i].name == ":path"@,
        forall|j: int| i < j < headers.len() ==> (#[trigger] headers[j]).name != ":path"@,
    ensures
        path_of(headers) == (if valid_utf8(headers[i].value) {
            decode_utf8(headers[i].value)
        } else {
            "/"@
        }),
    decreases headers.len(),
{
    if i < headers.len() - 1 {
        assert(headers[headers.len() - 1].name != ":path"@);
        assert forall|j: int| i < j < headers.drop_last().len() implies (
        #[trigger] headers.drop_last()[j]).name != ":path"@ by {
            assert(headers.drop_last()[j] == headers[j]);
        }
        lemma_path(headers.drop_last(), i);
    }
}

/// What is handed on has the method, the path, the host and the body of the request: it goes to
/// this machine, to the port that the proxy knows.
pub proof fn law_request_is_handed_on(
    port: i32,
    headers: Vec<Header>,
    body: Vec<u8>,
    request: ProxyRequest,
    method: int,
    path: int,
)
    requires
        is_forwardable(header_views(headers@)),
        call_ensures(fetch, (port, &headers, body), Fetch::Send(request)),
        0 <= method < headers@.len(),
        headers@[method]@.name == ":method"@,
        forall|j: int| method < j < headers@.len() ==> (#[trigger] headers@[j])@.name != ":method"@,
        0 <= path < headers@.len(),
        headers@[path]@.name == ":path"@,
        valid_utf8(headers@[path]@.value),
        forall|j: int| path < j < headers@.len() ==> (#[trigger] headers@[j])@.name != ":path"@,
    ensures
        request.method@ == headers@[method]@.value,
        request.body@ == body@,
        port >= 0 ==> request.uri@ == "http://127.0.0.1:"@ + decimal(port as nat) + decode_utf8(
            headers@[path]@.value,
        ),
        is_uri(request.uri@),
{
    let all = header_views(headers@);
    assert forall|j: int| method < j < all.len() implies (#[trigger] all[j]).name
        != ":method"@ by {
        assert(all[j] == headers@[j]@);
    }
    assert forall|j: int| path < j < all.len() implies (#[trigger] all[j]).name != ":path"@ by {
        assert(all[j] == headers@[j]@);
    }
    assert(all[method] == headers@[method]@ && all[path] == headers@[path]@);
    lemma_method(all, method);
    lemma_path(all, path);
}

/// Whether a header field sets the field with this name of the request that is handed on: it is
/// the authority for the host, and any other but a pseudo header field for its own name.
pub open spec fn sets_field(header: HeaderView, name: Seq<u8>) -> bool {
    ||| header.name == ":authority"@ && name == "host".spec_bytes()
    ||| header.name != ":authority"@ && header.name != ":method"@ && header.name != ":scheme"@
        && header.name != ":path"@ && encode_utf8(header.name) == name && is_field_name(name)
}

/// The header fields that are handed on are those of the request, each with the value that came
/// last, and the authority as the host. There are no others.
pub proof fn law_fields_are_handed_on(headers: Seq<HeaderView>, name: Seq<u8>)
    ensures
        fields_of(headers).contains_key(name) <==> exists|i: int|
            0 <= i < headers.len() && sets_field(#[trigger] headers[i], name),
        forall|i: int|
            0 <= i < headers.len() && sets_field(#[trigger] headers[i], name) && (forall|j: int|
                i < j < headers.len() ==> !sets_field(#[trigger] headers[j], name))
                ==> fields_of(headers)[name] == headers[i].value,
    decreases headers.len(),
{
    if headers.len() > 0 {
        let before = headers.drop_last();
        let at = headers.len() - 1;
        law_fields_are_handed_on(before, name);
        lemma_one_more_field(headers, name);
        assert(forall|i: int| 0 <= i < before.len() ==> before[i] == #[trigger] headers[i]);
        if sets_field(headers[at], name) {
        } else if fields_of(before).contains_key(name) {
            let i = choose|i: int| 0 <= i < before.len() && sets_field(#[trigger] before[i], name);
            assert(sets_field(headers[i], name));
        }
        assert forall|i: int|
            0 <= i < headers.len() && sets_field(#[trigger] headers[i], name) && (forall|j: int|
                i < j < headers.len() ==> !sets_field(
                    #[trigger] headers[j],
                    name,
                )) implies fields_of(headers)[name] == headers[i].value by {
            if i < at {
                assert(!sets_field(headers[at], name));
                assert(sets_field(before[i], name));
                assert forall|j: int| i < j < before.len() implies !sets_field(
                    #[trigger] before[j],
                    name,
                ) by {
                    assert(!sets_field(headers[j], name));
                }
            }
        }
    }
}

proof fn lemma_one_more_field(headers: Seq<HeaderView>, name: Seq<u8>)
    requires
        headers.len() > 0,
    ensures
        sets_field(headers.last(), name) ==> fields_of(headers).contains_key(name) && fields_of(
            headers,
        )[name] == headers.last().value,
        !sets_field(headers.last(), name) ==> (fields_of(headers).contains_key(name) <==> fields_of(
            headers.drop_last(),
        ).contains_key(name)) && fields_of(headers)[name] == fields_of(headers.drop_last())[name],
{
    lemma_pseudo_names();
}

proof fn lemma_pseudo_names()
    ensures
        ":authority"@ != ":method"@,
        ":authority"@ != ":scheme"@,
        ":authority"@ != ":path"@,
{
    reveal_strlit(":authority");
    reveal_strlit(":method");
    reveal_strlit(":scheme");
    reveal_strlit(":path");
    assert(":authority"@[1] == 'a');
    assert(":method"@[1] == 'm');
    assert(":scheme"@[1] == 's');
    assert(":path"@[1] == 'p');
}

/// An answer is handed back with its status first, then its header fields in their order with
/// their names, and with their values where those can be seen.
pub proof fn law_answer_is_handed_back(status: &str, fields: Vec<Header>, head: Vec<Header>)
    requires
        forall|i: int| 0 <= i < fields@.len() ==> is_field_value((#[trigger] fields@[i])@.value),
        call_ensures(response_head, (status, &fields), head),
    ensures
        head@.len() == fields@.len() + 1,
        head@[0]@ == (HeaderView { name: ":status"@, value: status.spec_bytes() }),
        forall|i: int|
            0 <= i < fields@.len() ==> (#[trigger] head@[i + 1])@.name == fields@[i]@.name,
        forall|i: int|
            0 <= i < fields@.len() && (forall|k: int|
                0 <= k < fields@[i]@.value.len() ==> 0x20 <= (#[trigger] fields@[i]@.value[k]) < 0x7f
                    || fields@[i]@.value[k] == 0x09) ==> (#[trigger] head@[i + 1])@.value
                == fields@[i]@.value,
{
    let views = header_views(head@);
    assert(views.len() == head@.len());
    assert(views[0] == head@[0]@);
    assert forall|i: int| 0 <= i < fields@.len() implies (#[trigger] head@[i + 1])@
        == returned_field(fields@[i]@.name, fields@[i]@.value) by {
        assert(views[i + 1] == head@[i + 1]@);
        assert(header_views(fields@)[i] == fields@[i]@);
    }
}

/// A request by a path that gives no URI is answered with 400.
pub proof fn law_bad_uri_is_refused(actions: Vec<RequestAction>)
    requires
        call_ensures(answer_bad_uri, (), actions),
    ensures
        action_views(actions@) == seq![
            RequestActionView::SendHeaders(
                seq![
                    text_field(":status", "400"),
                    text_field("cache-control", "no-cache"),
                    text_field("content-length", "0"),
                ],
            ),
        ],
{
}

/// What the proxy does with a head and with data is what is said of it here.
pub proof fn law_proxy_calls(
    server: &mut Http3ReverseProxyServer,
    stream: u64,
    headers: Vec<Header>,
    step: ProxyStep,
    other: &mut Http3ReverseProxyServer,
    data: Vec<u8>,
    fin: bool,
    data_step: ProxyStep,
)
    requires
        call_ensures(Http3ReverseProxyServer::on_headers, (server, stream, headers), step),
        call_ensures(Http3ReverseProxyServer::on_data, (other, stream, data, fin), data_step),
    ensures
        step@ == old(server)@.headers_step(header_views(headers@)),
        final(server)@ == old(server)@.after_headers(stream, header_views(headers@)),
        data_step@ == old(other)@.data_step(stream, data@, fin),
        final(other)@ == old(other)@.after_data(stream, data@, fin),
{
}

/// A request can be handed on where its method is a token, and its host and the values of the
/// fields that are handed on are values of HTTP/1; its scheme and its path are not looked at here.
pub proof fn law_what_can_be_handed_on(
    headers: Vec<Header>,
    can: bool,
    proxy: Http3ReverseProxyServer,
    action: RequestAction,
)
    requires
        call_ensures(can_forward, (&headers,), can),
        call_ensures(Http3ReverseProxyServer::response_failed, (&proxy,), action),
    ensures
        can <==> forall|i: int|
            0 <= i < headers@.len() ==> {
                let h = #[trigger] headers@[i];
                let special = h.name@ == ":method"@ || h.name@ == ":scheme"@ || h.name@ == ":path"@
                    || h.name@ == ":authority"@;
                &&& h.name@ == ":method"@ ==> is_method(h.value@)
                &&& h.name@ == ":authority"@ ==> is_field_value(h.value@)
                &&& !special && is_field_name(encode_utf8(h.name@)) ==> is_field_value(h.value@)
            },
        action@ == RequestActionView::ResetSend(0x10c),
{
    let all = header_views(headers@);
    lemma_pseudo_names();
    assert(all.len() == headers@.len());
    if can {
        assert forall|i: int| 0 <= i < headers@.len() implies {
            let h = #[trigger] headers@[i];
            let special = h.name@ == ":method"@ || h.name@ == ":scheme"@ || h.name@ == ":path"@
                || h.name@ == ":authority"@;
            &&& h.name@ == ":method"@ ==> is_method(h.value@)
            &&& h.name@ == ":authority"@ ==> is_field_value(h.value@)
            &&& !special && is_field_name(encode_utf8(h.name@)) ==> is_field_value(h.value@)
        } by {
            assert(all[i] == headers@[i]@);
        }
    } else {
        let i = choose|i: int|
            0 <= i < all.len() && !(match field_use(#[trigger] all[i]) {
                FieldUse::Method => is_method(all[i].value),
                FieldUse::Host => is_field_value(all[i].value),
                FieldUse::Field => is_field_value(all[i].value),
                _ => true,
            });
        assert(all[i] == headers@[i]@);
    }
}

/// A request without a method asks for a page, one without a path for none, and one whose path is
/// no text for the root. It fails only where what it is to be handed on to is no URI, or where it
/// has thousands of header fields; it is handed on with no port but the one that was given.
pub proof fn law_what_is_handed_on_by_default(
    port: i32,
    headers: Vec<Header>,
    body: Vec<u8>,
    fetched: Fetch,
    path: int,
)
    requires
        is_forwardable(header_views(headers@)),
        call_ensures(fetch, (port, &headers, body), fetched),
    ensures
        ({
            let all = header_views(headers@);
            let no_method = forall|i: int| 0 <= i < all.len() ==> (#[trigger] all[i]).name
                != ":method"@;
            let no_path = forall|i: int| 0 <= i < all.len() ==> (#[trigger] all[i]).name
                != ":path"@;
            let bad_path = 0 <= path < all.len() && all[path].name == ":path"@ && !valid_utf8(
                all[path].value,
            ) && forall|j: int| path < j < all.len() ==> (#[trigger] all[j]).name != ":path"@;
            let start = "http://127.0.0.1:"@ + (if port < 0 {
                "-"@ + decimal((0 - port) as nat)
            } else {
                decimal(port as nat)
            });
            &&& fetched matches Fetch::Send(request) ==> {
                &&& no_method ==> request.method@ == "GET".spec_bytes()
                &&& no_path ==> request.uri@ == start
                &&& bad_path ==> request.uri@ == start + "/"@
                &&& request.body@ == body@
            }
            &&& fetched is BadUri && no_path ==> !is_uri(start)
            &&& fetched is BadUri && bad_path ==> !is_uri(start + "/"@)
            &&& fetched is TooManyFields ==> fields_of(all).dom().len() >= 6000
        }),
{
    let all = header_views(headers@);
    if forall|i: int| 0 <= i < all.len() ==> (#[trigger] all[i]).name != ":method"@ {
        lemma_no_method(all);
    }
    let start = "http://127.0.0.1:"@ + signed_decimal(port as int);
    if forall|i: int| 0 <= i < all.len() ==> (#[trigger] all[i]).name != ":path"@ {
        lemma_no_path(all);
        assert(forward_uri(port, path_of(all)) =~= start);
    }
    if 0 <= path < all.len() && all[path].name == ":path"@ && forall|j: int|
        path < j < all.len() ==> (#[trigger] all[j]).name != ":path"@ {
        lemma_path(all, path);
    }
}

proof fn lemma_no_method(headers: Seq<HeaderView>)
    requires
        forall|i: int| 0 <= i < headers.len() ==> (#[trigger] headers[i]).name != ":method"@,
    ensures
        method_of(headers) == "GET".spec_bytes(),
    decreases headers.len(),
{
    if headers.len() > 0 {
        let before = headers.drop_last();
        assert(headers[headers.len() - 1].name != ":method"@);
        assert forall|i: int| 0 <= i < before.len() implies (#[trigger] before[i]).name
            != ":method"@ by {
            assert(before[i] == headers[i]);
        }
        lemma_no_method(before);
    }
}

proof fn lemma_no_path(headers: Seq<HeaderView>)
    requires
        forall|i: int| 0 <= i < headers.len() ==> (#[trigger] headers[i]).name != ":path"@,
    ensures
        path_of(headers) == Seq::<char>::empty(),
    decreases headers.len(),
{
    if headers.len() > 0 {
        let before = headers.drop_last();
        assert(headers[headers.len() - 1].name != ":path"@);
        assert forall|i: int| 0 <= i < before.len() implies (#[trigger] before[i]).name
            != ":path"@ by {
            assert(before[i] == headers[i]);
        }
        lemma_no_path(before);
    }
}

}
