//! How the server answers a request for a WebTransport session, by its path.
use crate::bytes::{append, has_prefix, is_text, repeated, strip_prefix, text_bytes};
use crate::events::StreamType;
use crate::headers::{header_views, Header, HeaderView};
use crate::server::requests::{push_text, text_field};
use crate::server::scenario::McquicWebTransportScenarioKind;
use crate::text::{
    decimal, decimal_text, eq_ignoring_case, is_digit, law_decimal_round_trip, lemma_decimal_bytes,
    parse_unsigned, same_ignoring_case, unsigned,
};
use vstd::prelude::*;
use vstd::string::{is_ascii, is_ascii_spec_bytes, StringSliceAdditionalSpecFns};
use vstd::utf8::{encode_utf8, encode_utf8_decode_utf8};

verus! {

/// The path whose sessions are refused until the client authenticates.
pub const MCQUIC_AUTH_CHALLENGE_PATH: &'static str = "/mcquic_auth_challenge";

/// What the path of a session asks for.
#[derive(Clone, Copy, Debug, PartialEq, Eq, Structural)]
pub enum SessionRoute {
    Success,
    Redirect,
    Reject,
    CloseAfter0Ms,
    CloseAfter100Ms,
    CreateUnidi,
    CreateUnidiAndHello,
    CreateTwoUnidiAndHello,
    /// Nothing where the path names no number.
    CreateUnidiStreams(Option<usize>),
    /// Nothing where the path names no number.
    CreateBidiStreams(Option<usize>),
    CreateBidi,
    CreateBidiAndHello,
    CreateBidiAndLargeData,
    AuthChallenge,
    AuthCount,
    NonSuccessTrue,
    ResponseDuplicate,
    ResponseParameter,
    RedirectTarget(u16),
    RedirectCount(u16),
    RedirectFrom(u16),
    PermissionMissing,
    PermissionFalse,
    PermissionMalformed,
    UnsolicitedResponse,
    PermissionUnsolicited,
    RetryOnce,
    ConnectionIsolation,
    Multicast,
    Revocation,
    CreateBidiAndStopSending,
    Other,
}

/// The status that a path names after a prefix.
pub open spec fn status_path(path: Seq<u8>, prefix: Seq<u8>) -> Option<u16> {
    if has_prefix(path, prefix) {
        match unsigned(path.skip(prefix.len() as int), u16::MAX as nat) {
            Some(n) => Some(n as u16),
            None => None,
        }
    } else {
        None
    }
}

/// The status that a path names after a prefix.
pub fn parse_status_path(path: &[u8], prefix: &[u8]) -> (status: Option<u16>)
    ensures
        status == status_path(path@, prefix@),
{
    match strip_prefix(path, prefix) {
        Some(suffix) => match parse_unsigned(suffix, 0xffff) {
            Some(n) => Some(n as u16),
            None => None,
        },
        None => None,
    }
}

/// The number that a path names after a prefix.
pub open spec fn path_number(path: Seq<u8>, prefix: Seq<u8>) -> Option<usize> {
    match unsigned(path.skip(prefix.len() as int), usize::MAX as nat) {
        Some(n) => Some(n as usize),
        None => None,
    }
}

fn to_number(suffix: &[u8]) -> (number: Option<usize>)
    ensures
        number == (match unsigned(suffix@, usize::MAX as nat) {
            Some(n) => Some(n as usize),
            None => None,
        }),
{
    match parse_unsigned(suffix, usize::MAX as u64) {
        Some(n) => Some(n as usize),
        None => None,
    }
}

/// What the paths that exercise streams ask for.
#[verifier::opaque]
pub open spec fn stream_route(path: Seq<u8>) -> Option<SessionRoute> {
    if path == "/success".spec_bytes() {
        Some(SessionRoute::Success)
    } else if path == "/redirect".spec_bytes() {
        Some(SessionRoute::Redirect)
    } else if path == "/reject".spec_bytes() {
        Some(SessionRoute::Reject)
    } else if path == "/closeafter0ms".spec_bytes() {
        Some(SessionRoute::CloseAfter0Ms)
    } else if path == "/closeafter100ms".spec_bytes() {
        Some(SessionRoute::CloseAfter100Ms)
    } else if path == "/create_unidi_stream".spec_bytes() {
        Some(SessionRoute::CreateUnidi)
    } else if path == "/create_unidi_stream_and_hello".spec_bytes() {
        Some(SessionRoute::CreateUnidiAndHello)
    } else if path == "/create_two_unidi_streams_and_hello".spec_bytes() {
        Some(SessionRoute::CreateTwoUnidiAndHello)
    } else if has_prefix(path, "/create_unidi_streams/".spec_bytes()) {
        Some(
            SessionRoute::CreateUnidiStreams(
                path_number(path, "/create_unidi_streams/".spec_bytes()),
            ),
        )
    } else if has_prefix(path, "/create_bidi_streams/".spec_bytes()) {
        Some(
            SessionRoute::CreateBidiStreams(
                path_number(path, "/create_bidi_streams/".spec_bytes()),
            ),
        )
    } else if path == "/create_bidi_stream".spec_bytes() {
        Some(SessionRoute::CreateBidi)
    } else if path == "/create_bidi_stream_and_hello".spec_bytes() {
        Some(SessionRoute::CreateBidiAndHello)
    } else if path == "/create_bidi_stream_and_large_data".spec_bytes() {
        Some(SessionRoute::CreateBidiAndLargeData)
    } else if path == "/create_bidi_stream_and_stop_sending".spec_bytes() {
        Some(SessionRoute::CreateBidiAndStopSending)
    } else {
        None
    }
}

/// What the paths that exercise how a session is answered ask for.
#[verifier::opaque]
pub open spec fn answer_route(path: Seq<u8>) -> Option<SessionRoute> {
    if path == MCQUIC_AUTH_CHALLENGE_PATH.spec_bytes() {
        Some(SessionRoute::AuthChallenge)
    } else if path == "/mcquic_auth_count".spec_bytes() {
        Some(SessionRoute::AuthCount)
    } else if path == "/mcquic_non_success_true".spec_bytes() {
        Some(SessionRoute::NonSuccessTrue)
    } else if path == "/mcquic_response_duplicate".spec_bytes() {
        Some(SessionRoute::ResponseDuplicate)
    } else if path == "/mcquic_response_parameter".spec_bytes() {
        Some(SessionRoute::ResponseParameter)
    } else {
        match status_path(path, "/mcquic_redirect_target_".spec_bytes()) {
            Some(status) => Some(SessionRoute::RedirectTarget(status)),
            None => match status_path(path, "/mcquic_redirect_count_".spec_bytes()) {
                Some(status) => Some(SessionRoute::RedirectCount(status)),
                None => match status_path(path, "/mcquic_redirect_".spec_bytes()) {
                    Some(status) => Some(SessionRoute::RedirectFrom(status)),
                    None => None,
                },
            },
        }
    }
}

/// What the paths that exercise the permission for multicast ask for.
#[verifier::opaque]
pub open spec fn permission_route(path: Seq<u8>) -> Option<SessionRoute> {
    if path == "/mcquic_permission_missing".spec_bytes() {
        Some(SessionRoute::PermissionMissing)
    } else if path == "/mcquic_permission_false".spec_bytes() {
        Some(SessionRoute::PermissionFalse)
    } else if path == "/mcquic_permission_malformed".spec_bytes() {
        Some(SessionRoute::PermissionMalformed)
    } else if path == "/mcquic_unsolicited_response".spec_bytes() {
        Some(SessionRoute::UnsolicitedResponse)
    } else if path == "/mcquic_permission_unsolicited".spec_bytes() {
        Some(SessionRoute::PermissionUnsolicited)
    } else if path == "/mcquic_permission_retry_once".spec_bytes() {
        Some(SessionRoute::RetryOnce)
    } else if path == "/mcquic_permission_connection".spec_bytes() {
        Some(SessionRoute::ConnectionIsolation)
    } else if path == "/mcquic_webtransport_stream".spec_bytes() {
        Some(SessionRoute::Multicast)
    } else if path == "/mcquic_permission_revocation".spec_bytes() {
        Some(SessionRoute::Revocation)
    } else {
        None
    }
}

/// What a path asks for.
#[verifier::opaque]
pub open spec fn session_route(path: Seq<u8>) -> SessionRoute {
    match stream_route(path) {
        Some(route) => route,
        None => match answer_route(path) {
            Some(route) => route,
            None => match permission_route(path) {
                Some(route) => route,
                None => SessionRoute::Other,
            },
        },
    }
}

fn find_stream_route(path: &[u8]) -> (route: Option<SessionRoute>)
    ensures
        route == stream_route(path@),
{
    proof {
        reveal(stream_route);
    }
    if is_text(path, "/success") {
        return Some(SessionRoute::Success);
    }
    if is_text(path, "/redirect") {
        return Some(SessionRoute::Redirect);
    }
    if is_text(path, "/reject") {
        return Some(SessionRoute::Reject);
    }
    if is_text(path, "/closeafter0ms") {
        return Some(SessionRoute::CloseAfter0Ms);
    }
    if is_text(path, "/closeafter100ms") {
        return Some(SessionRoute::CloseAfter100Ms);
    }
    if is_text(path, "/create_unidi_stream") {
        return Some(SessionRoute::CreateUnidi);
    }
    if is_text(path, "/create_unidi_stream_and_hello") {
        return Some(SessionRoute::CreateUnidiAndHello);
    }
    if is_text(path, "/create_two_unidi_streams_and_hello") {
        return Some(SessionRoute::CreateTwoUnidiAndHello);
    }
    if let Some(suffix) = strip_prefix(path, "/create_unidi_streams/".as_bytes()) {
        return Some(SessionRoute::CreateUnidiStreams(to_number(suffix)));
    }
    if let Some(suffix) = strip_prefix(path, "/create_bidi_streams/".as_bytes()) {
        return Some(SessionRoute::CreateBidiStreams(to_number(suffix)));
    }
    if is_text(path, "/create_bidi_stream") {
        return Some(SessionRoute::CreateBidi);
    }
    if is_text(path, "/create_bidi_stream_and_hello") {
        return Some(SessionRoute::CreateBidiAndHello);
    }
    if is_text(path, "/create_bidi_stream_and_large_data") {
        return Some(SessionRoute::CreateBidiAndLargeData);
    }
    if is_text(path, "/create_bidi_stream_and_stop_sending") {
        return Some(SessionRoute::CreateBidiAndStopSending);
    }
    None
}

fn find_answer_route(path: &[u8]) -> (route: Option<SessionRoute>)
    ensures
        route == answer_route(path@),
{
    proof {
        reveal(answer_route);
    }
    if is_text(path, MCQUIC_AUTH_CHALLENGE_PATH) {
        return Some(SessionRoute::AuthChallenge);
    }
    if is_text(path, "/mcquic_auth_count") {
        return Some(SessionRoute::AuthCount);
    }
    if is_text(path, "/mcquic_non_success_true") {
        return Some(SessionRoute::NonSuccessTrue);
    }
    if is_text(path, "/mcquic_response_duplicate") {
        return Some(SessionRoute::ResponseDuplicate);
    }
    if is_text(path, "/mcquic_response_parameter") {
        return Some(SessionRoute::ResponseParameter);
    }
    if let Some(status) = parse_status_path(path, "/mcquic_redirect_target_".as_bytes()) {
        return Some(SessionRoute::RedirectTarget(status));
    }
    if let Some(status) = parse_status_path(path, "/mcquic_redirect_count_".as_bytes()) {
        return Some(SessionRoute::RedirectCount(status));
    }
    if let Some(status) = parse_status_path(path, "/mcquic_redirect_".as_bytes()) {
        return Some(SessionRoute::RedirectFrom(status));
    }
    None
}

fn find_permission_route(path: &[u8]) -> (route: Option<SessionRoute>)
    ensures
        route == permission_route(path@),
{
    proof {
        reveal(permission_route);
    }
    if is_text(path, "/mcquic_permission_missing") {
        return Some(SessionRoute::PermissionMissing);
    }
    if is_text(path, "/mcquic_permission_false") {
        return Some(SessionRoute::PermissionFalse);
    }
    if is_text(path, "/mcquic_permission_malformed") {
        return Some(SessionRoute::PermissionMalformed);
    }
    if is_text(path, "/mcquic_unsolicited_response") {
        return Some(SessionRoute::UnsolicitedResponse);
    }
    if is_text(path, "/mcquic_permission_unsolicited") {
        return Some(SessionRoute::PermissionUnsolicited);
    }
    if is_text(path, "/mcquic_permission_retry_once") {
        return Some(SessionRoute::RetryOnce);
    }
    if is_text(path, "/mcquic_permission_connection") {
        return Some(SessionRoute::ConnectionIsolation);
    }
    if is_text(path, "/mcquic_webtransport_stream") {
        return Some(SessionRoute::Multicast);
    }
    if is_text(path, "/mcquic_permission_revocation") {
        return Some(SessionRoute::Revocation);
    }
    None
}

/// What a path asks for.
pub fn find_session_route(path: &[u8]) -> (route: SessionRoute)
    ensures
        route == session_route(path@),
{
    proof {
        reveal(session_route);
    }
    if let Some(route) = find_stream_route(path) {
        return route;
    }
    if let Some(route) = find_answer_route(path) {
        return route;
    }
    match find_permission_route(path) {
        Some(route) => route,
        None => SessionRoute::Other,
    }
}

/// Whether the session asks for multicast.
pub open spec fn asks_for_multicast(headers: Seq<HeaderView>) -> bool {
    exists|i: int|
        0 <= i < headers.len() && same_ignoring_case(
            encode_utf8((#[trigger] headers[i]).name),
            "wt-multicast".spec_bytes(),
        ) && headers[i].value == "?1".spec_bytes()
}

/// Whether the session asks for multicast.
pub fn multicast_requested(headers: &Vec<Header>) -> (requested: bool)
    ensures
        requested == asks_for_multicast(header_views(headers@)),
{
    let ghost all = header_views(headers@);
    let mut i: usize = 0;
    while i < headers.len()
        invariant
            i <= headers@.len(),
            all == header_views(headers@),
            forall|j: int|
                0 <= j < i ==> !(same_ignoring_case(
                    encode_utf8((#[trigger] all[j]).name),
                    "wt-multicast".spec_bytes(),
                ) && all[j].value == "?1".spec_bytes()),
        decreases headers@.len() - i,
    {
        assert(all[i as int] == headers@[i as int]@);
        if eq_ignoring_case(headers[i].name.as_str().as_bytes(), "wt-multicast".as_bytes()) && is_text(
            headers[i].value.as_slice(),
            "?1",
        ) {
            return true;
        }
        i += 1;
    }
    false
}

/// Whether the session names who asks.
pub open spec fn has_authorization(headers: Seq<HeaderView>) -> bool {
    exists|i: int|
        0 <= i < headers.len() && same_ignoring_case(
            encode_utf8((#[trigger] headers[i]).name),
            "authorization".spec_bytes(),
        )
}

/// Whether the session names who asks.
pub fn is_authorized(headers: &Vec<Header>) -> (authorized: bool)
    ensures
        authorized == has_authorization(header_views(headers@)),
{
    let ghost all = header_views(headers@);
    let mut i: usize = 0;
    while i < headers.len()
        invariant
            i <= headers@.len(),
            all == header_views(headers@),
            forall|j: int|
                0 <= j < i ==> !same_ignoring_case(
                    encode_utf8((#[trigger] all[j]).name),
                    "authorization".spec_bytes(),
                ),
        decreases headers@.len() - i,
    {
        assert(all[i as int] == headers@[i as int]@);
        if eq_ignoring_case(headers[i].name.as_str().as_bytes(), "authorization".as_bytes()) {
            return true;
        }
        i += 1;
    }
    false
}

/// What a request for a session is answered.
#[derive(Debug)]
pub enum SessionAcceptAction {
    Accept,
    Reject(Vec<Header>),
    AcceptWithHeaders(Vec<Header>),
}

/// The contents of a [`SessionAcceptAction`].
pub enum SessionAcceptView {
    Accept,
    Reject(Seq<HeaderView>),
    AcceptWithHeaders(Seq<HeaderView>),
}

impl View for SessionAcceptAction {
    type V = SessionAcceptView;

    open spec fn view(&self) -> SessionAcceptView {
        match *self {
            SessionAcceptAction::Accept => SessionAcceptView::Accept,
            SessionAcceptAction::Reject(headers) => SessionAcceptView::Reject(
                header_views(headers@),
            ),
            SessionAcceptAction::AcceptWithHeaders(
                headers,
            ) => SessionAcceptView::AcceptWithHeaders(header_views(headers@)),
        }
    }
}

/// A stream that the server is to open: with data it is closed after them, without it waits for
/// what the client sends.
#[derive(Debug)]
pub struct NewStream {
    pub stream_type: StreamType,
    pub data: Option<Vec<u8>>,
}

/// The contents of a [`NewStream`].
pub struct NewStreamView {
    pub stream_type: StreamType,
    pub data: Option<Seq<u8>>,
}

impl View for NewStream {
    type V = NewStreamView;

    open spec fn view(&self) -> NewStreamView {
        NewStreamView {
            stream_type: self.stream_type,
            data: match self.data {
                Some(data) => Some(data@),
                None => None,
            },
        }
    }
}

/// The contents of a list of streams.
pub open spec fn stream_views(streams: Seq<NewStream>) -> Seq<NewStreamView> {
    streams.map_values(|s: NewStream| s@)
}

/// The contents of a list of messages.
pub open spec fn message_views(messages: Seq<Vec<u8>>) -> Seq<Seq<u8>> {
    messages.map_values(|m: Vec<u8>| m@)
}

/// What comes after a session was answered.
#[derive(Clone, Copy, Debug, PartialEq, Eq, Structural)]
pub enum FollowUp {
    Nothing,
    /// Close the session at once.
    CloseNow,
    /// Close the session in 100 ms.
    CloseLater,
    /// Open a stream, and ask the client later not to send on it.
    StopSending,
    /// Send multicast frames that the client did not ask for, and a message 400 ms later.
    SendControls,
    /// Run a multicast scenario.
    Run(McquicWebTransportScenarioKind),
}

/// What the server does about a session.
#[derive(Debug)]
pub struct SessionAnswer {
    pub response: SessionAcceptAction,
    /// Sent at once, each on a stream of its own.
    pub messages: Vec<Vec<u8>>,
    /// Opened later, the last one first.
    pub streams: Vec<NewStream>,
    /// Whether what comes in on the streams so far is no longer given back.
    pub forgets_streams: bool,
    pub follow_up: FollowUp,
}

/// The contents of a [`SessionAnswer`].
pub struct SessionAnswerView {
    pub response: SessionAcceptView,
    pub messages: Seq<Seq<u8>>,
    pub streams: Seq<NewStreamView>,
    pub forgets_streams: bool,
    pub follow_up: FollowUp,
}

impl View for SessionAnswer {
    type V = SessionAnswerView;

    open spec fn view(&self) -> SessionAnswerView {
        SessionAnswerView {
            response: self.response@,
            messages: message_views(self.messages@),
            streams: stream_views(self.streams@),
            forgets_streams: self.forgets_streams,
            follow_up: self.follow_up,
        }
    }
}

impl SessionAnswerView {
    /// The response and nothing else.
    pub open spec fn plain(response: SessionAcceptView) -> Self {
        SessionAnswerView {
            response,
            messages: Seq::empty(),
            streams: Seq::empty(),
            forgets_streams: false,
            follow_up: FollowUp::Nothing,
        }
    }

    /// The same, with a message.
    pub open spec fn say(self, message: Seq<u8>) -> Self {
        SessionAnswerView { messages: self.messages.push(message), ..self }
    }

    /// The same, with a stream.
    pub open spec fn open_stream(self, stream_type: StreamType, data: Option<Seq<u8>>) -> Self {
        SessionAnswerView {
            streams: self.streams.push(NewStreamView { stream_type, data }),
            ..self
        }
    }

    /// The same, with what comes after it.
    pub open spec fn followed_by(self, follow_up: FollowUp) -> Self {
        SessionAnswerView { follow_up, ..self }
    }

    /// The same, without regard to the streams so far.
    pub open spec fn forgetting(self) -> Self {
        SessionAnswerView { forgets_streams: true, ..self }
    }
}

impl SessionAnswer {
    fn plain(response: SessionAcceptAction) -> (answer: Self)
        ensures
            answer@ == SessionAnswerView::plain(response@),
    {
        let answer = SessionAnswer {
            response,
            messages: Vec::new(),
            streams: Vec::new(),
            forgets_streams: false,
            follow_up: FollowUp::Nothing,
        };
        assert(message_views(answer.messages@) =~= Seq::<Seq<u8>>::empty());
        assert(stream_views(answer.streams@) =~= Seq::<NewStreamView>::empty());
        answer
    }

    fn say(self, message: Vec<u8>) -> (answer: Self)
        ensures
            answer@ == self@.say(message@),
    {
        let mut answer = self;
        let ghost before = answer.messages@;
        answer.messages.push(message);
        assert(message_views(answer.messages@) =~= message_views(before).push(message@));
        answer
    }

    fn open_stream(self, stream_type: StreamType, data: Option<Vec<u8>>) -> (answer: Self)
        ensures
            answer@ == self@.open_stream(
                stream_type,
                (NewStream { stream_type, data })@.data,
            ),
    {
        let mut answer = self;
        let ghost before = answer.streams@;
        answer.streams.push(NewStream { stream_type, data });
        assert(stream_views(answer.streams@) =~= stream_views(before).push(
            (NewStream { stream_type, data })@,
        ));
        answer
    }

    fn followed_by(self, follow_up: FollowUp) -> (answer: Self)
        ensures
            answer@ == self@.followed_by(follow_up),
    {
        let mut answer = self;
        answer.follow_up = follow_up;
        answer
    }

    fn forgetting(self) -> (answer: Self)
        ensures
            answer@ == self@.forgetting(),
    {
        let mut answer = self;
        answer.forgets_streams = true;
        answer
    }
}

/// What the answer to a session depends on besides its path.
#[derive(Clone, Copy, Debug)]
pub struct SessionFacts {
    /// The session asks for multicast.
    pub multicast: bool,
    /// A number for the connection.
    pub connection: u64,
    /// The connection is not the one on which the client was first sent away.
    pub changed_connection: bool,
    /// The connection resumes an earlier one.
    pub resumed: bool,
    /// How many sessions the connection has had, this one included.
    pub connection_sessions: u64,
    /// How often the path was asked for, this time included.
    pub attempts: u64,
    /// How often the client was asked to authenticate.
    pub challenges: u64,
    /// How often it named itself then.
    pub authorizations: u64,
    /// How often the path that redirects was asked for.
    pub sources: u64,
    /// How often the path that it redirects to was asked for.
    pub targets: u64,
}

/// The digits of a number.
pub open spec fn digits(n: nat) -> Seq<u8> {
    encode_utf8(decimal(n))
}

/// The digit for a truth value.
pub open spec fn flag(value: bool) -> Seq<u8> {
    digits(if value {
        1
    } else {
        0
    })
}

/// The report on the attempts to authenticate.
#[verifier::opaque]
pub open spec fn auth_report(facts: SessionFacts) -> Seq<u8> {
    "requests=".spec_bytes() + digits(facts.challenges as nat) + ";authorization=".spec_bytes()
        + digits(facts.authorizations as nat)
}

/// The report on how often a redirection was followed.
#[verifier::opaque]
pub open spec fn redirect_report(facts: SessionFacts) -> Seq<u8> {
    "source=".spec_bytes() + digits(facts.sources as nat) + ";target=".spec_bytes() + digits(
        facts.targets as nat,
    )
}

/// The report on a connection.
#[verifier::opaque]
pub open spec fn connection_report(facts: SessionFacts) -> Seq<u8> {
    "connection=".spec_bytes() + digits(facts.connection as nat) + ";multicast=".spec_bytes()
        + flag(facts.multicast)
}

/// The report on a second attempt.
#[verifier::opaque]
pub open spec fn retry_report(facts: SessionFacts) -> Seq<u8> {
    retry_connection(facts) + retry_session(facts)
}

/// The connection in the report on a second attempt.
pub open spec fn retry_connection(facts: SessionFacts) -> Seq<u8> {
    "attempts=".spec_bytes() + digits(facts.attempts as nat) + ";connection=".spec_bytes()
        + digits(facts.connection as nat) + ";changed=".spec_bytes() + flag(
        facts.changed_connection,
    )
}

/// The session in the report on a second attempt.
pub open spec fn retry_session(facts: SessionFacts) -> Seq<u8> {
    ";sessions=".spec_bytes() + digits(facts.connection_sessions as nat)
        + ";multicast=".spec_bytes() + flag(facts.multicast) + ";resumed=".spec_bytes() + flag(
        facts.resumed,
    )
}

fn append_number(out: &mut Vec<u8>, n: u64)
    ensures
        final(out)@ == old(out)@ + digits(n as nat),
{
    let text = decimal_text(n);
    append(out, text.as_str().as_bytes());
}

fn append_flag(out: &mut Vec<u8>, value: bool)
    ensures
        final(out)@ == old(out)@ + flag(value),
{
    if value {
        append_number(out, 1);
    } else {
        append_number(out, 0);
    }
}

fn report_auth(facts: &SessionFacts) -> (report: Vec<u8>)
    ensures
        report@ == auth_report(*facts),
{
    proof {
        reveal(auth_report);
    }
    let mut out = text_bytes("requests=");
    append_number(&mut out, facts.challenges);
    append(&mut out, ";authorization=".as_bytes());
    append_number(&mut out, facts.authorizations);
    out
}

fn report_redirect(facts: &SessionFacts) -> (report: Vec<u8>)
    ensures
        report@ == redirect_report(*facts),
{
    proof {
        reveal(redirect_report);
    }
    let mut out = text_bytes("source=");
    append_number(&mut out, facts.sources);
    append(&mut out, ";target=".as_bytes());
    append_number(&mut out, facts.targets);
    out
}

fn report_connection(facts: &SessionFacts) -> (report: Vec<u8>)
    ensures
        report@ == connection_report(*facts),
{
    proof {
        reveal(connection_report);
    }
    let mut out = text_bytes("connection=");
    append_number(&mut out, facts.connection);
    append(&mut out, ";multicast=".as_bytes());
    append_flag(&mut out, facts.multicast);
    out
}

fn report_retry(facts: &SessionFacts) -> (report: Vec<u8>)
    ensures
        report@ == retry_report(*facts),
{
    proof {
        reveal(retry_report);
    }
    let mut out = text_bytes("attempts=");
    append_number(&mut out, facts.attempts);
    append(&mut out, ";connection=".as_bytes());
    append_number(&mut out, facts.connection);
    append(&mut out, ";changed=".as_bytes());
    append_flag(&mut out, facts.changed_connection);
    assert(out@ == retry_connection(*facts));
    let mut rest = text_bytes(";sessions=");
    append_number(&mut rest, facts.connection_sessions);
    append(&mut rest, ";multicast=".as_bytes());
    append_flag(&mut rest, facts.multicast);
    append(&mut rest, ";resumed=".as_bytes());
    append_flag(&mut rest, facts.resumed);
    assert(rest@ == retry_session(*facts));
    append(&mut out, rest.as_slice());
    out
}

/// A session that is accepted.
pub open spec fn accepted() -> SessionAnswerView {
    SessionAnswerView::plain(SessionAcceptView::Accept)
}

/// A session that is refused with a status.
pub open spec fn refused(status: &'static str) -> SessionAnswerView {
    SessionAnswerView::plain(SessionAcceptView::Reject(seq![text_field(":status", status)]))
}

/// A session that is accepted with this word on multicast.
pub open spec fn accepted_saying(multicast: &'static str) -> SessionAnswerView {
    SessionAnswerView::plain(
        SessionAcceptView::AcceptWithHeaders(seq![text_field("wt-multicast", multicast)]),
    )
}

/// A session that is accepted; multicast is granted where it was asked for.
pub open spec fn granted_as_asked(facts: SessionFacts) -> SessionAnswerView {
    if facts.multicast {
        accepted_saying("?1")
    } else {
        accepted()
    }
}

/// The streams that are numbered from zero on.
#[verifier::opaque]
pub open spec fn numbered_streams(stream_type: StreamType, count: nat) -> Seq<NewStreamView> {
    Seq::new(
        count,
        |i: int|
            NewStreamView {
                stream_type,
                data: Some("stream".spec_bytes() + digits(i as nat)),
            },
    )
}

/// A session on which numbered streams are opened.
pub open spec fn numbered_answer(stream_type: StreamType, count: nat) -> SessionAnswerView {
    SessionAnswerView { streams: numbered_streams(stream_type, count), ..accepted() }
}

/// A session that is refused until the client authenticates.
pub open spec fn challenge() -> SessionAnswerView {
    SessionAnswerView::plain(
        SessionAcceptView::Reject(
            seq![
                text_field(":status", "401"),
                text_field("www-authenticate", "Basic realm=\"mcquic-test\""),
                text_field("wt-multicast", "?1"),
            ],
        ),
    )
}

/// The path that a redirection leads to.
#[verifier::opaque]
pub open spec fn redirect_target(status: u16) -> Seq<u8> {
    "/mcquic_redirect_target_".spec_bytes() + digits(status as nat)
}

/// The path that is redirected.
pub open spec fn redirect_source(status: u16) -> Seq<u8> {
    "/mcquic_redirect_".spec_bytes() + digits(status as nat)
}

/// The answer to a path that names a status: only one that redirects is given.
pub open spec fn redirect_answer(status: u16) -> SessionAnswerView {
    if 300 <= status < 400 {
        SessionAnswerView::plain(
            SessionAcceptView::Reject(
                seq![
                    HeaderView { name: ":status"@, value: digits(status as nat) },
                    HeaderView { name: "location"@, value: redirect_target(status) },
                    text_field("wt-multicast", "?1"),
                ],
            ),
        )
    } else {
        refused("404")
    }
}

/// Whether a second attempt is granted multicast: it asks for it, and it comes on a connection of
/// its own that resumes none.
pub open spec fn retry_granted(facts: SessionFacts) -> bool {
    facts.multicast && facts.attempts == 2 && facts.changed_connection && !facts.resumed
        && facts.connection_sessions == 1
}

/// The answer to a session that is sent away at the first attempt.
pub open spec fn retry_answer(facts: SessionFacts) -> SessionAnswerView {
    if facts.attempts == 1 {
        refused("421")
    } else if retry_granted(facts) {
        accepted_saying("?1").say(retry_report(facts)).followed_by(
            FollowUp::Run(McquicWebTransportScenarioKind::Revocation),
        )
    } else {
        accepted().say(retry_report(facts)).say("retry-authorization-failed-unicast".spec_bytes())
    }
}

/// The answer to a session that is to run a scenario.
pub open spec fn multicast_answer(
    facts: SessionFacts,
    kind: McquicWebTransportScenarioKind,
) -> SessionAnswerView {
    if facts.multicast {
        accepted_saying("?1").followed_by(FollowUp::Run(kind))
    } else {
        accepted().open_stream(StreamType::UniDi, Some("permission-absent-unicast".spec_bytes()))
    }
}

/// The answer to a session with a response and a stream that carries a text.
pub open spec fn permission_answer(
    answer: SessionAnswerView,
    text: &'static str,
) -> SessionAnswerView {
    answer.open_stream(StreamType::UniDi, Some(text.spec_bytes()))
}

/// The answer to a session whose permission is given twice.
pub open spec fn duplicate_answer() -> SessionAnswerView {
    SessionAnswerView::plain(
        SessionAcceptView::AcceptWithHeaders(
            seq![text_field("wt-multicast", "?1"), text_field("wt-multicast", "?1")],
        ),
    ).say("duplicate-response-unicast".spec_bytes())
}

/// How many bytes the stream with a lot of data carries.
pub const LARGE_DATA_LEN: usize = 33_554_432;

/// The answer to a session.
#[verifier::opaque]
pub open spec fn session_answer(route: SessionRoute, facts: SessionFacts) -> SessionAnswerView {
    match route {
        SessionRoute::Redirect => SessionAnswerView::plain(
            SessionAcceptView::Reject(
                seq![text_field(":status", "302"), text_field("location", "/")],
            ),
        ),
        SessionRoute::Reject => refused("404"),
        SessionRoute::CloseAfter0Ms => accepted().followed_by(FollowUp::CloseNow),
        SessionRoute::CloseAfter100Ms => accepted().followed_by(FollowUp::CloseLater),
        SessionRoute::CreateUnidi => accepted().open_stream(StreamType::UniDi, None),
        SessionRoute::CreateUnidiAndHello => permission_answer(accepted(), "qwerty"),
        SessionRoute::CreateTwoUnidiAndHello => permission_answer(
            permission_answer(accepted(), "second"),
            "first",
        ),
        SessionRoute::CreateUnidiStreams(count) => numbered_answer(
            StreamType::UniDi,
            count.unwrap_or(0) as nat,
        ),
        SessionRoute::CreateBidiStreams(count) => numbered_answer(
            StreamType::BiDi,
            count.unwrap_or(0) as nat,
        ).forgetting(),
        SessionRoute::CreateBidi => accepted().open_stream(StreamType::BiDi, None),
        SessionRoute::CreateBidiAndHello => accepted().open_stream(
            StreamType::BiDi,
            Some("asdfg".spec_bytes()),
        ).forgetting(),
        SessionRoute::CreateBidiAndLargeData => accepted().open_stream(
            StreamType::BiDi,
            Some(Seq::new(LARGE_DATA_LEN as nat, |i: int| 1u8)),
        ).forgetting(),
        SessionRoute::AuthChallenge => challenge(),
        SessionRoute::AuthCount => accepted().say(auth_report(facts)),
        SessionRoute::NonSuccessTrue => SessionAnswerView::plain(
            SessionAcceptView::Reject(
                seq![text_field(":status", "404"), text_field("wt-multicast", "?1")],
            ),
        ),
        SessionRoute::ResponseDuplicate => duplicate_answer(),
        SessionRoute::ResponseParameter => accepted_saying("?1; ignored=token").say(
            "parameterized-response-unicast".spec_bytes(),
        ),
        SessionRoute::RedirectTarget(status) => accepted().say(
            "redirect-target-".spec_bytes() + digits(status as nat),
        ),
        SessionRoute::RedirectCount(_) => accepted().say(redirect_report(facts)),
        SessionRoute::RedirectFrom(status) => redirect_answer(status),
        SessionRoute::PermissionMissing => permission_answer(
            accepted(),
            "permission-missing-unicast",
        ),
        SessionRoute::PermissionFalse => permission_answer(
            accepted_saying("?0"),
            "permission-false-unicast",
        ),
        SessionRoute::PermissionMalformed => permission_answer(
            accepted_saying("not-a-boolean"),
            "permission-malformed-unicast",
        ),
        SessionRoute::UnsolicitedResponse => permission_answer(
            accepted_saying("?1"),
            "unsolicited-response-unicast",
        ),
        SessionRoute::PermissionUnsolicited => accepted_saying("?0").followed_by(
            FollowUp::SendControls,
        ),
        SessionRoute::RetryOnce => retry_answer(facts),
        SessionRoute::ConnectionIsolation => granted_as_asked(facts).say(
            connection_report(facts),
        ),
        SessionRoute::Multicast => multicast_answer(facts, McquicWebTransportScenarioKind::Full),
        SessionRoute::Revocation => multicast_answer(
            facts,
            McquicWebTransportScenarioKind::Revocation,
        ),
        SessionRoute::CreateBidiAndStopSending => accepted().followed_by(FollowUp::StopSending),
        SessionRoute::Success => accepted(),
        SessionRoute::Other => accepted(),
    }
}

/// Whether the path names the numbers that it has to name.
pub open spec fn is_servable(route: SessionRoute) -> bool {
    route != SessionRoute::CreateUnidiStreams(None) && route != SessionRoute::CreateBidiStreams(
        None,
    )
}

/// Whether a route can be served.
pub fn can_serve(route: SessionRoute) -> (can: bool)
    ensures
        can == is_servable(route),
{
    match route {
        SessionRoute::CreateUnidiStreams(count) => count.is_some(),
        SessionRoute::CreateBidiStreams(count) => count.is_some(),
        _ => true,
    }
}

fn accept() -> (answer: SessionAnswer)
    ensures
        answer@ == accepted(),
{
    SessionAnswer::plain(SessionAcceptAction::Accept)
}

fn one_field(name: &'static str, value: &'static str) -> (headers: Vec<Header>)
    ensures
        header_views(headers@) == seq![text_field(name, value)],
{
    let mut headers: Vec<Header> = Vec::new();
    push_text(&mut headers, name, value);
    assert(header_views(headers@) =~= seq![text_field(name, value)]);
    headers
}

fn two_fields(
    name: &'static str,
    value: &'static str,
    other: &'static str,
    other_value: &'static str,
) -> (headers: Vec<Header>)
    ensures
        header_views(headers@) == seq![text_field(name, value), text_field(other, other_value)],
{
    let mut headers = one_field(name, value);
    push_text(&mut headers, other, other_value);
    assert(header_views(headers@) =~= seq![
        text_field(name, value),
        text_field(other, other_value),
    ]);
    headers
}

fn refuse(status: &'static str) -> (answer: SessionAnswer)
    ensures
        answer@ == refused(status),
{
    SessionAnswer::plain(SessionAcceptAction::Reject(one_field(":status", status)))
}

fn accept_saying(multicast: &'static str) -> (answer: SessionAnswer)
    ensures
        answer@ == accepted_saying(multicast),
{
    SessionAnswer::plain(
        SessionAcceptAction::AcceptWithHeaders(one_field("wt-multicast", multicast)),
    )
}

fn answer_challenge() -> (answer: SessionAnswer)
    ensures
        answer@ == challenge(),
{
    let mut headers = two_fields(
        ":status",
        "401",
        "www-authenticate",
        "Basic realm=\"mcquic-test\"",
    );
    push_text(&mut headers, "wt-multicast", "?1");
    assert(header_views(headers@) =~= challenge().response->Reject_0);
    SessionAnswer::plain(SessionAcceptAction::Reject(headers))
}

fn numbered(stream_type: StreamType, count: usize) -> (answer: SessionAnswer)
    ensures
        answer@ == numbered_answer(stream_type, count as nat),
{
    proof {
        reveal(numbered_streams);
    }
    let mut answer = accept();
    let mut i: usize = 0;
    assert(answer@.streams =~= numbered_streams(stream_type, 0));
    while i < count
        invariant
            i <= count,
            answer@ == numbered_answer(stream_type, i as nat),
        decreases count - i,
    {
        proof {
            reveal(numbered_streams);
        }
        let mut data = text_bytes("stream");
        append_number(&mut data, i as u64);
        answer = answer.open_stream(stream_type, Some(data));
        i += 1;
        assert(answer@.streams =~= numbered_streams(stream_type, i as nat));
    }
    assert(answer@.streams =~= numbered_streams(stream_type, count as nat));
    answer
}

/// The path that a redirection leads to.
pub fn target_path(status: u16) -> (path: Vec<u8>)
    ensures
        path@ == redirect_target(status),
{
    proof {
        reveal(redirect_target);
    }
    let mut path = text_bytes("/mcquic_redirect_target_");
    append_number(&mut path, status as u64);
    path
}

/// The path that is redirected.
pub fn source_path(status: u16) -> (path: Vec<u8>)
    ensures
        path@ == redirect_source(status),
{
    let mut path = text_bytes("/mcquic_redirect_");
    append_number(&mut path, status as u64);
    path
}

fn answer_redirect(status: u16) -> (answer: SessionAnswer)
    ensures
        answer@ == redirect_answer(status),
{
    if status < 300 || status >= 400 {
        return refuse("404");
    }
    let mut headers: Vec<Header> = Vec::new();
    let text = decimal_text(status as u64);
    headers.push(Header::new(":status", text.as_str()));
    let target = target_path(status);
    headers.push(Header::with_bytes("location", target.as_slice()));
    push_text(&mut headers, "wt-multicast", "?1");
    assert(header_views(headers@) =~= redirect_answer(status).response->Reject_0);
    SessionAnswer::plain(SessionAcceptAction::Reject(headers))
}

fn answer_retry(facts: &SessionFacts) -> (answer: SessionAnswer)
    ensures
        answer@ == retry_answer(*facts),
{
    if facts.attempts == 1 {
        return refuse("421");
    }
    if facts.multicast && facts.attempts == 2 && facts.changed_connection && !facts.resumed
        && facts.connection_sessions == 1 {
        accept_saying("?1").say(report_retry(facts)).followed_by(
            FollowUp::Run(McquicWebTransportScenarioKind::Revocation),
        )
    } else {
        accept().say(report_retry(facts)).say(text_bytes("retry-authorization-failed-unicast"))
    }
}

fn answer_multicast(
    facts: &SessionFacts,
    kind: McquicWebTransportScenarioKind,
) -> (answer: SessionAnswer)
    ensures
        answer@ == multicast_answer(*facts, kind),
{
    if facts.multicast {
        accept_saying("?1").followed_by(FollowUp::Run(kind))
    } else {
        carrying(accept(), "permission-absent-unicast")
    }
}

fn answer_isolation(facts: &SessionFacts) -> (answer: SessionAnswer)
    ensures
        answer@ == granted_as_asked(*facts).say(connection_report(*facts)),
{
    if facts.multicast {
        accept_saying("?1").say(report_connection(facts))
    } else {
        accept().say(report_connection(facts))
    }
}

fn carrying(answer: SessionAnswer, text: &'static str) -> (carrying: SessionAnswer)
    ensures
        carrying@ == permission_answer(answer@, text),
{
    answer.open_stream(StreamType::UniDi, Some(text_bytes(text)))
}

fn answer_duplicate() -> (answer: SessionAnswer)
    ensures
        answer@ == duplicate_answer(),
{
    let headers = two_fields("wt-multicast", "?1", "wt-multicast", "?1");
    SessionAnswer::plain(SessionAcceptAction::AcceptWithHeaders(headers)).say(
        text_bytes("duplicate-response-unicast"),
    )
}

fn answer_target(status: u16) -> (answer: SessionAnswer)
    ensures
        answer@ == accepted().say("redirect-target-".spec_bytes() + digits(status as nat)),
{
    let mut message = text_bytes("redirect-target-");
    append_number(&mut message, status as u64);
    accept().say(message)
}

fn bidi_with(data: Vec<u8>) -> (answer: SessionAnswer)
    ensures
        answer@ == accepted().open_stream(StreamType::BiDi, Some(data@)).forgetting(),
{
    accept().open_stream(StreamType::BiDi, Some(data)).forgetting()
}

/// The answer to a session.
pub fn answer_session(route: SessionRoute, facts: &SessionFacts) -> (answer: SessionAnswer)
    requires
        is_servable(route),
    ensures
        answer@ == session_answer(route, *facts),
{
    proof {
        reveal(session_answer);
    }
    match route {
        SessionRoute::Redirect => SessionAnswer::plain(
            SessionAcceptAction::Reject(two_fields(":status", "302", "location", "/")),
        ),
        SessionRoute::Reject => refuse("404"),
        SessionRoute::CloseAfter0Ms => accept().followed_by(FollowUp::CloseNow),
        SessionRoute::CloseAfter100Ms => accept().followed_by(FollowUp::CloseLater),
        SessionRoute::CreateUnidi => accept().open_stream(StreamType::UniDi, None),
        SessionRoute::CreateUnidiAndHello => carrying(accept(), "qwerty"),
        SessionRoute::CreateTwoUnidiAndHello => carrying(carrying(accept(), "second"), "first"),
        SessionRoute::CreateUnidiStreams(count) => numbered(
            StreamType::UniDi,
            count.unwrap_or(0),
        ),
        SessionRoute::CreateBidiStreams(count) => numbered(
            StreamType::BiDi,
            count.unwrap_or(0),
        ).forgetting(),
        SessionRoute::CreateBidi => accept().open_stream(StreamType::BiDi, None),
        SessionRoute::CreateBidiAndHello => bidi_with(text_bytes("asdfg")),
        SessionRoute::CreateBidiAndLargeData => bidi_with(repeated(1, LARGE_DATA_LEN)),
        SessionRoute::AuthChallenge => answer_challenge(),
        SessionRoute::AuthCount => accept().say(report_auth(facts)),
        SessionRoute::NonSuccessTrue => SessionAnswer::plain(
            SessionAcceptAction::Reject(two_fields(":status", "404", "wt-multicast", "?1")),
        ),
        SessionRoute::ResponseDuplicate => answer_duplicate(),
        SessionRoute::ResponseParameter => accept_saying("?1; ignored=token").say(
            text_bytes("parameterized-response-unicast"),
        ),
        SessionRoute::RedirectTarget(status) => answer_target(status),
        SessionRoute::RedirectCount(_) => accept().say(report_redirect(facts)),
        SessionRoute::RedirectFrom(status) => answer_redirect(status),
        SessionRoute::PermissionMissing => carrying(accept(), "permission-missing-unicast"),
        SessionRoute::PermissionFalse => carrying(
            accept_saying("?0"),
            "permission-false-unicast",
        ),
        SessionRoute::PermissionMalformed => carrying(
            accept_saying("not-a-boolean"),
            "permission-malformed-unicast",
        ),
        SessionRoute::UnsolicitedResponse => carrying(
            accept_saying("?1"),
            "unsolicited-response-unicast",
        ),
        SessionRoute::PermissionUnsolicited => accept_saying("?0").followed_by(
            FollowUp::SendControls,
        ),
        SessionRoute::RetryOnce => answer_retry(facts),
        SessionRoute::ConnectionIsolation => answer_isolation(facts),
        SessionRoute::Multicast => answer_multicast(facts, McquicWebTransportScenarioKind::Full),
        SessionRoute::Revocation => answer_multicast(
            facts,
            McquicWebTransportScenarioKind::Revocation,
        ),
        SessionRoute::CreateBidiAndStopSending => accept().followed_by(FollowUp::StopSending),
        SessionRoute::Success => accept(),
        SessionRoute::Other => accept(),
    }
}

/// The answer to a session without a path.
pub fn answer_without_path() -> (answer: SessionAnswer)
    ensures
        answer@ == refused("404"),
{
    refuse("404")
}

/// Whether an answer grants multicast.
#[verifier::opaque]
pub open spec fn grants(answer: SessionAnswerView) -> bool {
    answer.response matches SessionAcceptView::AcceptWithHeaders(headers) && headers == seq![
        text_field("wt-multicast", "?1"),
    ]
}

proof fn lemma_words()
    ensures
        "?0"@ != "?1"@,
        "not-a-boolean"@ != "?1"@,
        "?1; ignored=token"@ != "?1"@,
{
    reveal_strlit("?0");
    reveal_strlit("?1");
    reveal_strlit("not-a-boolean");
    reveal_strlit("?1; ignored=token");
    assert("?0"@[1] != "?1"@[1]);
    assert("not-a-boolean"@.len() != "?1"@.len());
    assert("?1; ignored=token"@.len() != "?1"@.len());
}

proof fn lemma_other_word(answer: SessionAnswerView, multicast: &'static str)
    requires
        multicast@ != "?1"@,
        answer.response == accepted_saying(multicast).response,
    ensures
        !grants(answer),
{
    reveal(grants);
    encode_utf8_decode_utf8(multicast@);
    encode_utf8_decode_utf8("?1"@);
    let headers = answer.response->AcceptWithHeaders_0;
    assert(headers[0].value == multicast.spec_bytes());
    assert(seq![text_field("wt-multicast", "?1")][0].value == "?1".spec_bytes());
}

proof fn lemma_granted(answer: SessionAnswerView)
    requires
        answer.response == accepted_saying("?1").response,
    ensures
        grants(answer),
{
    reveal(grants);
}

proof fn lemma_silent(answer: SessionAnswerView)
    requires
        !(answer.response is AcceptWithHeaders),
    ensures
        !grants(answer),
{
    reveal(grants);
}

proof fn lemma_duplicate()
    ensures
        !grants(duplicate_answer()),
{
    reveal(grants);
    assert(duplicate_answer().response->AcceptWithHeaders_0.len() == 2);
}

/// But for the path that is there to grant what nobody asked for, multicast is granted only to a
/// session that asks for it, and scenarios run only on sessions that were granted it.
pub proof fn law_granted_only_where_asked(route: SessionRoute, facts: SessionFacts)
    ensures
        grants(session_answer(route, facts)) && route != SessionRoute::UnsolicitedResponse
            ==> facts.multicast,
        session_answer(route, facts).follow_up is Run ==> grants(session_answer(route, facts)),
{
    reveal(session_answer);
    let answer = session_answer(route, facts);
    lemma_words();
    match route {
        SessionRoute::PermissionFalse => {
            lemma_other_word(answer, "?0");
        },
        SessionRoute::PermissionMalformed => {
            lemma_other_word(answer, "not-a-boolean");
        },
        SessionRoute::PermissionUnsolicited => {
            lemma_other_word(answer, "?0");
        },
        SessionRoute::ResponseParameter => {
            lemma_other_word(answer, "?1; ignored=token");
        },
        SessionRoute::ResponseDuplicate => {
            lemma_duplicate();
        },
        SessionRoute::UnsolicitedResponse => {},
        SessionRoute::RetryOnce | SessionRoute::ConnectionIsolation | SessionRoute::Multicast
        | SessionRoute::Revocation => {
            if answer.response is AcceptWithHeaders {
                lemma_granted(answer);
            } else {
                lemma_silent(answer);
            }
        },
        _ => {
            lemma_silent(answer);
        },
    }
}

proof fn lemma_other_text(path: Seq<u8>, text: &'static str, i: int)
    requires
        is_ascii(text),
        0 <= i < text@.len(),
        i < path.len(),
        path[i] != text@[i] as u8,
    ensures
        path != text.spec_bytes(),
        !has_prefix(path, text.spec_bytes()),
{
    is_ascii_spec_bytes(text);
    assert(text.spec_bytes()[i] == text@[i] as u8);
}

proof fn lemma_no_stream_path(path: Seq<u8>)
    requires
        path.len() > 1,
        path[1] == 'm' as u8,
    ensures
        stream_route(path) is None,
{
    assert(path != "/success".spec_bytes()) by {
        reveal_strlit("/success");
        lemma_other_text(path, "/success", 1);
    }
    assert(path != "/redirect".spec_bytes()) by {
        reveal_strlit("/redirect");
        lemma_other_text(path, "/redirect", 1);
    }
    assert(path != "/reject".spec_bytes()) by {
        reveal_strlit("/reject");
        lemma_other_text(path, "/reject", 1);
    }
    assert(path != "/closeafter0ms".spec_bytes()) by {
        reveal_strlit("/closeafter0ms");
        lemma_other_text(path, "/closeafter0ms", 1);
    }
    assert(path != "/closeafter100ms".spec_bytes()) by {
        reveal_strlit("/closeafter100ms");
        lemma_other_text(path, "/closeafter100ms", 1);
    }
    assert(path != "/create_unidi_stream".spec_bytes()) by {
        reveal_strlit("/create_unidi_stream");
        lemma_other_text(path, "/create_unidi_stream", 1);
    }
    assert(path != "/create_unidi_stream_and_hello".spec_bytes()) by {
        reveal_strlit("/create_unidi_stream_and_hello");
        lemma_other_text(path, "/create_unidi_stream_and_hello", 1);
    }
    assert(path != "/create_two_unidi_streams_and_hello".spec_bytes()) by {
        reveal_strlit("/create_two_unidi_streams_and_hello");
        lemma_other_text(path, "/create_two_unidi_streams_and_hello", 1);
    }
    assert(!has_prefix(path, "/create_unidi_streams/".spec_bytes())) by {
        reveal_strlit("/create_unidi_streams/");
        lemma_other_text(path, "/create_unidi_streams/", 1);
    }
    assert(!has_prefix(path, "/create_bidi_streams/".spec_bytes())) by {
        reveal_strlit("/create_bidi_streams/");
        lemma_other_text(path, "/create_bidi_streams/", 1);
    }
    assert(path != "/create_bidi_stream".spec_bytes()) by {
        reveal_strlit("/create_bidi_stream");
        lemma_other_text(path, "/create_bidi_stream", 1);
    }
    assert(path != "/create_bidi_stream_and_hello".spec_bytes()) by {
        reveal_strlit("/create_bidi_stream_and_hello");
        lemma_other_text(path, "/create_bidi_stream_and_hello", 1);
    }
    assert(path != "/create_bidi_stream_and_large_data".spec_bytes()) by {
        reveal_strlit("/create_bidi_stream_and_large_data");
        lemma_other_text(path, "/create_bidi_stream_and_large_data", 1);
    }
    assert(path != "/create_bidi_stream_and_stop_sending".spec_bytes()) by {
        reveal_strlit("/create_bidi_stream_and_stop_sending");
        lemma_other_text(path, "/create_bidi_stream_and_stop_sending", 1);
    }
    reveal(stream_route);
}

/// The paths that name a status are told from the other paths by the letters after
/// `/mcquic_`.
proof fn lemma_status_path_alone(path: Seq<u8>)
    requires
        has_prefix(path, "/mcquic_redirect_".spec_bytes()),
    ensures
        path.len() > 1,
        path[1] == 'm' as u8,
        path != "/mcquic_auth_challenge".spec_bytes(),
        path != "/mcquic_auth_count".spec_bytes(),
        path != "/mcquic_non_success_true".spec_bytes(),
        path != "/mcquic_response_duplicate".spec_bytes(),
        path != "/mcquic_response_parameter".spec_bytes(),
{
    reveal_strlit("/mcquic_redirect_");
    is_ascii_spec_bytes("/mcquic_redirect_");
    let prefix = "/mcquic_redirect_".spec_bytes();
    assert(path[1] == prefix[1] && path[8] == prefix[8] && path[10] == prefix[10]);
    reveal_strlit("/mcquic_auth_challenge");
    lemma_other_text(path, "/mcquic_auth_challenge", 8);
    reveal_strlit("/mcquic_auth_count");
    lemma_other_text(path, "/mcquic_auth_count", 8);
    reveal_strlit("/mcquic_non_success_true");
    lemma_other_text(path, "/mcquic_non_success_true", 8);
    reveal_strlit("/mcquic_response_duplicate");
    lemma_other_text(path, "/mcquic_response_duplicate", 10);
    reveal_strlit("/mcquic_response_parameter");
    lemma_other_text(path, "/mcquic_response_parameter", 10);
}

proof fn lemma_named_status(prefix: Seq<u8>, status: u16)
    ensures
        status_path(prefix + digits(status as nat), prefix) == Some(status),
        has_prefix(prefix + digits(status as nat), prefix),
{
    let path = prefix + digits(status as nat);
    law_decimal_round_trip(status as nat, u16::MAX as nat);
    assert(path.take(prefix.len() as int) =~= prefix);
    assert(path.skip(prefix.len() as int) =~= digits(status as nat));
}

proof fn lemma_redirect_source(status: u16)
    ensures
        session_route(redirect_source(status)) == SessionRoute::RedirectFrom(status),
{
    reveal(session_route);
    let path = redirect_source(status);
    let prefix = "/mcquic_redirect_".spec_bytes();
    lemma_named_status(prefix, status);
    lemma_status_path_alone(path);
    lemma_no_stream_path(path);
    lemma_decimal_bytes(status as nat);
    reveal_strlit("/mcquic_redirect_");
    is_ascii_spec_bytes("/mcquic_redirect_");
    assert(path[17] == digits(status as nat)[0]);
    assert(is_digit(digits(status as nat)[0]));
    reveal_strlit("/mcquic_redirect_target_");
    lemma_other_text(path, "/mcquic_redirect_target_", 17);
    reveal_strlit("/mcquic_redirect_count_");
    lemma_other_text(path, "/mcquic_redirect_count_", 17);
    reveal(answer_route);
}

proof fn lemma_redirect_target(status: u16)
    ensures
        session_route(redirect_target(status)) == SessionRoute::RedirectTarget(status),
{
    reveal(session_route);
    reveal(redirect_target);
    let path = redirect_target(status);
    let prefix = "/mcquic_redirect_target_".spec_bytes();
    lemma_named_status(prefix, status);
    assert(has_prefix(path, "/mcquic_redirect_".spec_bytes())) by {
        reveal_strlit("/mcquic_redirect_");
        is_ascii_spec_bytes("/mcquic_redirect_");
        reveal_strlit("/mcquic_redirect_target_");
        is_ascii_spec_bytes("/mcquic_redirect_target_");
        assert(path.take(17) =~= "/mcquic_redirect_".spec_bytes());
    }
    lemma_status_path_alone(path);
    lemma_no_stream_path(path);
    reveal(answer_route);
}

/// The path that a redirection starts from is served by redirecting it, to a path that is served
/// by saying that the redirection was followed.
pub proof fn law_redirection_leads_to_its_target(status: u16, facts: SessionFacts)
    requires
        300 <= status < 400,
    ensures
        session_route(redirect_source(status)) == SessionRoute::RedirectFrom(status),
        session_answer(SessionRoute::RedirectFrom(status), facts).response
            matches SessionAcceptView::Reject(headers) && headers.contains(
            HeaderView { name: "location"@, value: redirect_target(status) },
        ),
        session_route(redirect_target(status)) == SessionRoute::RedirectTarget(status),
        session_answer(SessionRoute::RedirectTarget(status), facts) == accepted().say(
            "redirect-target-".spec_bytes() + digits(status as nat),
        ),
{
    reveal(session_answer);
    lemma_redirect_source(status);
    lemma_redirect_target(status);
    let headers = redirect_answer(status).response->Reject_0;
    assert(headers[1] == (HeaderView { name: "location"@, value: redirect_target(status) }));
}

proof fn lemma_session_texts_streams()
    ensures
        "/success".spec_bytes().len() == 8,
        "/redirect".spec_bytes().len() == 9,
        "/reject".spec_bytes().len() == 7,
        "/closeafter0ms".spec_bytes().len() == 14,
        "/closeafter100ms".spec_bytes().len() == 16,
        "/create_unidi_stream".spec_bytes().len() == 20,
        "/create_unidi_stream".spec_bytes()[1] == 0x63,
        "/create_unidi_stream_and_hello".spec_bytes().len() == 30,
        "/create_unidi_stream_and_hello".spec_bytes()[1] == 0x63,
        "/create_unidi_stream_and_hello".spec_bytes()[8] == 0x75,
        "/create_unidi_stream_and_hello".spec_bytes()[20] == 0x5f,
        "/create_two_unidi_streams_and_hello".spec_bytes().len() == 35,
        "/create_two_unidi_streams_and_hello".spec_bytes()[1] == 0x63,
        "/create_two_unidi_streams_and_hello".spec_bytes()[8] == 0x74,
        "/create_bidi_stream".spec_bytes().len() == 19,
        "/create_bidi_stream".spec_bytes()[1] == 0x63,
{
    reveal_strlit("/success");
    is_ascii_spec_bytes("/success");
    reveal_strlit("/redirect");
    is_ascii_spec_bytes("/redirect");
    reveal_strlit("/reject");
    is_ascii_spec_bytes("/reject");
    reveal_strlit("/closeafter0ms");
    is_ascii_spec_bytes("/closeafter0ms");
    reveal_strlit("/closeafter100ms");
    is_ascii_spec_bytes("/closeafter100ms");
    reveal_strlit("/create_unidi_stream");
    is_ascii_spec_bytes("/create_unidi_stream");
    reveal_strlit("/create_unidi_stream_and_hello");
    is_ascii_spec_bytes("/create_unidi_stream_and_hello");
    reveal_strlit("/create_two_unidi_streams_and_hello");
    is_ascii_spec_bytes("/create_two_unidi_streams_and_hello");
    reveal_strlit("/create_bidi_stream");
    is_ascii_spec_bytes("/create_bidi_stream");
}

proof fn lemma_session_texts_answers()
    ensures
        "/create_bidi_stream_and_hello".spec_bytes().len() == 29,
        "/create_bidi_stream_and_hello".spec_bytes()[1] == 0x63,
        "/create_bidi_stream_and_hello".spec_bytes()[8] == 0x62,
        "/create_bidi_stream_and_hello".spec_bytes()[19] == 0x5f,
        "/create_bidi_stream_and_large_data".spec_bytes().len() == 34,
        "/create_bidi_stream_and_large_data".spec_bytes()[1] == 0x63,
        "/create_bidi_stream_and_large_data".spec_bytes()[8] == 0x62,
        "/create_bidi_stream_and_large_data".spec_bytes()[19] == 0x5f,
        "/create_bidi_stream_and_stop_sending".spec_bytes().len() == 36,
        "/create_bidi_stream_and_stop_sending".spec_bytes()[1] == 0x63,
        "/create_bidi_stream_and_stop_sending".spec_bytes()[8] == 0x62,
        "/create_bidi_stream_and_stop_sending".spec_bytes()[19] == 0x5f,
        "/mcquic_auth_challenge".spec_bytes().len() == 22,
        "/mcquic_auth_challenge".spec_bytes()[1] == 0x6d,
        "/mcquic_auth_challenge".spec_bytes()[8] == 0x61,
        "/mcquic_auth_count".spec_bytes().len() == 18,
        "/mcquic_auth_count".spec_bytes()[8] == 0x61,
        "/mcquic_non_success_true".spec_bytes().len() == 24,
        "/mcquic_non_success_true".spec_bytes()[1] == 0x6d,
        "/mcquic_non_success_true".spec_bytes()[8] == 0x6e,
        "/mcquic_response_duplicate".spec_bytes().len() == 26,
        "/mcquic_response_duplicate".spec_bytes()[1] == 0x6d,
        "/mcquic_response_duplicate".spec_bytes()[8] == 0x72,
        "/mcquic_response_duplicate".spec_bytes()[10] == 0x73,
        "/mcquic_response_duplicate".spec_bytes()[17] == 0x64,
        "/mcquic_response_parameter".spec_bytes().len() == 26,
        "/mcquic_response_parameter".spec_bytes()[1] == 0x6d,
        "/mcquic_response_parameter".spec_bytes()[8] == 0x72,
        "/mcquic_response_parameter".spec_bytes()[10] == 0x73,
        "/mcquic_response_parameter".spec_bytes()[17] == 0x70,
        "/mcquic_permission_missing".spec_bytes().len() == 26,
        "/mcquic_permission_missing".spec_bytes()[1] == 0x6d,
        "/mcquic_permission_missing".spec_bytes()[8] == 0x70,
{
    reveal_strlit("/create_bidi_stream_and_hello");
    is_ascii_spec_bytes("/create_bidi_stream_and_hello");
    reveal_strlit("/create_bidi_stream_and_large_data");
    is_ascii_spec_bytes("/create_bidi_stream_and_large_data");
    reveal_strlit("/create_bidi_stream_and_stop_sending");
    is_ascii_spec_bytes("/create_bidi_stream_and_stop_sending");
    reveal_strlit("/mcquic_auth_challenge");
    is_ascii_spec_bytes("/mcquic_auth_challenge");
    reveal_strlit("/mcquic_auth_count");
    is_ascii_spec_bytes("/mcquic_auth_count");
    reveal_strlit("/mcquic_non_success_true");
    is_ascii_spec_bytes("/mcquic_non_success_true");
    reveal_strlit("/mcquic_response_duplicate");
    is_ascii_spec_bytes("/mcquic_response_duplicate");
    reveal_strlit("/mcquic_response_parameter");
    is_ascii_spec_bytes("/mcquic_response_parameter");
    reveal_strlit("/mcquic_permission_missing");
    is_ascii_spec_bytes("/mcquic_permission_missing");
}

proof fn lemma_session_texts_permissions()
    ensures
        "/mcquic_permission_false".spec_bytes().len() == 24,
        "/mcquic_permission_false".spec_bytes()[1] == 0x6d,
        "/mcquic_permission_false".spec_bytes()[8] == 0x70,
        "/mcquic_permission_malformed".spec_bytes().len() == 28,
        "/mcquic_permission_malformed".spec_bytes()[1] == 0x6d,
        "/mcquic_permission_malformed".spec_bytes()[8] == 0x70,
        "/mcquic_unsolicited_response".spec_bytes().len() == 28,
        "/mcquic_unsolicited_response".spec_bytes()[1] == 0x6d,
        "/mcquic_unsolicited_response".spec_bytes()[8] == 0x75,
        "/mcquic_permission_unsolicited".spec_bytes().len() == 30,
        "/mcquic_permission_unsolicited".spec_bytes()[1] == 0x6d,
        "/mcquic_permission_unsolicited".spec_bytes()[8] == 0x70,
        "/mcquic_permission_retry_once".spec_bytes().len() == 29,
        "/mcquic_permission_retry_once".spec_bytes()[1] == 0x6d,
        "/mcquic_permission_retry_once".spec_bytes()[8] == 0x70,
        "/mcquic_permission_retry_once".spec_bytes()[19] == 0x72,
        "/mcquic_permission_retry_once".spec_bytes()[21] == 0x74,
        "/mcquic_permission_connection".spec_bytes().len() == 29,
        "/mcquic_permission_connection".spec_bytes()[1] == 0x6d,
        "/mcquic_permission_connection".spec_bytes()[8] == 0x70,
        "/mcquic_permission_connection".spec_bytes()[19] == 0x63,
        "/mcquic_webtransport_stream".spec_bytes().len() == 27,
        "/mcquic_webtransport_stream".spec_bytes()[1] == 0x6d,
        "/mcquic_webtransport_stream".spec_bytes()[8] == 0x77,
        "/mcquic_permission_revocation".spec_bytes().len() == 29,
        "/mcquic_permission_revocation".spec_bytes()[1] == 0x6d,
        "/mcquic_permission_revocation".spec_bytes()[8] == 0x70,
        "/mcquic_permission_revocation".spec_bytes()[19] == 0x72,
        "/mcquic_permission_revocation".spec_bytes()[21] == 0x76,
{
    reveal_strlit("/mcquic_permission_false");
    is_ascii_spec_bytes("/mcquic_permission_false");
    reveal_strlit("/mcquic_permission_malformed");
    is_ascii_spec_bytes("/mcquic_permission_malformed");
    reveal_strlit("/mcquic_unsolicited_response");
    is_ascii_spec_bytes("/mcquic_unsolicited_response");
    reveal_strlit("/mcquic_permission_unsolicited");
    is_ascii_spec_bytes("/mcquic_permission_unsolicited");
    reveal_strlit("/mcquic_permission_retry_once");
    is_ascii_spec_bytes("/mcquic_permission_retry_once");
    reveal_strlit("/mcquic_permission_connection");
    is_ascii_spec_bytes("/mcquic_permission_connection");
    reveal_strlit("/mcquic_webtransport_stream");
    is_ascii_spec_bytes("/mcquic_webtransport_stream");
    reveal_strlit("/mcquic_permission_revocation");
    is_ascii_spec_bytes("/mcquic_permission_revocation");
}

proof fn lemma_session_texts_prefixes()
    ensures
        "/create_unidi_streams/".spec_bytes().len() == 22,
        "/create_unidi_streams/".spec_bytes()[1] == 0x63,
        "/create_unidi_streams/".spec_bytes()[8] == 0x75,
        "/create_unidi_streams/".spec_bytes()[20] == 0x73,
        "/create_bidi_streams/".spec_bytes().len() == 21,
        "/create_bidi_streams/".spec_bytes()[1] == 0x63,
        "/create_bidi_streams/".spec_bytes()[8] == 0x62,
        "/create_bidi_streams/".spec_bytes()[19] == 0x73,
        "/mcquic_redirect_target_".spec_bytes().len() == 24,
        "/mcquic_redirect_target_".spec_bytes()[1] == 0x6d,
        "/mcquic_redirect_target_".spec_bytes()[8] == 0x72,
        "/mcquic_redirect_target_".spec_bytes()[10] == 0x64,
        "/mcquic_redirect_count_".spec_bytes().len() == 23,
        "/mcquic_redirect_count_".spec_bytes()[1] == 0x6d,
        "/mcquic_redirect_count_".spec_bytes()[8] == 0x72,
        "/mcquic_redirect_count_".spec_bytes()[10] == 0x64,
        "/mcquic_redirect_".spec_bytes().len() == 17,
        "/mcquic_redirect_".spec_bytes()[1] == 0x6d,
        "/mcquic_redirect_".spec_bytes()[8] == 0x72,
        "/mcquic_redirect_".spec_bytes()[10] == 0x64,
{
    reveal_strlit("/create_unidi_streams/");
    is_ascii_spec_bytes("/create_unidi_streams/");
    reveal_strlit("/create_bidi_streams/");
    is_ascii_spec_bytes("/create_bidi_streams/");
    reveal_strlit("/mcquic_redirect_target_");
    is_ascii_spec_bytes("/mcquic_redirect_target_");
    reveal_strlit("/mcquic_redirect_count_");
    is_ascii_spec_bytes("/mcquic_redirect_count_");
    reveal_strlit("/mcquic_redirect_");
    is_ascii_spec_bytes("/mcquic_redirect_");
}

/// The bytes at a place of a path with a prefix are those of the prefix.
proof fn lemma_prefix_bytes(path: Seq<u8>, prefix: Seq<u8>)
    requires
        has_prefix(path, prefix),
    ensures
        path.len() >= prefix.len(),
        forall|i: int| 0 <= i < prefix.len() ==> #[trigger] path[i] == prefix[i],
{
    assert forall|i: int| 0 <= i < prefix.len() implies #[trigger] path[i] == prefix[i] by {
        assert(path.take(prefix.len() as int)[i] == path[i]);
    }
}

proof fn lemma_no_prefix(path: Seq<u8>)
    requires
        path == "/success".spec_bytes()
            || path == "/redirect".spec_bytes()
            || path == "/reject".spec_bytes()
            || path == "/closeafter0ms".spec_bytes()
            || path == "/closeafter100ms".spec_bytes()
            || path == "/create_unidi_stream".spec_bytes()
            || path == "/create_unidi_stream_and_hello".spec_bytes()
            || path == "/create_two_unidi_streams_and_hello".spec_bytes()
            || path == "/create_bidi_stream".spec_bytes()
            || path == "/create_bidi_stream_and_hello".spec_bytes()
            || path == "/create_bidi_stream_and_large_data".spec_bytes()
            || path == "/create_bidi_stream_and_stop_sending".spec_bytes()
            || path == "/mcquic_auth_challenge".spec_bytes()
            || path == "/mcquic_auth_count".spec_bytes()
            || path == "/mcquic_non_success_true".spec_bytes()
            || path == "/mcquic_response_duplicate".spec_bytes()
            || path == "/mcquic_response_parameter".spec_bytes()
            || path == "/mcquic_permission_missing".spec_bytes()
            || path == "/mcquic_permission_false".spec_bytes()
            || path == "/mcquic_permission_malformed".spec_bytes()
            || path == "/mcquic_unsolicited_response".spec_bytes()
            || path == "/mcquic_permission_unsolicited".spec_bytes()
            || path == "/mcquic_permission_retry_once".spec_bytes()
            || path == "/mcquic_permission_connection".spec_bytes()
            || path == "/mcquic_webtransport_stream".spec_bytes()
            || path == "/mcquic_permission_revocation".spec_bytes(),
    ensures
        !has_prefix(path, "/create_unidi_streams/".spec_bytes()),
        !has_prefix(path, "/create_bidi_streams/".spec_bytes()),
        !has_prefix(path, "/mcquic_redirect_target_".spec_bytes()),
        !has_prefix(path, "/mcquic_redirect_count_".spec_bytes()),
        !has_prefix(path, "/mcquic_redirect_".spec_bytes()),
{
    lemma_session_texts_streams();
    lemma_session_texts_answers();
    lemma_session_texts_permissions();
    lemma_session_texts_prefixes();
    if has_prefix(path, "/create_unidi_streams/".spec_bytes()) {
        lemma_prefix_bytes(path, "/create_unidi_streams/".spec_bytes());
    }
    if has_prefix(path, "/create_bidi_streams/".spec_bytes()) {
        lemma_prefix_bytes(path, "/create_bidi_streams/".spec_bytes());
    }
    if has_prefix(path, "/mcquic_redirect_target_".spec_bytes()) {
        lemma_prefix_bytes(path, "/mcquic_redirect_target_".spec_bytes());
    }
    if has_prefix(path, "/mcquic_redirect_count_".spec_bytes()) {
        lemma_prefix_bytes(path, "/mcquic_redirect_count_".spec_bytes());
    }
    if has_prefix(path, "/mcquic_redirect_".spec_bytes()) {
        lemma_prefix_bytes(path, "/mcquic_redirect_".spec_bytes());
    }
}

/// Each of the paths of sessions asks for its own answer, and no other path does.
pub proof fn law_session_routes(path: &[u8], route: SessionRoute)
    requires
        call_ensures(find_session_route, (path,), route),
    ensures
        route is Success <==> path@ == "/success".spec_bytes(),
        route is Redirect <==> path@ == "/redirect".spec_bytes(),
        route is Reject <==> path@ == "/reject".spec_bytes(),
        route is CloseAfter0Ms <==> path@ == "/closeafter0ms".spec_bytes(),
        route is CloseAfter100Ms <==> path@ == "/closeafter100ms".spec_bytes(),
        route is CreateUnidi <==> path@ == "/create_unidi_stream".spec_bytes(),
        route is CreateUnidiAndHello <==> path@ == "/create_unidi_stream_and_hello".spec_bytes(),
        route is CreateTwoUnidiAndHello <==> path@
            == "/create_two_unidi_streams_and_hello".spec_bytes(),
        route is CreateBidi <==> path@ == "/create_bidi_stream".spec_bytes(),
        route is CreateBidiAndHello <==> path@ == "/create_bidi_stream_and_hello".spec_bytes(),
        route is CreateBidiAndLargeData <==> path@
            == "/create_bidi_stream_and_large_data".spec_bytes(),
        route is CreateBidiAndStopSending <==> path@
            == "/create_bidi_stream_and_stop_sending".spec_bytes(),
        route is AuthChallenge <==> path@ == "/mcquic_auth_challenge".spec_bytes(),
        route is AuthCount <==> path@ == "/mcquic_auth_count".spec_bytes(),
        route is NonSuccessTrue <==> path@ == "/mcquic_non_success_true".spec_bytes(),
        route is ResponseDuplicate <==> path@ == "/mcquic_response_duplicate".spec_bytes(),
        route is ResponseParameter <==> path@ == "/mcquic_response_parameter".spec_bytes(),
        route is PermissionMissing <==> path@ == "/mcquic_permission_missing".spec_bytes(),
        route is PermissionFalse <==> path@ == "/mcquic_permission_false".spec_bytes(),
        route is PermissionMalformed <==> path@ == "/mcquic_permission_malformed".spec_bytes(),
        route is UnsolicitedResponse <==> path@ == "/mcquic_unsolicited_response".spec_bytes(),
        route is PermissionUnsolicited <==> path@ == "/mcquic_permission_unsolicited".spec_bytes(),
        route is RetryOnce <==> path@ == "/mcquic_permission_retry_once".spec_bytes(),
        route is ConnectionIsolation <==> path@ == "/mcquic_permission_connection".spec_bytes(),
        route is Multicast <==> path@ == "/mcquic_webtransport_stream".spec_bytes(),
        route is Revocation <==> path@ == "/mcquic_permission_revocation".spec_bytes(),
{
    reveal(session_route);
    reveal(stream_route);
    reveal(answer_route);
    reveal(permission_route);
    lemma_session_texts_streams();
    lemma_session_texts_answers();
    lemma_session_texts_permissions();
    if path@ == "/success".spec_bytes()
        || path@ == "/redirect".spec_bytes()
        || path@ == "/reject".spec_bytes()
        || path@ == "/closeafter0ms".spec_bytes()
        || path@ == "/closeafter100ms".spec_bytes()
        || path@ == "/create_unidi_stream".spec_bytes()
        || path@ == "/create_unidi_stream_and_hello".spec_bytes()
        || path@ == "/create_two_unidi_streams_and_hello".spec_bytes()
        || path@ == "/create_bidi_stream".spec_bytes()
        || path@ == "/create_bidi_stream_and_hello".spec_bytes()
        || path@ == "/create_bidi_stream_and_large_data".spec_bytes()
        || path@ == "/create_bidi_stream_and_stop_sending".spec_bytes()
        || path@ == "/mcquic_auth_challenge".spec_bytes()
        || path@ == "/mcquic_auth_count".spec_bytes()
        || path@ == "/mcquic_non_success_true".spec_bytes()
        || path@ == "/mcquic_response_duplicate".spec_bytes()
        || path@ == "/mcquic_response_parameter".spec_bytes()
        || path@ == "/mcquic_permission_missing".spec_bytes()
        || path@ == "/mcquic_permission_false".spec_bytes()
        || path@ == "/mcquic_permission_malformed".spec_bytes()
        || path@ == "/mcquic_unsolicited_response".spec_bytes()
        || path@ == "/mcquic_permission_unsolicited".spec_bytes()
        || path@ == "/mcquic_permission_retry_once".spec_bytes()
        || path@ == "/mcquic_permission_connection".spec_bytes()
        || path@ == "/mcquic_webtransport_stream".spec_bytes()
        || path@ == "/mcquic_permission_revocation".spec_bytes() {
        lemma_no_prefix(path@);
    }
}

/// The paths that end in a number ask for as many streams, of the kind that they name.
pub proof fn law_counted_streams(path: &[u8], route: SessionRoute, n: nat)
    requires
        call_ensures(find_session_route, (path,), route),
        n <= usize::MAX,
    ensures
        path@ == "/create_unidi_streams/".spec_bytes() + encode_utf8(decimal(n)) ==> route
            == SessionRoute::CreateUnidiStreams(Some(n as usize)),
        path@ == "/create_bidi_streams/".spec_bytes() + encode_utf8(decimal(n)) ==> route
            == SessionRoute::CreateBidiStreams(Some(n as usize)),
        route matches SessionRoute::CreateUnidiStreams(_) ==> has_prefix(
            path@,
            "/create_unidi_streams/".spec_bytes(),
        ),
        route matches SessionRoute::CreateBidiStreams(_) ==> has_prefix(
            path@,
            "/create_bidi_streams/".spec_bytes(),
        ),
{
    reveal(session_route);
    reveal(stream_route);
    reveal(answer_route);
    reveal(permission_route);
    law_decimal_round_trip(n, usize::MAX as nat);
    let digits = encode_utf8(decimal(n));
    let uni = "/create_unidi_streams/".spec_bytes();
    let bidi = "/create_bidi_streams/".spec_bytes();
    if path@ == uni + digits {
        assert(path@.take(uni.len() as int) =~= uni);
        assert(path@.skip(uni.len() as int) =~= digits);
        lemma_counted_alone(path@);
    }
    if path@ == bidi + digits {
        assert(path@.take(bidi.len() as int) =~= bidi);
        assert(path@.skip(bidi.len() as int) =~= digits);
        lemma_counted_alone(path@);
        lemma_session_texts_prefixes();
        if has_prefix(path@, uni) {
            lemma_prefix_bytes(path@, uni);
            lemma_prefix_bytes(path@, bidi);
            lemma_kinds_differ();
        }
    }
}

proof fn lemma_kinds_differ()
    ensures
        "/create_unidi_streams/".spec_bytes()[8] == 0x75,
        "/create_bidi_streams/".spec_bytes()[8] == 0x62,
        "/create_unidi_streams/".spec_bytes().len() == 22,
        "/create_bidi_streams/".spec_bytes().len() == 21,
{
    reveal_strlit("/create_unidi_streams/");
    is_ascii_spec_bytes("/create_unidi_streams/");
    reveal_strlit("/create_bidi_streams/");
    is_ascii_spec_bytes("/create_bidi_streams/");
}

proof fn lemma_counted_alone(path: Seq<u8>)
    requires
        has_prefix(path, "/create_unidi_streams/".spec_bytes()) || has_prefix(
            path,
            "/create_bidi_streams/".spec_bytes(),
        ),
    ensures
        path != "/success".spec_bytes(),
        path != "/redirect".spec_bytes(),
        path != "/reject".spec_bytes(),
        path != "/closeafter0ms".spec_bytes(),
        path != "/closeafter100ms".spec_bytes(),
        path != "/create_unidi_stream".spec_bytes(),
        path != "/create_unidi_stream_and_hello".spec_bytes(),
        path != "/create_two_unidi_streams_and_hello".spec_bytes(),
        path != "/create_bidi_stream".spec_bytes(),
        path != "/create_bidi_stream_and_hello".spec_bytes(),
        path != "/create_bidi_stream_and_large_data".spec_bytes(),
        path != "/create_bidi_stream_and_stop_sending".spec_bytes(),
        path != "/mcquic_auth_challenge".spec_bytes(),
        path != "/mcquic_auth_count".spec_bytes(),
        path != "/mcquic_non_success_true".spec_bytes(),
        path != "/mcquic_response_duplicate".spec_bytes(),
        path != "/mcquic_response_parameter".spec_bytes(),
        path != "/mcquic_permission_missing".spec_bytes(),
        path != "/mcquic_permission_false".spec_bytes(),
        path != "/mcquic_permission_malformed".spec_bytes(),
        path != "/mcquic_unsolicited_response".spec_bytes(),
        path != "/mcquic_permission_unsolicited".spec_bytes(),
        path != "/mcquic_permission_retry_once".spec_bytes(),
        path != "/mcquic_permission_connection".spec_bytes(),
        path != "/mcquic_webtransport_stream".spec_bytes(),
        path != "/mcquic_permission_revocation".spec_bytes(),
{
    if path == "/success".spec_bytes()
        || path == "/redirect".spec_bytes()
        || path == "/reject".spec_bytes()
        || path == "/closeafter0ms".spec_bytes()
        || path == "/closeafter100ms".spec_bytes()
        || path == "/create_unidi_stream".spec_bytes()
        || path == "/create_unidi_stream_and_hello".spec_bytes()
        || path == "/create_two_unidi_streams_and_hello".spec_bytes()
        || path == "/create_bidi_stream".spec_bytes()
        || path == "/create_bidi_stream_and_hello".spec_bytes()
        || path == "/create_bidi_stream_and_large_data".spec_bytes()
        || path == "/create_bidi_stream_and_stop_sending".spec_bytes()
        || path == "/mcquic_auth_challenge".spec_bytes()
        || path == "/mcquic_auth_count".spec_bytes()
        || path == "/mcquic_non_success_true".spec_bytes()
        || path == "/mcquic_response_duplicate".spec_bytes()
        || path == "/mcquic_response_parameter".spec_bytes()
        || path == "/mcquic_permission_missing".spec_bytes()
        || path == "/mcquic_permission_false".spec_bytes()
        || path == "/mcquic_permission_malformed".spec_bytes()
        || path == "/mcquic_unsolicited_response".spec_bytes()
        || path == "/mcquic_permission_unsolicited".spec_bytes()
        || path == "/mcquic_permission_retry_once".spec_bytes()
        || path == "/mcquic_permission_connection".spec_bytes()
        || path == "/mcquic_webtransport_stream".spec_bytes()
        || path == "/mcquic_permission_revocation".spec_bytes() {
        lemma_no_prefix(path);
    }
}

/// Whether a session is refused with this status.
pub open spec fn refuses(response: SessionAcceptView, status: Seq<u8>) -> bool {
    &&& response is Reject
    &&& response->Reject_0.len() > 0
    &&& response->Reject_0[0].name == ":status"@
    &&& response->Reject_0[0].value == status
}

/// Whether a head says this, and nothing else, of multicast.
pub open spec fn says(headers: Seq<HeaderView>, word: &'static str) -> bool {
    &&& headers.len() == 1
    &&& headers[0].name == "wt-multicast"@
    &&& headers[0].value == word.spec_bytes()
}

/// Whether an answer opens exactly one stream, of this kind and with these data.
pub open spec fn opens(
    answer: SessionAnswerView,
    stream_type: StreamType,
    data: Option<Seq<u8>>,
) -> bool {
    &&& answer.streams.len() == 1
    &&& answer.streams[0].stream_type == stream_type
    &&& answer.streams[0].data == data
}

/// Whether an answer sends exactly one message.
pub open spec fn tells(answer: SessionAnswerView, message: Seq<u8>) -> bool {
    answer.messages.len() == 1 && answer.messages[0] == message
}

/// Which sessions are refused, and with which status; every other session is accepted.
pub proof fn law_refused_sessions(route: SessionRoute, facts: SessionFacts, answer: SessionAnswer)
    requires
        is_servable(route),
        call_ensures(answer_session, (route, &facts), answer),
    ensures
        ({
            let response = answer@.response;
            let redirects = route matches SessionRoute::RedirectFrom(status) && 300 <= status
                <= 399;
            &&& route is Redirect ==> refuses(response, "302".spec_bytes())
                && response->Reject_0.len() == 2 && response->Reject_0[1].name == "location"@
                && response->Reject_0[1].value == "/".spec_bytes()
            &&& route is Reject ==> refuses(response, "404".spec_bytes())
            &&& route is AuthChallenge ==> refuses(response, "401".spec_bytes())
                && response->Reject_0[1].name == "www-authenticate"@
                && response->Reject_0[1].value == "Basic realm=\"mcquic-test\"".spec_bytes()
            &&& route is NonSuccessTrue ==> refuses(response, "404".spec_bytes())
            &&& route is RedirectFrom && !redirects ==> refuses(response, "404".spec_bytes())
            &&& redirects ==> refuses(response, digits(route->RedirectFrom_0 as nat))
            &&& route is RetryOnce && facts.attempts == 1 ==> refuses(response, "421".spec_bytes())
            &&& response is Reject <==> route is Redirect || route is Reject || route
                is AuthChallenge || route is NonSuccessTrue || route is RedirectFrom || (route
                is RetryOnce && facts.attempts == 1)
            &&& response is Reject ==> answer@.messages.len() == 0 && answer@.streams.len() == 0
                && answer@.follow_up is Nothing
        }),
{
    reveal(session_answer);
}

/// What is said of multicast in the head of an accepted session: that it is granted, that it is
/// not, or something that is neither; of the other sessions nothing is said.
pub proof fn law_multicast_words(route: SessionRoute, facts: SessionFacts, answer: SessionAnswer)
    requires
        is_servable(route),
        call_ensures(answer_session, (route, &facts), answer),
    ensures
        ({
            let response = answer@.response;
            let head = response->AcceptWithHeaders_0;
            let second = facts.multicast && facts.attempts == 2 && facts.changed_connection
                && !facts.resumed && facts.connection_sessions == 1;
            let granted = route is UnsolicitedResponse || (facts.multicast && (route
                is ConnectionIsolation || route is Multicast || route is Revocation)) || (second
                && route is RetryOnce);
            &&& granted ==> response is AcceptWithHeaders && says(head, "?1")
            &&& route is PermissionFalse || route is PermissionUnsolicited ==> response
                is AcceptWithHeaders && says(head, "?0")
            &&& route is PermissionMalformed ==> response is AcceptWithHeaders && says(
                head,
                "not-a-boolean",
            )
            &&& route is ResponseParameter ==> response is AcceptWithHeaders && says(
                head,
                "?1; ignored=token",
            )
            &&& route is ResponseDuplicate ==> response is AcceptWithHeaders && head.len() == 2
                && says(head.take(1), "?1") && says(head.skip(1), "?1")
            &&& response is AcceptWithHeaders <==> granted || route is PermissionFalse || route
                is PermissionUnsolicited || route is PermissionMalformed || route
                is ResponseParameter || route is ResponseDuplicate
        }),
{
    reveal(session_answer);
}

/// Which streams the server opens on a session, with what on them.
pub proof fn law_opened_streams(
    route: SessionRoute,
    facts: SessionFacts,
    answer: SessionAnswer,
    n: usize,
    i: int,
)
    requires
        is_servable(route),
        call_ensures(answer_session, (route, &facts), answer),
    ensures
        ({
            let a = answer@;
            let uni = StreamType::UniDi;
            let bidi = StreamType::BiDi;
            &&& route is CreateUnidi ==> opens(a, uni, None)
            &&& route is CreateBidi ==> opens(a, bidi, None)
            &&& route is CreateUnidiAndHello ==> opens(a, uni, Some("qwerty".spec_bytes()))
            &&& route is CreateBidiAndHello ==> opens(a, bidi, Some("asdfg".spec_bytes()))
            &&& route is CreateBidiAndLargeData ==> opens(
                a,
                bidi,
                Some(Seq::new(32 * 1024 * 1024, |k: int| 1u8)),
            )
            &&& route is CreateTwoUnidiAndHello ==> a.streams.len() == 2 && a.streams[1].stream_type
                == uni && a.streams[1].data == Some("first".spec_bytes())
                && a.streams[0].stream_type == uni && a.streams[0].data == Some(
                "second".spec_bytes(),
            )
            &&& route == SessionRoute::CreateUnidiStreams(Some(n)) || route
                == SessionRoute::CreateBidiStreams(Some(n)) ==> a.streams.len() == n && (0 <= i < n
                ==> a.streams[i].data == Some("stream".spec_bytes() + digits(i as nat))
                && a.streams[i].stream_type == (if route is CreateBidiStreams {
                bidi
            } else {
                uni
            }))
            &&& route is PermissionMissing ==> opens(
                a,
                uni,
                Some("permission-missing-unicast".spec_bytes()),
            )
            &&& route is PermissionFalse ==> opens(
                a,
                uni,
                Some("permission-false-unicast".spec_bytes()),
            )
            &&& route is PermissionMalformed ==> opens(
                a,
                uni,
                Some("permission-malformed-unicast".spec_bytes()),
            )
            &&& route is UnsolicitedResponse ==> opens(
                a,
                uni,
                Some("unsolicited-response-unicast".spec_bytes()),
            )
            &&& (route is Multicast || route is Revocation) && !facts.multicast ==> opens(
                a,
                uni,
                Some("permission-absent-unicast".spec_bytes()),
            )
            &&& a.forgets_streams <==> route is CreateBidiStreams || route is CreateBidiAndHello
                || route is CreateBidiAndLargeData
        }),
{
    reveal(session_answer);
    reveal(numbered_streams);
}

/// Which messages a session is sent at once, and what comes after them.
pub proof fn law_session_messages(
    route: SessionRoute,
    facts: SessionFacts,
    answer: SessionAnswer,
    status: u16,
)
    requires
        is_servable(route),
        call_ensures(answer_session, (route, &facts), answer),
    ensures
        ({
            let a = answer@;
            let second = facts.multicast && facts.attempts == 2 && facts.changed_connection
                && !facts.resumed && facts.connection_sessions == 1;
            &&& route is ResponseDuplicate ==> tells(a, "duplicate-response-unicast".spec_bytes())
            &&& route is ResponseParameter ==> tells(
                a,
                "parameterized-response-unicast".spec_bytes(),
            )
            &&& route == SessionRoute::RedirectTarget(status) ==> tells(
                a,
                "redirect-target-".spec_bytes() + digits(status as nat),
            )
            &&& route is AuthCount ==> tells(
                a,
                "requests=".spec_bytes() + digits(facts.challenges as nat)
                    + ";authorization=".spec_bytes() + digits(facts.authorizations as nat),
            )
            &&& route is RedirectCount ==> tells(
                a,
                "source=".spec_bytes() + digits(facts.sources as nat) + ";target=".spec_bytes()
                    + digits(facts.targets as nat),
            )
            &&& route is ConnectionIsolation ==> tells(
                a,
                "connection=".spec_bytes() + digits(facts.connection as nat)
                    + ";multicast=".spec_bytes() + digits(
                    if facts.multicast {
                        1
                    } else {
                        0
                    },
                ),
            )
            &&& route is RetryOnce && second ==> a.messages.len() == 1
            &&& route is RetryOnce && facts.attempts != 1 && !second ==> a.messages.len() == 2
                && a.messages[1] == "retry-authorization-failed-unicast".spec_bytes()
            &&& a.follow_up is CloseNow <==> route is CloseAfter0Ms
            &&& a.follow_up is CloseLater <==> route is CloseAfter100Ms
            &&& a.follow_up is StopSending <==> route is CreateBidiAndStopSending
            &&& a.follow_up is SendControls <==> route is PermissionUnsolicited
            &&& a.follow_up == FollowUp::Run(McquicWebTransportScenarioKind::Full) <==> route
                is Multicast && facts.multicast
            &&& a.follow_up == FollowUp::Run(McquicWebTransportScenarioKind::Revocation) <==> (route
                is Revocation && facts.multicast) || (route is RetryOnce && second)
        }),
{
    reveal(session_answer);
    reveal(auth_report);
    reveal(redirect_report);
    reveal(connection_report);
}

/// The report on a second attempt names its numbers one after the other.
pub proof fn law_second_attempt(facts: SessionFacts, answer: SessionAnswer)
    requires
        facts.attempts != 1,
        call_ensures(answer_session, (SessionRoute::RetryOnce, &facts), answer),
    ensures
        answer@.messages[0] == "attempts=".spec_bytes() + digits(facts.attempts as nat)
            + ";connection=".spec_bytes() + digits(facts.connection as nat)
            + ";changed=".spec_bytes() + digits(
            if facts.changed_connection {
                1
            } else {
                0
            },
        ) + (";sessions=".spec_bytes() + digits(facts.connection_sessions as nat)
            + ";multicast=".spec_bytes() + digits(
            if facts.multicast {
                1
            } else {
                0
            },
        ) + ";resumed=".spec_bytes() + digits(
            if facts.resumed {
                1
            } else {
                0
            },
        )),
{
    reveal(session_answer);
    reveal(retry_report);
}

/// Whether a session asks for multicast, or names who asks, is told by one of its header fields,
/// whose name may be written in any case. A session without a path is not found.
pub proof fn law_session_fields(
    headers: Vec<Header>,
    requested: bool,
    authorized: bool,
    answer: SessionAnswer,
    route: SessionRoute,
    can: bool,
    status: u16,
    target: Vec<u8>,
    source: Vec<u8>,
)
    requires
        call_ensures(multicast_requested, (&headers,), requested),
        call_ensures(is_authorized, (&headers,), authorized),
        call_ensures(answer_without_path, (), answer),
        call_ensures(can_serve, (route,), can),
        call_ensures(target_path, (status,), target),
        call_ensures(source_path, (status,), source),
    ensures
        ({
            let all = header_views(headers@);
            &&& requested <==> exists|k: int|
                0 <= k < all.len() && same_ignoring_case(
                    encode_utf8((#[trigger] all[k]).name),
                    "wt-multicast".spec_bytes(),
                ) && all[k].value == "?1".spec_bytes()
            &&& authorized <==> exists|k: int|
                0 <= k < all.len() && same_ignoring_case(
                    encode_utf8((#[trigger] all[k]).name),
                    "authorization".spec_bytes(),
                )
            &&& refuses(answer@.response, "404".spec_bytes())
            &&& !can <==> route == SessionRoute::CreateUnidiStreams(None) || route
                == SessionRoute::CreateBidiStreams(None)
            &&& target@ == "/mcquic_redirect_target_".spec_bytes() + digits(status as nat)
            &&& source@ == "/mcquic_redirect_".spec_bytes() + digits(status as nat)
        }),
{
    reveal(redirect_target);
}

}
