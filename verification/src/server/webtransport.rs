//! The WebTransport sessions of the server: what they wait for.
use crate::bytes::{append, text_bytes};
use crate::headers::{header_views, Header, HeaderView};
use crate::server::counts::{count_of, counted};
use crate::server::requests::{find_path, request_path};
use crate::server::scenario::{
    fresh, McquicWebTransportPhase, McquicWebTransportScenario, McquicWebTransportScenarioKind,
    ScenarioView, MCQUIC_SCENARIO_TIMEOUT, MCQUIC_STEP_DELAY,
};
use crate::server::sessions::{
    answer_session, answer_without_path, asks_for_multicast, find_session_route, has_authorization,
    is_authorized, is_servable, multicast_requested, redirect_source, redirect_target, refused,
    refuses, session_answer, session_route, source_path, message_views, stream_views, target_path, FollowUp, NewStream, NewStreamView,
    SessionAcceptAction, SessionAnswer, SessionAnswerView, SessionFacts, SessionRoute, MCQUIC_AUTH_CHALLENGE_PATH,
};
use crate::server::test_server::{Http3TestServer, ServerView};
use crate::server::timed::{due_items, kept_entries, law_due, TimedList};
use std::collections::HashMap;
use vstd::prelude::*;
use vstd::string::StringSliceAdditionalSpecFns;

verus! {

broadcast use vstd::std_specs::hash::group_hash_axioms;

/// How long a session lives whose path says so, in nanoseconds.
pub const CLOSE_DELAY: u64 = 100_000_000;

/// When the client is asked not to send on a stream that was just opened, in nanoseconds.
pub const STOP_SENDING_DELAY: u64 = 200_000_000;

/// When a message follows frames that the client did not ask for, in nanoseconds.
pub const CONTROLS_DELAY: u64 = 400_000_000;

/// A message that is to be sent at a time on a session.
pub struct PendingStatus {
    send_at: u64,
    session: u64,
    message: Vec<u8>,
}

/// The contents of a [`PendingStatus`].
pub struct PendingView {
    pub send_at: u64,
    pub session: u64,
    pub message: Seq<u8>,
}

impl View for PendingStatus {
    type V = PendingView;

    closed spec fn view(&self) -> PendingView {
        PendingView { send_at: self.send_at, session: self.session, message: self.message@ }
    }
}

/// What the sessions wait for.
pub struct WebTransportSessions {
    sessions_to_close: TimedList,
    sessions_to_create_stream: Vec<(u64, NewStream)>,
    sessions_to_create_bidi_and_stop_sending: Vec<u64>,
    streams_to_stop_sending: TimedList,
    sessions_per_connection: HashMap<u64, u64>,
    retry_first_connection: Option<u64>,
    auth_header_count: u64,
    scenario: Option<McquicWebTransportScenario>,
    pending_status: Option<PendingStatus>,
}

/// The contents of a [`WebTransportSessions`]. Sessions, streams and connections are numbers.
#[verifier::ext_equal]
pub struct SessionsView {
    pub sessions_to_close: Seq<(u64, u64)>,
    pub sessions_to_create_stream: Seq<(u64, NewStreamView)>,
    pub sessions_to_create_bidi_and_stop_sending: Seq<u64>,
    pub streams_to_stop_sending: Seq<(u64, u64)>,
    pub sessions_per_connection: Map<u64, u64>,
    pub retry_first_connection: Option<u64>,
    pub auth_header_count: u64,
    pub scenario: Option<ScenarioView>,
    pub pending_status: Option<PendingView>,
}

/// The contents of a list of streams that sessions are to open.
pub open spec fn wanted_streams(list: Seq<(u64, NewStream)>) -> Seq<(u64, NewStreamView)> {
    list.map_values(|e: (u64, NewStream)| (e.0, e.1@))
}

impl View for WebTransportSessions {
    type V = SessionsView;

    closed spec fn view(&self) -> SessionsView {
        SessionsView {
            sessions_to_close: self.sessions_to_close@,
            sessions_to_create_stream: wanted_streams(self.sessions_to_create_stream@),
            sessions_to_create_bidi_and_stop_sending:
                self.sessions_to_create_bidi_and_stop_sending@,
            streams_to_stop_sending: self.streams_to_stop_sending@,
            sessions_per_connection: self.sessions_per_connection@,
            retry_first_connection: self.retry_first_connection,
            auth_header_count: self.auth_header_count,
            scenario: match self.scenario {
                Some(s) => Some(s@),
                None => None,
            },
            pending_status: match self.pending_status {
                Some(p) => Some(p@),
                None => None,
            },
        }
    }
}

/// A request for a session.
pub struct SessionRequest {
    pub session: u64,
    pub connection: u64,
    /// A number that tells connections apart for the client.
    pub connection_hash: u64,
    /// Whether the connection resumes an earlier one.
    pub resumed: bool,
    pub headers: Vec<Header>,
}

/// The contents of a [`SessionRequest`].
pub struct SessionRequestView {
    pub session: u64,
    pub connection: u64,
    pub connection_hash: u64,
    pub resumed: bool,
    pub headers: Seq<HeaderView>,
}

impl View for SessionRequest {
    type V = SessionRequestView;

    open spec fn view(&self) -> SessionRequestView {
        SessionRequestView {
            session: self.session,
            connection: self.connection,
            connection_hash: self.connection_hash,
            resumed: self.resumed,
            headers: header_views(self.headers@),
        }
    }
}

/// What is to be done at once about a session.
#[derive(Debug)]
pub struct SessionReply {
    pub response: SessionAcceptAction,
    /// Each is sent on a stream of its own.
    pub messages: Vec<Vec<u8>>,
    /// Whether the frames of a scenario are sent that the client did not ask for.
    pub sends_controls: bool,
    /// The scenario that is to be set up.
    pub scenario: Option<McquicWebTransportScenarioKind>,
}

/// How many sessions a connection has had.
pub open spec fn connection_sessions(sessions: Map<u64, u64>, connection: u64) -> u64 {
    if sessions.contains_key(connection) {
        sessions[connection]
    } else {
        0
    }
}

/// How often the paths of a redirection were asked for.
pub open spec fn redirect_counts(route: SessionRoute, counts: Map<Seq<u8>, u64>) -> (u64, u64) {
    match route {
        SessionRoute::RedirectCount(status) => (
            count_of(counts, redirect_source(status)),
            count_of(counts, redirect_target(status)),
        ),
        _ => (0, 0),
    }
}

impl SessionsView {
    /// No sessions.
    pub open spec fn fresh() -> SessionsView {
        SessionsView {
            sessions_to_close: Seq::empty(),
            sessions_to_create_stream: Seq::empty(),
            sessions_to_create_bidi_and_stop_sending: Seq::empty(),
            streams_to_stop_sending: Seq::empty(),
            sessions_per_connection: Map::empty(),
            retry_first_connection: None,
            auth_header_count: 0,
            scenario: None,
            pending_status: None,
        }
    }

    /// The scenario is in a state that it can be in.
    pub open spec fn wf(self) -> bool {
        self.scenario matches Some(s) ==> s.wf()
    }

    /// Whether anything is to be done later.
    pub open spec fn busy(self) -> bool {
        self.sessions_to_close.len() > 0 || self.scenario is Some || self.pending_status is Some
            || self.streams_to_stop_sending.len() > 0
    }

    /// Whether a scenario is under way, or has just failed to be.
    pub open spec fn occupied(self) -> bool {
        self.scenario is Some || self.pending_status is Some
    }

    /// Whether a session, and an authorization that it brings, can be counted.
    pub open spec fn can_count(self, request: SessionRequestView) -> bool {
        &&& connection_sessions(self.sessions_per_connection, request.connection) < u64::MAX
        &&& request_path(request.headers) matches Some(path) ==> session_route(path)
            == SessionRoute::AuthChallenge ==> has_authorization(request.headers)
            ==> self.auth_header_count < u64::MAX
    }

    /// What the answer to a session depends on. The counts include this request.
    pub open spec fn facts(
        self,
        request: SessionRequestView,
        route: SessionRoute,
        path: Seq<u8>,
        counts: Map<Seq<u8>, u64>,
    ) -> SessionFacts {
        SessionFacts {
            multicast: asks_for_multicast(request.headers),
            connection: request.connection_hash,
            changed_connection: self.retry_first_connection != Some(request.connection_hash),
            resumed: request.resumed,
            connection_sessions: (connection_sessions(
                self.sessions_per_connection,
                request.connection,
            ) + 1) as u64,
            attempts: count_of(counts, path),
            challenges: count_of(counts, MCQUIC_AUTH_CHALLENGE_PATH.spec_bytes()),
            authorizations: self.auth_header_count,
            sources: redirect_counts(route, counts).0,
            targets: redirect_counts(route, counts).1,
        }
    }

    /// What is done about a session, where `counts` are the requests before it.
    pub open spec fn answer(
        self,
        request: SessionRequestView,
        counts: Map<Seq<u8>, u64>,
    ) -> SessionAnswerView {
        match request_path(request.headers) {
            Some(path) => session_answer(
                session_route(path),
                self.facts(request, session_route(path), path, counted(counts, path)),
            ),
            None => refused("404"),
        }
    }

    /// The sessions after one of them was noted for its connection.
    pub open spec fn noted(self, connection: u64) -> SessionsView {
        SessionsView {
            sessions_per_connection: self.sessions_per_connection.insert(
                connection,
                (connection_sessions(self.sessions_per_connection, connection) + 1) as u64,
            ),
            ..self
        }
    }

    /// The sessions after what a path tells of the client was noted.
    pub open spec fn remembering(
        self,
        request: SessionRequestView,
        route: SessionRoute,
        attempts: u64,
    ) -> SessionsView {
        match route {
            SessionRoute::AuthChallenge => if has_authorization(request.headers) {
                SessionsView { auth_header_count: (self.auth_header_count + 1) as u64, ..self }
            } else {
                self
            },
            SessionRoute::RetryOnce => if attempts == 1 {
                SessionsView { retry_first_connection: Some(request.connection_hash), ..self }
            } else {
                self
            },
            _ => self,
        }
    }

    /// The sessions with the streams that one of them is to open.
    pub open spec fn wanting(self, session: u64, streams: Seq<NewStreamView>) -> SessionsView {
        SessionsView {
            sessions_to_create_stream: self.sessions_to_create_stream + streams.map_values(
                |s: NewStreamView| (session, s),
            ),
            ..self
        }
    }

    /// The sessions with a message that one of them is to get.
    pub open spec fn announcing(self, send_at: u64, session: u64, message: Seq<u8>) -> SessionsView {
        SessionsView { pending_status: Some(PendingView { send_at, session, message }), ..self }
    }

    /// The sessions with what comes after one of them was answered.
    pub open spec fn following(
        self,
        session: u64,
        follow_up: FollowUp,
        now: u64,
        clock: u64,
    ) -> SessionsView {
        match follow_up {
            FollowUp::Nothing => self,
            FollowUp::CloseNow => SessionsView {
                sessions_to_close: self.sessions_to_close.push((now, session)),
                ..self
            },
            FollowUp::CloseLater => SessionsView {
                sessions_to_close: self.sessions_to_close.push(
                    ((clock + CLOSE_DELAY) as u64, session),
                ),
                ..self
            },
            FollowUp::StopSending => SessionsView {
                sessions_to_create_bidi_and_stop_sending:
                    self.sessions_to_create_bidi_and_stop_sending.push(session),
                ..self
            },
            FollowUp::SendControls => self.announcing(
                (now + CONTROLS_DELAY) as u64,
                session,
                "unsolicited-controls-unicast".spec_bytes(),
            ),
            FollowUp::Run(_) => if self.occupied() {
                self.announcing(
                    (now + MCQUIC_STEP_DELAY) as u64,
                    session,
                    "MCQUIC-ERROR:another MCQUIC WebTransport scenario is active".spec_bytes(),
                )
            } else {
                self
            },
        }
    }

    /// The sessions after a request for one.
    pub open spec fn after_request(
        self,
        request: SessionRequestView,
        counts: Map<Seq<u8>, u64>,
        now: u64,
        clock: u64,
    ) -> SessionsView {
        let answer = self.answer(request, counts);
        match request_path(request.headers) {
            Some(path) => self.noted(request.connection).remembering(
                request,
                session_route(path),
                count_of(counted(counts, path), path),
            ).wanting(request.session, answer.streams).following(
                request.session,
                answer.follow_up,
                now,
                clock,
            ),
            None => self.noted(request.connection),
        }
    }

    /// The scenario that is to be set up for a session.
    pub open spec fn scenario_to_create(
        self,
        request: SessionRequestView,
        counts: Map<Seq<u8>, u64>,
    ) -> Option<McquicWebTransportScenarioKind> {
        match self.answer(request, counts).follow_up {
            FollowUp::Run(kind) => if self.occupied() {
                None
            } else {
                Some(kind)
            },
            _ => None,
        }
    }

    /// The sessions after the attempt to set up a scenario, which may have failed with an error.
    pub open spec fn after_created(
        self,
        session: u64,
        kind: McquicWebTransportScenarioKind,
        now: u64,
        error: Option<Seq<u8>>,
    ) -> SessionsView {
        match error {
            None => SessionsView { scenario: Some(fresh(session, kind, now)), ..self },
            Some(error) => self.announcing(
                (now + MCQUIC_STEP_DELAY) as u64,
                session,
                "MCQUIC-ERROR:loopback SSM unavailable: ".spec_bytes() + error,
            ),
        }
    }
}

/// The server after a request for a session: it counts the path, and forgets the streams where
/// the answer says so.
pub open spec fn server_after(
    server: ServerView,
    request: SessionRequestView,
    answer: SessionAnswerView,
) -> ServerView {
    match request_path(request.headers) {
        Some(path) => ServerView {
            request_counts: counted(server.request_counts, path),
            bidi_streams: if answer.forgets_streams {
                Set::empty()
            } else {
                server.bidi_streams
            },
            ..server
        },
        None => server,
    }
}

impl WebTransportSessions {
    pub fn new() -> (sessions: Self)
        ensures
            sessions@ == SessionsView::fresh(),
    {
        let sessions = WebTransportSessions {
            sessions_to_close: TimedList::new(),
            sessions_to_create_stream: Vec::new(),
            sessions_to_create_bidi_and_stop_sending: Vec::new(),
            streams_to_stop_sending: TimedList::new(),
            sessions_per_connection: HashMap::new(),
            retry_first_connection: None,
            auth_header_count: 0,
            scenario: None,
            pending_status: None,
        };
        assert(sessions@ =~= SessionsView::fresh());
        sessions
    }

    /// Whether anything is to be done later.
    pub fn is_busy(&self) -> (busy: bool)
        ensures
            busy == self@.busy(),
    {
        !self.sessions_to_close.is_empty() || self.scenario.is_some()
            || self.pending_status.is_some() || !self.streams_to_stop_sending.is_empty()
    }

    fn is_occupied(&self) -> (occupied: bool)
        ensures
            occupied == self@.occupied(),
    {
        self.scenario.is_some() || self.pending_status.is_some()
    }

    /// Notes a session for its connection, and returns how many it has had.
    fn note(&mut self, connection: u64) -> (count: u64)
        requires
            connection_sessions(old(self)@.sessions_per_connection, connection) < u64::MAX,
        ensures
            final(self)@ == old(self)@.noted(connection),
            count == connection_sessions(old(self)@.sessions_per_connection, connection) + 1,
    {
        let before: u64 = match self.sessions_per_connection.get(&connection) {
            Some(n) => *n,
            None => 0,
        };
        self.sessions_per_connection.insert(connection, before + 1);
        assert(self@ =~= old(self)@.noted(connection));
        before + 1
    }

    fn remember(&mut self, request: &SessionRequest, route: SessionRoute, attempts: u64)
        requires
            route == SessionRoute::AuthChallenge && has_authorization(request@.headers) ==> old(
                self,
            )@.auth_header_count < u64::MAX,
        ensures
            final(self)@ == old(self)@.remembering(request@, route, attempts),
    {
        match route {
            SessionRoute::AuthChallenge => {
                if is_authorized(&request.headers) {
                    self.auth_header_count = self.auth_header_count + 1;
                }
            },
            SessionRoute::RetryOnce => {
                if attempts == 1 {
                    self.retry_first_connection = Some(request.connection_hash);
                }
            },
            _ => {},
        }
        assert(self@ =~= old(self)@.remembering(request@, route, attempts));
    }

    fn want(&mut self, session: u64, streams: Vec<NewStream>)
        ensures
            final(self)@ == old(self)@.wanting(session, stream_views(streams@)),
    {
        let ghost given = streams@;
        let ghost tagged = stream_views(given).map_values(|s: NewStreamView| (session, s));
        let ghost start = wanted_streams(self.sessions_to_create_stream@);
        let ghost first = *self;
        assert(start =~= start + tagged.take(0));
        for stream in it: streams.into_iter()
            invariant
                it.seq() == given,
                tagged == stream_views(given).map_values(|s: NewStreamView| (session, s)),
                start == first@.sessions_to_create_stream,
                self@ == (SessionsView {
                    sessions_to_create_stream: start + tagged.take(it.index() as int),
                    ..first@
                }),
        {
            let ghost n = it.index() as int;
            let ghost before = self.sessions_to_create_stream@;
            self.sessions_to_create_stream.push((session, stream));
            proof {
                assert(wanted_streams(self.sessions_to_create_stream@) =~= wanted_streams(
                    before,
                ).push((session, stream@)));
                assert(tagged.take(n + 1) =~= tagged.take(n).push((session, stream@)));
                assert(self@.sessions_to_create_stream =~= start + tagged.take(n + 1));
            }
        }
        assert(tagged.take(given.len() as int) =~= tagged);
        assert(self@ =~= old(self)@.wanting(session, stream_views(given)));
    }

    fn announce(&mut self, send_at: u64, session: u64, message: Vec<u8>)
        ensures
            final(self)@ == old(self)@.announcing(send_at, session, message@),
    {
        self.pending_status = Some(PendingStatus { send_at, session, message });
    }

    fn follow(&mut self, session: u64, follow_up: FollowUp, now: u64, clock: u64)
        requires
            now + CONTROLS_DELAY <= u64::MAX,
            clock + CLOSE_DELAY <= u64::MAX,
        ensures
            final(self)@ == old(self)@.following(session, follow_up, now, clock),
    {
        match follow_up {
            FollowUp::Nothing => {},
            FollowUp::CloseNow => {
                self.sessions_to_close.schedule(now, session);
            },
            FollowUp::CloseLater => {
                self.sessions_to_close.schedule(clock + CLOSE_DELAY, session);
            },
            FollowUp::StopSending => {
                self.sessions_to_create_bidi_and_stop_sending.push(session);
            },
            FollowUp::SendControls => {
                self.announce(
                    now + CONTROLS_DELAY,
                    session,
                    text_bytes("unsolicited-controls-unicast"),
                );
            },
            FollowUp::Run(_) => {
                if self.is_occupied() {
                    self.announce(
                        now + MCQUIC_STEP_DELAY,
                        session,
                        text_bytes("MCQUIC-ERROR:another MCQUIC WebTransport scenario is active"),
                    );
                }
            },
        }
        assert(self@ =~= old(self)@.following(session, follow_up, now, clock));
    }

    fn gather(
        &self,
        server: &Http3TestServer,
        request: &SessionRequest,
        route: SessionRoute,
        path: &[u8],
        connection_sessions: u64,
    ) -> (facts: SessionFacts)
        requires
            server.wf(),
        ensures
            facts == (SessionFacts {
                connection_sessions,
                ..self@.facts(request@, route, path@, server@.request_counts)
            }),
    {
        let counts = match route {
            SessionRoute::RedirectCount(status) => (
                server.requests(source_path(status).as_slice()),
                server.requests(target_path(status).as_slice()),
            ),
            _ => (0, 0),
        };
        let changed_connection = match self.retry_first_connection {
            Some(first) => first != request.connection_hash,
            None => true,
        };
        SessionFacts {
            multicast: multicast_requested(&request.headers),
            connection: request.connection_hash,
            changed_connection,
            resumed: request.resumed,
            connection_sessions,
            attempts: server.requests(path),
            challenges: server.requests(MCQUIC_AUTH_CHALLENGE_PATH.as_bytes()),
            authorizations: self.auth_header_count,
            sources: counts.0,
            targets: counts.1,
        }
    }

    /// Does what an answer says of later, and returns what is to be done at once.
    fn carry_out(&mut self, session: u64, answer: SessionAnswer, now: u64, clock: u64) -> (reply:
        SessionReply)
        requires
            now + CONTROLS_DELAY <= u64::MAX,
            clock + CLOSE_DELAY <= u64::MAX,
        ensures
            final(self)@ == old(self)@.wanting(session, answer@.streams).following(
                session,
                answer@.follow_up,
                now,
                clock,
            ),
            reply.response@ == answer@.response,
            message_views(reply.messages@) == answer@.messages,
            reply.sends_controls == (answer@.follow_up == FollowUp::SendControls),
            reply.scenario == (match answer@.follow_up {
                FollowUp::Run(kind) => if old(self)@.occupied() {
                    None
                } else {
                    Some(kind)
                },
                _ => None,
            }),
    {
        let scenario = match answer.follow_up {
            FollowUp::Run(kind) => if self.is_occupied() {
                None
            } else {
                Some(kind)
            },
            _ => None,
        };
        let sends_controls = answer.follow_up == FollowUp::SendControls;
        self.want(session, answer.streams);
        self.follow(session, answer.follow_up, now, clock);
        SessionReply {
            response: answer.response,
            messages: answer.messages,
            sends_controls,
            scenario,
        }
    }

    /// Whether a session, and an authorization that it brings, can be counted.
    pub fn can_count(&self, request: &SessionRequest) -> (can: bool)
        ensures
            can == self@.can_count(request@),
    {
        if let Some(n) = self.sessions_per_connection.get(&request.connection) {
            if *n == u64::MAX {
                return false;
            }
        }
        match find_path(&request.headers) {
            Some(path) => {
                let route = find_session_route(path);
                !(route == SessionRoute::AuthChallenge && is_authorized(&request.headers)
                    && self.auth_header_count == u64::MAX)
            },
            None => true,
        }
    }

    /// Answers a request for a session. `now` is the time of the event, and `clock` that of the
    /// machine.
    pub fn on_new_session(
        &mut self,
        server: &mut Http3TestServer,
        request: &SessionRequest,
        now: u64,
        clock: u64,
    ) -> (reply: SessionReply)
        requires
            old(self)@.wf(),
            old(server).wf(),
            request_path(request@.headers) matches Some(path) ==> is_servable(session_route(path))
                && count_of(old(server)@.request_counts, path) < u64::MAX,
            old(self)@.can_count(request@),
            now + CONTROLS_DELAY <= u64::MAX,
            clock + CLOSE_DELAY <= u64::MAX,
        ensures
            final(self)@.wf(),
            final(server).wf(),
            ({
                let answer = old(self)@.answer(request@, old(server)@.request_counts);
                &&& reply.response@ == answer.response
                &&& message_views(reply.messages@) == answer.messages
                &&& reply.sends_controls == (answer.follow_up == FollowUp::SendControls)
            }),
            reply.scenario == old(self)@.scenario_to_create(
                request@,
                old(server)@.request_counts,
            ),
            final(self)@ == old(self)@.after_request(
                request@,
                old(server)@.request_counts,
                now,
                clock,
            ),
            final(server)@ == server_after(
                old(server)@,
                request@,
                old(self)@.answer(request@, old(server)@.request_counts),
            ),
    {
        let ghost counts = server@.request_counts;
        match find_path(&request.headers) {
            None => {
                let _count: u64 = self.note(request.connection);
                let answer = answer_without_path();
                SessionReply {
                    response: answer.response,
                    messages: answer.messages,
                    sends_controls: false,
                    scenario: None,
                }
            },
            Some(path) => {
                server.count_request(path);
                let route = find_session_route(path);
                let ghost before = self@;
                let count: u64 = self.note(request.connection);
                let facts = self.gather(server, request, route, path, count);
                assert(facts == before.facts(request@, route, path@, counted(counts, path@)));
                let answer = answer_session(route, &facts);
                if answer.forgets_streams {
                    server.forget_streams();
                }
                self.remember(request, route, facts.attempts);
                self.carry_out(request.session, answer, now, clock)
            },
        }
    }

    /// Takes in whether the scenario that was to be set up for a session could be, or the error.
    pub fn on_scenario_created(
        &mut self,
        session: u64,
        kind: McquicWebTransportScenarioKind,
        now: u64,
        error: Option<&str>,
    )
        requires
            old(self)@.wf(),
            now + MCQUIC_SCENARIO_TIMEOUT <= u64::MAX,
        ensures
            final(self)@.wf(),
            final(self)@ == old(self)@.after_created(
                session,
                kind,
                now,
                match error {
                    Some(e) => Some(e.spec_bytes()),
                    None => None,
                },
            ),
    {
        match error {
            None => {
                self.scenario = Some(McquicWebTransportScenario::new_with_kind(session, now, kind));
            },
            Some(error) => {
                let mut message = text_bytes("MCQUIC-ERROR:loopback SSM unavailable: ");
                append(&mut message, error.as_bytes());
                self.announce(now + MCQUIC_STEP_DELAY, session, message);
            },
        }
    }

    /// The sessions that are to be closed.
    pub fn maybe_close_session(&mut self, now: u64) -> (sessions: Vec<u64>)
        ensures
            sessions@ == due_items(old(self)@.sessions_to_close, now),
            final(self)@ == (SessionsView {
                sessions_to_close: kept_entries(old(self)@.sessions_to_close, now, true),
                ..old(self)@
            }),
    {
        self.sessions_to_close.take_due(now, true)
    }

    /// The session that is to open a stream next: the one that asked last.
    pub fn maybe_create_wt_stream(&mut self) -> (wanted: Option<(u64, NewStream)>)
        ensures
            old(self)@.sessions_to_create_stream.len() == 0 ==> wanted is None && final(self)@
                == old(self)@,
            old(self)@.sessions_to_create_stream.len() > 0 ==> {
                &&& wanted matches Some(w) && (w.0, w.1@)
                    == old(self)@.sessions_to_create_stream.last()
                &&& final(self)@ == (SessionsView {
                    sessions_to_create_stream: old(
                        self,
                    )@.sessions_to_create_stream.drop_last(),
                    ..old(self)@
                })
            },
    {
        let ghost before = self.sessions_to_create_stream@;
        let wanted = self.sessions_to_create_stream.pop();
        proof {
            if before.len() > 0 {
                assert(wanted_streams(self.sessions_to_create_stream@) =~= wanted_streams(
                    before,
                ).drop_last());
            } else {
                assert(wanted_streams(self.sessions_to_create_stream@) =~= wanted_streams(before));
            }
        }
        wanted
    }

    /// The session that is to open a stream on which the client is asked not to send.
    pub fn maybe_create_wt_stream_and_stop_sending(&mut self) -> (session: Option<u64>)
        ensures
            ({
                let waiting = old(self)@.sessions_to_create_bidi_and_stop_sending;
                if waiting.len() == 0 {
                    session is None && final(self)@ == old(self)@
                } else {
                    session == Some(waiting.last()) && final(self)@ == (SessionsView {
                        sessions_to_create_bidi_and_stop_sending: waiting.drop_last(),
                        ..old(self)@
                    })
                }
            }),
    {
        let session = self.sessions_to_create_bidi_and_stop_sending.pop();
        proof {
            if old(self).sessions_to_create_bidi_and_stop_sending@.len() == 0 {
                assert(self@ =~= old(self)@);
            }
        }
        session
    }

    /// Takes in that such a stream was opened. The request follows once the client knows of it.
    pub fn on_stream_to_stop(&mut self, stream: u64, now: u64)
        requires
            now + STOP_SENDING_DELAY <= u64::MAX,
        ensures
            final(self)@ == (SessionsView {
                streams_to_stop_sending: old(self)@.streams_to_stop_sending.push(
                    ((now + STOP_SENDING_DELAY) as u64, stream),
                ),
                ..old(self)@
            }),
    {
        self.streams_to_stop_sending.schedule(now + STOP_SENDING_DELAY, stream);
    }

    /// The streams on which the client is to be asked not to send.
    pub fn maybe_stop_sending(&mut self, now: u64) -> (streams: Vec<u64>)
        ensures
            streams@ == due_items(old(self)@.streams_to_stop_sending, now),
            final(self)@ == (SessionsView {
                streams_to_stop_sending: kept_entries(
                    old(self)@.streams_to_stop_sending,
                    now,
                    false,
                ),
                ..old(self)@
            }),
    {
        self.streams_to_stop_sending.take_due(now, false)
    }

    /// The message that is due, and its session.
    pub fn maybe_send_mcquic_webtransport_status(&mut self, now: u64) -> (status: Option<
        (u64, Vec<u8>),
    >)
        ensures
            match old(self)@.pending_status {
                Some(pending) => if now < pending.send_at {
                    status is None && final(self)@ == old(self)@
                } else {
                    &&& status matches Some(s) && s.0 == pending.session && s.1@
                        == pending.message
                    &&& final(self)@ == (SessionsView { pending_status: None, ..old(self)@ })
                },
                None => status is None && final(self)@ == old(self)@,
            },
    {
        match self.pending_status.take() {
            Some(pending) => {
                if now < pending.send_at {
                    self.pending_status = Some(pending);
                    None
                } else {
                    Some((pending.session, pending.message))
                }
            },
            None => None,
        }
    }

    /// The scenario that is under way, which is to be advanced and then handed back.
    pub fn take_scenario(&mut self) -> (scenario: Option<McquicWebTransportScenario>)
        requires
            old(self)@.wf(),
        ensures
            final(self)@.wf(),
            match scenario {
                Some(s) => old(self)@.scenario == Some(s@) && s@.wf(),
                None => old(self)@.scenario is None,
            },
            final(self)@ == (SessionsView { scenario: None, ..old(self)@ }),
    {
        self.scenario.take()
    }

    /// Takes in how far a scenario has come, or the error with which it ended: then the session
    /// gets a message. One that is complete is over.
    pub fn advance_mcquic_webtransport_scenario(
        &mut self,
        scenario: McquicWebTransportScenario,
        error: Option<&str>,
    ) -> (report: Option<(u64, Vec<u8>)>)
        requires
            old(self)@.wf(),
            old(self)@.scenario is None,
            scenario@.wf(),
        ensures
            final(self)@.wf(),
            match error {
                Some(e) => {
                    &&& report matches Some(r) && r.0 == scenario@.session && r.1@
                        == "MCQUIC-ERROR:".spec_bytes() + e.spec_bytes()
                    &&& final(self)@ == old(self)@
                },
                None => report is None && final(self)@ == (SessionsView {
                    scenario: if scenario@.phase == McquicWebTransportPhase::Complete {
                        None
                    } else {
                        Some(scenario@)
                    },
                    ..old(self)@
                }),
            },
    {
        match error {
            Some(error) => {
                let mut message = text_bytes("MCQUIC-ERROR:");
                append(&mut message, error.as_bytes());
                Some((scenario.session(), message))
            },
            None => {
                if !scenario.is_complete() {
                    self.scenario = Some(scenario);
                }
                None
            },
        }
    }
}

/// What is later done about a session is what its answer says: it is closed at once or 100 ms
/// later, a stream is opened on which the client is asked not to send, a message follows 400 ms
/// later, or 150 ms later where a scenario cannot run because another one does. Streams that it
/// wants are noted behind those of the other sessions, for this session.
pub proof fn law_sessions_are_followed_up(
    sessions: &mut WebTransportSessions,
    server: &mut Http3TestServer,
    request: SessionRequest,
    now: u64,
    clock: u64,
    reply: SessionReply,
    path: Seq<u8>,
    i: int,
)
    requires
        old(sessions)@.wf(),
        old(server).wf(),
        request_path(request@.headers) == Some(path),
        is_servable(session_route(path)),
        count_of(old(server)@.request_counts, path) < u64::MAX,
        old(sessions)@.can_count(request@),
        now + 400_000_000 <= u64::MAX,
        clock + 100_000_000 <= u64::MAX,
        call_ensures(
            WebTransportSessions::on_new_session,
            (sessions, server, &request, now, clock),
            reply,
        ),
    ensures
        ({
            let v = old(sessions)@;
            let w = final(sessions)@;
            let answer = v.answer(request@, old(server)@.request_counts);
            let next = answer.follow_up;
            let occupied = v.scenario is Some || v.pending_status is Some;
            &&& next is CloseNow ==> w.sessions_to_close == v.sessions_to_close.push(
                (now, request.session),
            )
            &&& next is CloseLater ==> w.sessions_to_close == v.sessions_to_close.push(
                ((clock + 100_000_000) as u64, request.session),
            )
            &&& next !is CloseNow && next !is CloseLater ==> w.sessions_to_close
                == v.sessions_to_close
            &&& next is StopSending ==> w.sessions_to_create_bidi_and_stop_sending
                == v.sessions_to_create_bidi_and_stop_sending.push(request.session)
            &&& next !is StopSending ==> w.sessions_to_create_bidi_and_stop_sending
                == v.sessions_to_create_bidi_and_stop_sending
            &&& next is SendControls ==> w.pending_status == Some(
                PendingView {
                    send_at: (now + 400_000_000) as u64,
                    session: request.session,
                    message: "unsolicited-controls-unicast".spec_bytes(),
                },
            )
            &&& next is Run && occupied ==> w.pending_status == Some(
                PendingView {
                    send_at: (now + 150_000_000) as u64,
                    session: request.session,
                    message:
                        "MCQUIC-ERROR:another MCQUIC WebTransport scenario is active".spec_bytes(),
                },
            )
            &&& next !is SendControls && !(next is Run && occupied) ==> w.pending_status
                == v.pending_status
            &&& reply.scenario is Some <==> next is Run && !occupied
            &&& next matches FollowUp::Run(kind) ==> (reply.scenario matches Some(k) ==> k == kind)
            &&& reply.sends_controls <==> next is SendControls
            &&& reply.response@ == answer.response && message_views(reply.messages@)
                == answer.messages
            &&& w.sessions_to_create_stream.len() == v.sessions_to_create_stream.len()
                + answer.streams.len()
            &&& 0 <= i < v.sessions_to_create_stream.len() ==> w.sessions_to_create_stream[i]
                == v.sessions_to_create_stream[i]
            &&& 0 <= i < answer.streams.len()
                ==> w.sessions_to_create_stream[v.sessions_to_create_stream.len() + i] == (
                request.session,
                answer.streams[i],
            )
            &&& w.streams_to_stop_sending == v.streams_to_stop_sending && w.scenario == v.scenario
        }),
{
}

/// What is remembered of a request for a session: it is one more for its path and for its
/// connection, the connection on which a client was first sent away, and that a client named
/// itself where it was asked to. What the answer depends on is what was remembered.
pub proof fn law_sessions_are_remembered(
    sessions: &mut WebTransportSessions,
    server: &mut Http3TestServer,
    request: SessionRequest,
    now: u64,
    clock: u64,
    reply: SessionReply,
    path: Seq<u8>,
    status: u16,
)
    requires
        old(sessions)@.wf(),
        old(server).wf(),
        request_path(request@.headers) == Some(path),
        is_servable(session_route(path)),
        count_of(old(server)@.request_counts, path) < u64::MAX,
        old(sessions)@.can_count(request@),
        now + 400_000_000 <= u64::MAX,
        clock + 100_000_000 <= u64::MAX,
        call_ensures(
            WebTransportSessions::on_new_session,
            (sessions, server, &request, now, clock),
            reply,
        ),
    ensures
        ({
            let v = old(sessions)@;
            let w = final(sessions)@;
            let counts = old(server)@.request_counts;
            let route = session_route(path);
            let answer = v.answer(request@, counts);
            let facts = v.facts(request@, route, path, counted(counts, path));
            let before = connection_sessions(v.sessions_per_connection, request.connection);
            &&& count_of(final(server)@.request_counts, path) == count_of(counts, path) + 1
            &&& connection_sessions(w.sessions_per_connection, request.connection) == before + 1
            &&& route is AuthChallenge && has_authorization(request@.headers)
                ==> w.auth_header_count == v.auth_header_count + 1
            &&& !(route is AuthChallenge && has_authorization(request@.headers))
                ==> w.auth_header_count == v.auth_header_count
            &&& route is RetryOnce && count_of(counts, path) == 0 ==> w.retry_first_connection
                == Some(request.connection_hash)
            &&& !(route is RetryOnce && count_of(counts, path) == 0) ==> w.retry_first_connection
                == v.retry_first_connection
            &&& answer.forgets_streams ==> final(server)@.bidi_streams == Set::<u64>::empty()
            &&& !answer.forgets_streams ==> final(server)@.bidi_streams == old(
                server,
            )@.bidi_streams
            &&& answer == session_answer(route, facts)
            &&& facts.multicast <==> asks_for_multicast(request@.headers)
            &&& facts.connection == request.connection_hash
            &&& facts.changed_connection <==> v.retry_first_connection != Some(
                request.connection_hash,
            )
            &&& facts.resumed <==> request.resumed
            &&& facts.connection_sessions == before + 1
            &&& facts.attempts == count_of(counts, path) + 1
            &&& facts.authorizations == v.auth_header_count
            &&& route !is AuthChallenge && path != "/mcquic_auth_challenge".spec_bytes()
                ==> facts.challenges == count_of(counts, "/mcquic_auth_challenge".spec_bytes())
            &&& route == SessionRoute::RedirectCount(status) && redirect_source(status) != path
                && redirect_target(status) != path ==> facts.sources == count_of(
                counts,
                redirect_source(status),
            ) && facts.targets == count_of(counts, redirect_target(status))
        }),
{
}

/// A session without a path is refused, and only counted for its connection. A scenario that was
/// set up runs; one that could not be is told as an error 150 ms later.
pub proof fn law_scenarios_are_set_up(
    sessions: &mut WebTransportSessions,
    server: &mut Http3TestServer,
    request: SessionRequest,
    now: u64,
    clock: u64,
    reply: SessionReply,
    creating: &mut WebTransportSessions,
    session: u64,
    kind: McquicWebTransportScenarioKind,
    error: Option<&str>,
)
    requires
        old(sessions)@.wf(),
        old(server).wf(),
        request_path(request@.headers) is None,
        old(sessions)@.can_count(request@),
        now + 20_000_000_000 <= u64::MAX,
        clock + 100_000_000 <= u64::MAX,
        call_ensures(
            WebTransportSessions::on_new_session,
            (sessions, server, &request, now, clock),
            reply,
        ),
        old(creating)@.wf(),
        call_ensures(
            WebTransportSessions::on_scenario_created,
            (creating, session, kind, now, error),
            (),
        ),
    ensures
        refuses(reply.response@, "404".spec_bytes()),
        reply.messages@.len() == 0 && !reply.sends_controls && reply.scenario is None,
        final(server)@ == old(server)@,
        final(sessions)@.sessions_to_close == old(sessions)@.sessions_to_close,
        final(sessions)@.pending_status == old(sessions)@.pending_status,
        error is None ==> final(creating)@.scenario == Some(fresh(session, kind, now))
            && final(creating)@.pending_status == old(creating)@.pending_status,
        error is Some ==> final(creating)@.scenario == old(creating)@.scenario,
        error matches Some(e) ==> final(creating)@.pending_status == Some(
            PendingView {
                send_at: (now + 150_000_000) as u64,
                session,
                message: "MCQUIC-ERROR:loopback SSM unavailable: ".spec_bytes() + e.spec_bytes(),
            },
        ),
{
    assert(message_views(reply.messages@).len() == reply.messages@.len());
}

/// What is due is done: sessions are closed, streams are opened, the one wanted last first, and
/// clients are asked once not to send, 200 ms after the stream was opened.
pub proof fn law_due_sessions(
    closing: &mut WebTransportSessions,
    now: u64,
    closed: Vec<u64>,
    opening: &mut WebTransportSessions,
    wanted: Option<(u64, NewStream)>,
    stopping: &mut WebTransportSessions,
    session: Option<u64>,
    noting: &mut WebTransportSessions,
    stream: u64,
    asking: &mut WebTransportSessions,
    streams: Vec<u64>,
)
    requires
        call_ensures(WebTransportSessions::maybe_close_session, (closing, now), closed),
        call_ensures(WebTransportSessions::maybe_create_wt_stream, (opening,), wanted),
        call_ensures(
            WebTransportSessions::maybe_create_wt_stream_and_stop_sending,
            (stopping,),
            session,
        ),
        now + 200_000_000 <= u64::MAX,
        call_ensures(WebTransportSessions::on_stream_to_stop, (noting, stream, now), ()),
        call_ensures(WebTransportSessions::maybe_stop_sending, (asking, now), streams),
    ensures
        closed@ == old(closing)@.sessions_to_close.filter(
            |e: (u64, u64)| e.0 <= now,
        ).map_values(|e: (u64, u64)| e.1),
        final(closing)@.sessions_to_close == old(closing)@.sessions_to_close.filter(
            |e: (u64, u64)| e.0 >= now,
        ),
        wanted is None <==> old(opening)@.sessions_to_create_stream.len() == 0,
        wanted matches Some(s) ==> final(opening)@.sessions_to_create_stream.push((s.0, s.1@))
            == old(opening)@.sessions_to_create_stream,
        session is None <==> old(stopping)@.sessions_to_create_bidi_and_stop_sending.len() == 0,
        session matches Some(s) ==> {
            let left = final(stopping)@.sessions_to_create_bidi_and_stop_sending;
            left.push(s) == old(stopping)@.sessions_to_create_bidi_and_stop_sending
        },
        final(noting)@.streams_to_stop_sending == old(noting)@.streams_to_stop_sending.push(
            ((now + 200_000_000) as u64, stream),
        ),
        streams@ == old(asking)@.streams_to_stop_sending.filter(
            |e: (u64, u64)| e.0 <= now,
        ).map_values(|e: (u64, u64)| e.1),
        final(asking)@.streams_to_stop_sending == old(asking)@.streams_to_stop_sending.filter(
            |e: (u64, u64)| e.0 > now,
        ),
{
    law_due(old(closing)@.sessions_to_close, now, true);
    law_due(old(asking)@.streams_to_stop_sending, now, false);
    let wants = old(opening)@.sessions_to_create_stream;
    if wants.len() > 0 {
        assert(wants.drop_last().push(wants.last()) =~= wants);
    }
    let stops = old(stopping)@.sessions_to_create_bidi_and_stop_sending;
    if stops.len() > 0 {
        assert(stops.drop_last().push(stops.last()) =~= stops);
    }
}

/// A message goes out once its moment has come, and only once. A scenario that is taken is handed
/// back unless it is complete or failed; one that failed is told to its session as an error.
pub proof fn law_scenarios_run(
    sending: &mut WebTransportSessions,
    now: u64,
    status: Option<(u64, Vec<u8>)>,
    taking: &mut WebTransportSessions,
    taken: Option<McquicWebTransportScenario>,
    advancing: &mut WebTransportSessions,
    scenario: McquicWebTransportScenario,
    error: Option<&str>,
    report: Option<(u64, Vec<u8>)>,
    asked: WebTransportSessions,
    busy: bool,
    fresh_sessions: WebTransportSessions,
)
    requires
        call_ensures(
            WebTransportSessions::maybe_send_mcquic_webtransport_status,
            (sending, now),
            status,
        ),
        old(taking)@.wf(),
        call_ensures(WebTransportSessions::take_scenario, (taking,), taken),
        old(advancing)@.wf(),
        old(advancing)@.scenario is None,
        scenario@.wf(),
        call_ensures(
            WebTransportSessions::advance_mcquic_webtransport_scenario,
            (advancing, scenario, error),
            report,
        ),
        call_ensures(WebTransportSessions::is_busy, (&asked,), busy),
        call_ensures(WebTransportSessions::new, (), fresh_sessions),
    ensures
        status is Some <==> (old(sending)@.pending_status matches Some(p) && p.send_at <= now),
        status matches Some(s) ==> s.0 == old(sending)@.pending_status->0.session && s.1@ == old(
            sending,
        )@.pending_status->0.message && final(sending)@.pending_status is None,
        status is None ==> final(sending)@ == old(sending)@,
        taken is Some <==> old(taking)@.scenario is Some,
        taken matches Some(s) ==> old(taking)@.scenario == Some(s@),
        final(taking)@.scenario is None,
        report is Some <==> error is Some,
        report matches Some(r) ==> r.0 == scenario@.session && r.1@ == "MCQUIC-ERROR:".spec_bytes()
            + error->0.spec_bytes(),
        final(advancing)@.scenario is Some <==> error is None && scenario@.phase !is Complete,
        final(advancing)@.scenario matches Some(s) ==> s == scenario@,
        final(advancing)@.pending_status == old(advancing)@.pending_status,
        busy <==> asked@.sessions_to_close.len() > 0 || asked@.streams_to_stop_sending.len() > 0
            || asked@.scenario is Some || asked@.pending_status is Some,
        !fresh_sessions@.busy() && fresh_sessions@.sessions_to_create_stream.len() == 0,
        fresh_sessions@.auth_header_count == 0 && fresh_sessions@.retry_first_connection is None,
{
}

}
