//! The server that answers by path: what it keeps between the events of its connections.
use crate::events::StreamType;
use crate::headers::{header_views, Header, HeaderView};
use crate::server::counts::{count_of, counted, RequestCounts};
use crate::server::requests::{
    action_views, answer, answer_post, answer_request, data_view, find_path, find_route,
    is_answerable, post_answer, request_path, route, RequestAction, RequestActionView, Route,
};
use crate::server::responses::{law_no_loss, left_over, ResponseQueue, StreamStep};
use crate::server::timed::{due_items, kept_entries, law_due, TimedList};
use std::collections::{HashMap, HashSet};
use vstd::prelude::*;

verus! {

broadcast use vstd::std_specs::hash::group_hash_axioms;

/// A second, in nanoseconds.
pub const SECOND: u64 = 1_000_000_000;

/// What the server keeps.
pub struct Http3TestServer {
    posts: HashMap<u64, usize>,
    responses: ResponseQueue,
    connections_to_close: TimedList,
    bidi_streams: HashSet<u64>,
    unidi_conn_to_stream: HashMap<u64, u64>,
    unidi_echo_back: HashMap<u64, u64>,
    received_datagram: Option<Vec<u8>>,
    request_counts: RequestCounts,
    stuck_0rtt_mode: bool,
    stuck_0rtt_activated: bool,
}

/// The contents of a [`Http3TestServer`]. Streams and connections are numbers.
#[verifier::ext_equal]
pub struct ServerView {
    /// How much of each upload has come.
    pub posts: Map<u64, nat>,
    /// What the streams did not take yet.
    pub responses: Map<u64, Seq<u8>>,
    pub connections_to_close: Seq<(u64, u64)>,
    /// The streams that give back what comes in on them.
    pub bidi_streams: Set<u64>,
    /// The stream of each connection that waits for one to give back.
    pub unidi_conn_to_stream: Map<u64, u64>,
    /// The stream on which what comes in on another is given back.
    pub unidi_echo_back: Map<u64, u64>,
    pub received_datagram: Option<Seq<u8>>,
    pub request_counts: Map<Seq<u8>, u64>,
    pub stuck_0rtt_mode: bool,
    pub stuck_0rtt_activated: bool,
}

impl View for Http3TestServer {
    type V = ServerView;

    closed spec fn view(&self) -> ServerView {
        ServerView {
            posts: self.posts@.map_values(|n: usize| n as nat),
            responses: self.responses@,
            connections_to_close: self.connections_to_close@,
            bidi_streams: self.bidi_streams@,
            unidi_conn_to_stream: self.unidi_conn_to_stream@,
            unidi_echo_back: self.unidi_echo_back@,
            received_datagram: data_view(self.received_datagram),
            request_counts: self.request_counts@,
            stuck_0rtt_mode: self.stuck_0rtt_mode,
            stuck_0rtt_activated: self.stuck_0rtt_activated,
        }
    }
}

/// What the server does about data that came in.
#[derive(Debug)]
pub enum DataStep {
    /// Nothing, and look at the next event.
    Go,
    /// Nothing, and leave the other events for later.
    Pause,
    /// Send these bytes back on the stream and close it, and leave the other events for later.
    Echo(Vec<u8>),
    /// Send these bytes on another stream and close it, and leave the other events for later.
    EchoBack(u64, Vec<u8>),
    /// Answer the upload, and look at the next event.
    Answer(Vec<RequestAction>),
}

/// The contents of a [`DataStep`].
pub enum DataStepView {
    Go,
    Pause,
    Echo(Seq<u8>),
    EchoBack(u64, Seq<u8>),
    Answer(Seq<RequestActionView>),
}

impl View for DataStep {
    type V = DataStepView;

    open spec fn view(&self) -> DataStepView {
        match *self {
            DataStep::Go => DataStepView::Go,
            DataStep::Pause => DataStepView::Pause,
            DataStep::Echo(data) => DataStepView::Echo(data@),
            DataStep::EchoBack(stream, data) => DataStepView::EchoBack(stream, data@),
            DataStep::Answer(actions) => DataStepView::Answer(action_views(actions@)),
        }
    }
}

/// What the connections have to send.
#[derive(Clone, Copy, Debug, PartialEq, Eq, Structural)]
pub enum Output {
    Nothing,
    Datagrams,
    /// Nothing before this many nanoseconds.
    Callback(u64),
}

/// How soon the server wants to be called where there is something to do later.
pub const MIN_INTERVAL: u64 = 100_000_000;

impl ServerView {
    /// A server that has seen nothing.
    pub open spec fn fresh() -> ServerView {
        ServerView {
            posts: Map::empty(),
            responses: Map::empty(),
            connections_to_close: Seq::empty(),
            bidi_streams: Set::empty(),
            unidi_conn_to_stream: Map::empty(),
            unidi_echo_back: Map::empty(),
            received_datagram: None,
            request_counts: Map::empty(),
            stuck_0rtt_mode: false,
            stuck_0rtt_activated: false,
        }
    }

    /// What a request is answered.
    pub open spec fn request_answer(
        self,
        headers: Seq<HeaderView>,
        connection_hash: u64,
    ) -> Seq<RequestActionView> {
        answer(headers_route(headers), headers, self.received_datagram, connection_hash)
    }

    /// The server after a request.
    pub open spec fn after_request(
        self,
        stream: u64,
        connection: u64,
        headers: Seq<HeaderView>,
        clock: u64,
    ) -> ServerView {
        match request_path(headers) {
            None => self,
            Some(path) => {
                let counted = ServerView {
                    request_counts: counted(self.request_counts, path),
                    ..self
                };
                match route(path) {
                    Route::SetStuckZeroRtt => ServerView { stuck_0rtt_mode: true, ..counted },
                    Route::CloseAfter1000Ms => ServerView {
                        connections_to_close: self.connections_to_close.push(
                            ((clock + SECOND) as u64, connection),
                        ),
                        ..counted
                    },
                    Route::Post => ServerView { posts: self.posts.insert(stream, 0), ..counted },
                    Route::GetWebTransportDatagram => ServerView {
                        received_datagram: None,
                        ..counted
                    },
                    _ => counted,
                }
            },
        }
    }

    /// What is done about data.
    pub open spec fn data_step(
        self,
        stream: u64,
        active: bool,
        data: Seq<u8>,
        fin: bool,
    ) -> DataStepView {
        if self.bidi_streams.contains(stream) {
            if active {
                DataStepView::Echo(data)
            } else {
                DataStepView::Pause
            }
        } else if self.unidi_echo_back.contains_key(stream) {
            DataStepView::EchoBack(self.unidi_echo_back[stream], data)
        } else if fin && self.posts.contains_key(stream) {
            DataStepView::Answer(post_answer(self.posts[stream] + data.len()))
        } else {
            DataStepView::Go
        }
    }

    /// Whether so many more bytes of a stream can be counted, where they are counted.
    pub open spec fn can_count(self, stream: u64, len: nat) -> bool {
        self.bidi_streams.contains(stream) || self.unidi_echo_back.contains_key(stream)
            || !self.posts.contains_key(stream) || self.posts[stream] + len <= usize::MAX
    }

    /// The server after data.
    pub open spec fn after_data(self, stream: u64, data: Seq<u8>, fin: bool) -> ServerView {
        if self.bidi_streams.contains(stream) {
            self
        } else if self.unidi_echo_back.contains_key(stream) {
            ServerView { unidi_echo_back: self.unidi_echo_back.remove(stream), ..self }
        } else if self.posts.contains_key(stream) {
            ServerView {
                posts: if fin {
                    self.posts.remove(stream)
                } else {
                    self.posts.insert(stream, self.posts[stream] + data.len())
                },
                ..self
            }
        } else {
            self
        }
    }

    /// The server after the client opened a stream.
    pub open spec fn after_stream(
        self,
        stream: u64,
        connection: u64,
        is_http: bool,
        is_bidi: bool,
    ) -> ServerView {
        if is_http {
            self
        } else if is_bidi {
            ServerView { bidi_streams: self.bidi_streams.insert(stream), ..self }
        } else if self.unidi_conn_to_stream.contains_key(connection) {
            ServerView {
                unidi_conn_to_stream: self.unidi_conn_to_stream.remove(connection),
                unidi_echo_back: self.unidi_echo_back.insert(
                    stream,
                    self.unidi_conn_to_stream[connection],
                ),
                ..self
            }
        } else {
            self
        }
    }

    /// The server after it opened a stream that waits for what the client sends.
    pub open spec fn after_opened(
        self,
        stream: u64,
        connection: u64,
        stream_type: StreamType,
    ) -> ServerView {
        match stream_type {
            StreamType::UniDi => ServerView {
                unidi_conn_to_stream: self.unidi_conn_to_stream.insert(connection, stream),
                ..self
            },
            StreamType::BiDi => ServerView {
                bidi_streams: self.bidi_streams.insert(stream),
                ..self
            },
        }
    }
}

/// What a request asks for; one without a path asks for nothing special.
pub open spec fn headers_route(headers: Seq<HeaderView>) -> Route {
    match request_path(headers) {
        Some(path) => route(path),
        None => Route::Other,
    }
}

impl Http3TestServer {
    /// No path is counted twice.
    pub closed spec fn wf(&self) -> bool {
        self.request_counts.wf()
    }

    pub fn new() -> (server: Self)
        ensures
            server.wf(),
            server@ == ServerView::fresh(),
    {
        let server = Http3TestServer {
            posts: HashMap::new(),
            responses: ResponseQueue::new(),
            connections_to_close: TimedList::new(),
            bidi_streams: HashSet::new(),
            unidi_conn_to_stream: HashMap::new(),
            unidi_echo_back: HashMap::new(),
            received_datagram: None,
            request_counts: RequestCounts::new(),
            stuck_0rtt_mode: false,
            stuck_0rtt_activated: false,
        };
        assert(server@ =~= ServerView::fresh());
        server
    }

    /// How often a path was asked for.
    pub fn requests(&self, path: &[u8]) -> (count: u64)
        requires
            self.wf(),
        ensures
            count == count_of(self@.request_counts, path@),
    {
        self.request_counts.get(path)
    }

    /// Counts that a path was asked for.
    pub fn count_request(&mut self, path: &[u8])
        requires
            old(self).wf(),
            count_of(old(self)@.request_counts, path@) < u64::MAX,
        ensures
            final(self).wf(),
            final(self)@ == (ServerView {
                request_counts: counted(old(self)@.request_counts, path@),
                ..old(self)@
            }),
    {
        self.request_counts.increment(path);
    }

    /// Answers a request. The number `connection_hash` tells connections apart for the client,
    /// and `clock` is the time.
    pub fn on_headers(
        &mut self,
        stream: u64,
        connection: u64,
        connection_hash: u64,
        headers: &Vec<Header>,
        clock: u64,
    ) -> (actions: Vec<RequestAction>)
        requires
            old(self).wf(),
            is_answerable(headers_route(header_views(headers@)), header_views(headers@)),
            request_path(header_views(headers@)) matches Some(path) ==> count_of(
                old(self)@.request_counts,
                path,
            ) < u64::MAX,
            headers_route(header_views(headers@)) == Route::CloseAfter1000Ms ==> clock + SECOND
                <= u64::MAX,
        ensures
            final(self).wf(),
            action_views(actions@) == old(self)@.request_answer(
                header_views(headers@),
                connection_hash,
            ),
            final(self)@ == old(self)@.after_request(
                stream,
                connection,
                header_views(headers@),
                clock,
            ),
    {
        let found = match find_path(headers) {
            Some(path) => {
                self.count_request(path);
                find_route(path)
            },
            None => Route::Other,
        };
        let actions = answer_request(found, headers, &self.received_datagram, connection_hash);
        if found == Route::SetStuckZeroRtt {
            self.stuck_0rtt_mode = true;
        } else if found == Route::CloseAfter1000Ms {
            self.connections_to_close.schedule(clock + SECOND, connection);
        } else if found == Route::Post {
            self.posts.insert(stream, 0);
        } else if found == Route::GetWebTransportDatagram {
            self.received_datagram = None;
        }
        assert(self@ =~= old(self)@.after_request(
            stream,
            connection,
            header_views(headers@),
            clock,
        ));
        actions
    }

    /// Whether so many more bytes of a stream can be counted.
    pub fn can_count(&self, stream: u64, len: usize) -> (can: bool)
        requires
            self.wf(),
        ensures
            can == self@.can_count(stream, len as nat),
    {
        if self.bidi_streams.contains(&stream) || self.unidi_echo_back.contains_key(&stream) {
            return true;
        }
        match self.posts.get(&stream) {
            Some(received) => received.checked_add(len).is_some(),
            None => true,
        }
    }

    /// Takes in data of a stream; `active` tells whether its connection still is.
    pub fn on_data(&mut self, stream: u64, active: bool, data: Vec<u8>, fin: bool) -> (step:
        DataStep)
        requires
            old(self).wf(),
            old(self)@.can_count(stream, data@.len()),
        ensures
            final(self).wf(),
            step@ == old(self)@.data_step(stream, active, data@, fin),
            final(self)@ == old(self)@.after_data(stream, data@, fin),
    {
        if self.bidi_streams.contains(&stream) {
            if active {
                return DataStep::Echo(data);
            } else {
                return DataStep::Pause;
            }
        }
        if let Some(echo_back) = self.unidi_echo_back.remove(&stream) {
            assert(self@ =~= old(self)@.after_data(stream, data@, fin));
            return DataStep::EchoBack(echo_back, data);
        }
        assert(self.unidi_echo_back@ =~= old(self).unidi_echo_back@);
        let received: Option<usize> = self.posts.remove(&stream);
        match received {
            Some(received) => {
                let total: usize = received + data.len();
                if fin {
                    assert(self@ =~= old(self)@.after_data(stream, data@, fin));
                    return DataStep::Answer(answer_post(total));
                }
                self.posts.insert(stream, total);
                assert(self@ =~= old(self)@.after_data(stream, data@, fin));
                DataStep::Go
            },
            None => {
                assert(self.posts@ =~= old(self).posts@);
                assert(self@ =~= old(self)@);
                DataStep::Go
            },
        }
    }

    /// Takes in that the client opened a stream.
    pub fn on_new_stream(&mut self, stream: u64, connection: u64, is_http: bool, is_bidi: bool)
        requires
            old(self).wf(),
        ensures
            final(self).wf(),
            final(self)@ == old(self)@.after_stream(stream, connection, is_http, is_bidi),
    {
        if is_http {
            return ;
        }
        if is_bidi {
            self.bidi_streams.insert(stream);
        } else {
            match self.unidi_conn_to_stream.remove(&connection) {
                Some(s) => {
                    self.unidi_echo_back.insert(stream, s);
                },
                None => {
                    assert(self.unidi_conn_to_stream@ =~= old(self).unidi_conn_to_stream@);
                },
            }
        }
        assert(self@ =~= old(self)@.after_stream(stream, connection, is_http, is_bidi));
    }

    /// Takes in a datagram. Only the last one is kept.
    pub fn on_datagram(&mut self, datagram: Vec<u8>)
        requires
            old(self).wf(),
        ensures
            final(self).wf(),
            final(self)@ == (ServerView { received_datagram: Some(datagram@), ..old(self)@ }),
    {
        self.received_datagram = Some(datagram);
    }

    /// Takes in that the server opened a stream that waits for what the client sends.
    pub fn on_stream_opened(&mut self, stream: u64, connection: u64, stream_type: StreamType)
        requires
            old(self).wf(),
        ensures
            final(self).wf(),
            final(self)@ == old(self)@.after_opened(stream, connection, stream_type),
    {
        match stream_type {
            StreamType::UniDi => {
                self.unidi_conn_to_stream.insert(connection, stream);
            },
            StreamType::BiDi => {
                self.bidi_streams.insert(stream);
            },
        }
        assert(self@ =~= old(self)@.after_opened(stream, connection, stream_type));
    }

    /// No longer gives back what comes in on the streams so far.
    pub fn forget_streams(&mut self)
        requires
            old(self).wf(),
        ensures
            final(self).wf(),
            final(self)@ == (ServerView { bidi_streams: Set::empty(), ..old(self)@ }),
    {
        self.bidi_streams.clear();
        assert(self@ =~= (ServerView { bidi_streams: Set::empty(), ..old(self)@ }));
    }

    /// What to do with a body that is to be sent on a stream.
    pub fn new_response(&self, data: Vec<u8>) -> (step: StreamStep)
        ensures
            data@.len() == 0 ==> step is Close,
            data@.len() > 0 ==> (step matches StreamStep::Send(d) && d@ == data@),
    {
        ResponseQueue::new_response(data)
    }

    /// Takes in how many bytes of a new body the stream took, or that it failed.
    pub fn response_sent(&mut self, stream: u64, data: Vec<u8>, sent: Option<usize>) -> (step:
        StreamStep)
        requires
            old(self).wf(),
            sent matches Some(n) ==> n <= data@.len(),
        ensures
            final(self).wf(),
            match sent {
                None => step is Nothing && final(self)@ == old(self)@,
                Some(n) => if n < data@.len() {
                    step is Nothing && final(self)@ == (ServerView {
                        responses: old(self)@.responses.insert(stream, left_over(data@, n)),
                        ..old(self)@
                    })
                } else {
                    step is Close && final(self)@ == old(self)@
                },
            },
    {
        self.responses.response_sent(stream, data, sent)
    }

    /// What to send on a stream that can be written to.
    pub fn handle_stream_writable(&self, stream: u64) -> (step: StreamStep)
        ensures
            if self@.responses.contains_key(stream) {
                step matches StreamStep::Send(d) && d@ == self@.responses[stream]
            } else {
                step is Nothing
            },
    {
        self.responses.stream_writable(stream)
    }

    /// Takes in how many of the waiting bytes the stream took, or that it failed.
    pub fn writable_sent(&mut self, stream: u64, sent: Option<usize>) -> (step: StreamStep)
        requires
            old(self).wf(),
            old(self)@.responses.contains_key(stream),
            sent matches Some(n) ==> n <= old(self)@.responses[stream].len(),
        ensures
            final(self).wf(),
            match sent {
                None => step is Nothing && final(self)@ == old(self)@,
                Some(n) => if n < old(self)@.responses[stream].len() {
                    step is Nothing && final(self)@ == (ServerView {
                        responses: old(self)@.responses.insert(
                            stream,
                            left_over(old(self)@.responses[stream], n),
                        ),
                        ..old(self)@
                    })
                } else {
                    step is Close && final(self)@ == (ServerView {
                        responses: old(self)@.responses.remove(stream),
                        ..old(self)@
                    })
                },
            },
    {
        self.responses.writable_sent(stream, sent)
    }

    /// The connections that are to be closed.
    pub fn maybe_close_connection(&mut self, clock: u64) -> (connections: Vec<u64>)
        requires
            old(self).wf(),
        ensures
            final(self).wf(),
            connections@ == due_items(old(self)@.connections_to_close, clock),
            final(self)@ == (ServerView {
                connections_to_close: kept_entries(old(self)@.connections_to_close, clock, true),
                ..old(self)@
            }),
    {
        self.connections_to_close.take_due(clock, true)
    }

    /// Whether the server no longer looks at what comes in, as one that is stuck in a handshake.
    pub fn ignores_datagrams(&self) -> (ignores: bool)
        ensures
            ignores == (self@.stuck_0rtt_mode && self@.stuck_0rtt_activated),
    {
        self.stuck_0rtt_mode && self.stuck_0rtt_activated
    }

    /// Notes that what came in was looked at; `busy` tells whether the sessions have something to
    /// do later. Where anything is to be done later, the server is called early.
    pub fn datagrams_processed(&mut self, output: Output, busy: bool) -> (adjusted: Output)
        requires
            old(self).wf(),
        ensures
            final(self).wf(),
            final(self)@ == (ServerView {
                stuck_0rtt_activated: old(self)@.stuck_0rtt_activated
                    || old(self)@.stuck_0rtt_mode,
                ..old(self)@
            }),
            adjusted == called_early(
                output,
                busy || old(self)@.connections_to_close.len() > 0,
            ),
    {
        if self.stuck_0rtt_mode && !self.stuck_0rtt_activated {
            self.stuck_0rtt_activated = true;
        }
        call_early(output, busy || !self.connections_to_close.is_empty())
    }
}

/// What is sent, with a wait that is short where something is to be done later.
pub fn call_early(output: Output, busy: bool) -> (adjusted: Output)
    ensures
        adjusted == called_early(output, busy),
{
    if !busy {
        return output;
    }
    match output {
        Output::Nothing => Output::Callback(MIN_INTERVAL),
        Output::Datagrams => Output::Datagrams,
        Output::Callback(d) => if d < MIN_INTERVAL {
            Output::Callback(d)
        } else {
            Output::Callback(MIN_INTERVAL)
        },
    }
}

/// What is sent, with a wait that is short where something is to be done later.
pub open spec fn called_early(output: Output, busy: bool) -> Output {
    if !busy {
        output
    } else {
        match output {
            Output::Nothing => Output::Callback(MIN_INTERVAL),
            Output::Datagrams => Output::Datagrams,
            Output::Callback(d) => Output::Callback(
                if d < MIN_INTERVAL {
                    d
                } else {
                    MIN_INTERVAL
                },
            ),
        }
    }
}

/// Where something is to be done later, the server does not wait for long, and never longer than
/// it would otherwise.
pub proof fn law_called_early(output: Output)
    ensures
        called_early(output, true) != Output::Nothing,
        called_early(output, true) matches Output::Callback(d) ==> d <= MIN_INTERVAL,
        output matches Output::Callback(d) ==> (called_early(output, true) matches Output::Callback(
            e,
        ) && e <= d),
        output == Output::Datagrams ==> called_early(output, true) == output,
{
}

/// A request is counted under its path, and is answered as its path asks; besides that it changes
/// the server only where its path is one of four: the handshakes get stuck, the connection is
/// closed a second later, an upload begins at zero, or the datagram is given away.
pub proof fn law_requests_change_the_server(
    server: &mut Http3TestServer,
    stream: u64,
    connection: u64,
    connection_hash: u64,
    headers: Vec<Header>,
    clock: u64,
    actions: Vec<RequestAction>,
    path: Seq<u8>,
)
    requires
        old(server).wf(),
        is_answerable(headers_route(header_views(headers@)), header_views(headers@)),
        request_path(header_views(headers@)) == Some(path),
        count_of(old(server)@.request_counts, path) < u64::MAX,
        route(path) is CloseAfter1000Ms ==> clock + 1_000_000_000 <= u64::MAX,
        call_ensures(
            Http3TestServer::on_headers,
            (server, stream, connection, connection_hash, &headers, clock),
            actions,
        ),
    ensures
        ({
            let v = old(server)@;
            let w = final(server)@;
            let r = route(path);
            &&& action_views(actions@) == answer(
                r,
                header_views(headers@),
                v.received_datagram,
                connection_hash,
            )
            &&& count_of(w.request_counts, path) == count_of(v.request_counts, path) + 1
            &&& w.stuck_0rtt_mode <==> v.stuck_0rtt_mode || r is SetStuckZeroRtt
            &&& r is CloseAfter1000Ms ==> w.connections_to_close == v.connections_to_close.push(
                ((clock + 1_000_000_000) as u64, connection),
            )
            &&& r !is CloseAfter1000Ms ==> w.connections_to_close == v.connections_to_close
            &&& r is Post ==> w.posts.contains_key(stream) && w.posts[stream] == 0
            &&& r !is Post ==> w.posts == v.posts
            &&& r is GetWebTransportDatagram ==> w.received_datagram is None
            &&& r !is GetWebTransportDatagram ==> w.received_datagram == v.received_datagram
            &&& w.bidi_streams == v.bidi_streams && w.responses == v.responses
            &&& w.unidi_conn_to_stream == v.unidi_conn_to_stream
            &&& w.unidi_echo_back == v.unidi_echo_back
            &&& w.stuck_0rtt_activated == v.stuck_0rtt_activated
        }),
{
}

/// What comes in on a stream that gives back is given back on it, unless its connection is gone;
/// what comes in on one that is linked to another is given back there, once; what comes in of an
/// upload is counted, and its end is answered with the count.
pub proof fn law_data_goes_its_way(
    server: &mut Http3TestServer,
    stream: u64,
    active: bool,
    data: Vec<u8>,
    fin: bool,
    step: DataStep,
)
    requires
        old(server).wf(),
        old(server)@.can_count(stream, data@.len()),
        call_ensures(Http3TestServer::on_data, (server, stream, active, data, fin), step),
    ensures
        ({
            let v = old(server)@;
            let w = final(server)@;
            let gives_back = v.bidi_streams.contains(stream);
            let linked = !gives_back && v.unidi_echo_back.contains_key(stream);
            let upload = !gives_back && !linked && v.posts.contains_key(stream);
            &&& step is Echo <==> gives_back && active
            &&& step is Pause <==> gives_back && !active
            &&& step is EchoBack <==> linked
            &&& step is Answer <==> upload && fin
            &&& step@ matches DataStepView::Echo(d) ==> d == data@
            &&& step@ matches DataStepView::EchoBack(to, d) ==> to == v.unidi_echo_back[stream] && d
                == data@
            &&& step@ matches DataStepView::Answer(a) ==> a == post_answer(
                v.posts[stream] + data@.len(),
            )
            &&& linked ==> !w.unidi_echo_back.contains_key(stream)
            &&& !linked ==> w.unidi_echo_back == v.unidi_echo_back
            &&& upload && fin ==> !w.posts.contains_key(stream)
            &&& upload && !fin ==> w.posts.contains_key(stream) && w.posts[stream]
                == v.posts[stream] + data@.len()
            &&& !upload ==> w.posts == v.posts
            &&& w.bidi_streams == v.bidi_streams && w.request_counts == v.request_counts
            &&& w.received_datagram == v.received_datagram && w.responses == v.responses
        }),
{
    let v = old(server)@;
    if v.bidi_streams.contains(stream) {
        assert(step is Echo || step is Pause);
    }
}

/// A stream that the client opens for a session is one that gives back where both sides can send;
/// otherwise it is linked to the stream that waits on its connection, if one does. A stream that
/// the server opens waits, or gives back.
pub proof fn law_streams_are_linked(
    server: &mut Http3TestServer,
    stream: u64,
    connection: u64,
    is_http: bool,
    is_bidi: bool,
    opening: &mut Http3TestServer,
    opened: u64,
    stream_type: StreamType,
    forgetting: &mut Http3TestServer,
    receiving: &mut Http3TestServer,
    datagram: Vec<u8>,
)
    requires
        old(server).wf(),
        call_ensures(
            Http3TestServer::on_new_stream,
            (server, stream, connection, is_http, is_bidi),
            (),
        ),
        old(opening).wf(),
        call_ensures(
            Http3TestServer::on_stream_opened,
            (opening, opened, connection, stream_type),
            (),
        ),
        old(forgetting).wf(),
        call_ensures(Http3TestServer::forget_streams, (forgetting,), ()),
        old(receiving).wf(),
        call_ensures(Http3TestServer::on_datagram, (receiving, datagram), ()),
    ensures
        ({
            let v = old(server)@;
            let w = final(server)@;
            let link = !is_http && !is_bidi && v.unidi_conn_to_stream.contains_key(connection);
            &&& w.bidi_streams.contains(stream) <==> v.bidi_streams.contains(stream) || (!is_http
                && is_bidi)
            &&& link ==> w.unidi_echo_back.contains_key(stream) && w.unidi_echo_back[stream]
                == v.unidi_conn_to_stream[connection] && !w.unidi_conn_to_stream.contains_key(
                connection,
            )
            &&& !link ==> w.unidi_echo_back == v.unidi_echo_back && w.unidi_conn_to_stream
                == v.unidi_conn_to_stream
            &&& w.posts == v.posts && w.responses == v.responses
        }),
        stream_type is UniDi ==> final(opening)@.unidi_conn_to_stream.contains_key(connection)
            && final(opening)@.unidi_conn_to_stream[connection] == opened
            && final(opening)@.bidi_streams == old(opening)@.bidi_streams,
        stream_type is BiDi ==> final(opening)@.bidi_streams.contains(opened)
            && final(opening)@.unidi_conn_to_stream == old(opening)@.unidi_conn_to_stream,
        final(forgetting)@.bidi_streams == Set::<u64>::empty(),
        final(forgetting)@.unidi_echo_back == old(forgetting)@.unidi_echo_back,
        final(forgetting)@.posts == old(forgetting)@.posts,
        final(receiving)@.received_datagram == Some(datagram@),
        final(receiving)@.posts == old(receiving)@.posts,
{
}

/// The server forgets nothing of what the streams did not take, and closes a connection once its
/// moment has come. It starts with nothing to do.
pub proof fn law_server_duties(
    server: &mut Http3TestServer,
    clock: u64,
    connections: Vec<u64>,
    fresh: Http3TestServer,
    asked: Http3TestServer,
    path: &[u8],
    count: u64,
    stream: u64,
    next: StreamStep,
    counting: &mut Http3TestServer,
    len: usize,
    can: bool,
)
    requires
        call_ensures(Http3TestServer::new, (), fresh),
        old(server).wf(),
        call_ensures(Http3TestServer::maybe_close_connection, (server, clock), connections),
        asked.wf(),
        call_ensures(Http3TestServer::requests, (&asked, path), count),
        call_ensures(Http3TestServer::handle_stream_writable, (&asked, stream), next),
        call_ensures(Http3TestServer::can_count, (&asked, stream, len), can),
        old(counting).wf(),
        count_of(old(counting)@.request_counts, path@) < u64::MAX,
        call_ensures(Http3TestServer::count_request, (counting, path), ()),
    ensures
        fresh@.connections_to_close.len() == 0 && fresh@.received_datagram is None,
        !fresh@.stuck_0rtt_mode && !fresh@.stuck_0rtt_activated,
        fresh@.posts.dom() == Set::<u64>::empty() && fresh@.responses.dom() == Set::<u64>::empty(),
        fresh@.bidi_streams == Set::<u64>::empty(),
        connections@ == old(server)@.connections_to_close.filter(
            |e: (u64, u64)| e.0 <= clock,
        ).map_values(|e: (u64, u64)| e.1),
        final(server)@.connections_to_close == old(server)@.connections_to_close.filter(
            |e: (u64, u64)| e.0 >= clock,
        ),
        count == count_of(asked@.request_counts, path@),
        next is Send <==> asked@.responses.contains_key(stream),
        next matches StreamStep::Send(d) ==> d@ == asked@.responses[stream],
        next !is Close,
        count_of(final(counting)@.request_counts, path@) == count_of(
            old(counting)@.request_counts,
            path@,
        ) + 1,
        !can <==> !asked@.bidi_streams.contains(stream) && !asked@.unidi_echo_back.contains_key(
            stream,
        ) && asked@.posts.contains_key(stream) && asked@.posts[stream] + len > usize::MAX,
{
    law_due(old(server)@.connections_to_close, clock, true);
}

/// What a stream took of a body and what the server keeps of it are the body.
pub proof fn law_bodies_are_kept(
    server: &mut Http3TestServer,
    stream: u64,
    data: Vec<u8>,
    sent: Option<usize>,
    step: StreamStep,
    waiting: &mut Http3TestServer,
    taken: Option<usize>,
    then: StreamStep,
    asked: Http3TestServer,
    first: StreamStep,
)
    requires
        old(server).wf(),
        sent matches Some(n) ==> n <= data@.len(),
        call_ensures(Http3TestServer::response_sent, (server, stream, data, sent), step),
        old(waiting).wf(),
        old(waiting)@.responses.contains_key(stream),
        taken matches Some(n) ==> n <= old(waiting)@.responses[stream].len(),
        call_ensures(Http3TestServer::writable_sent, (waiting, stream, taken), then),
        call_ensures(Http3TestServer::new_response, (&asked, data), first),
    ensures
        first is Close <==> data@.len() == 0,
        first matches StreamStep::Send(d) ==> d@ == data@,
        first !is Nothing,
        step is Close <==> (sent matches Some(n) && n == data@.len()),
        sent matches Some(n) ==> n < data@.len() ==> final(server)@.responses.contains_key(stream)
            && data@.take(n as int) + final(server)@.responses[stream] == data@,
        sent is None ==> final(server)@ == old(server)@,
        then is Close <==> (taken matches Some(n) && n == old(waiting)@.responses[stream].len()),
        then is Close <==> !final(waiting)@.responses.contains_key(stream),
        taken matches Some(n) ==> n < old(waiting)@.responses[stream].len() ==> old(
            waiting,
        )@.responses[stream].take(n as int) + final(waiting)@.responses[stream] == old(
            waiting,
        )@.responses[stream],
        taken is None ==> final(waiting)@ == old(waiting)@,
        step !is Send && then !is Send,
{
    if let Some(n) = sent {
        law_no_loss(data@, n);
    }
    if let Some(n) = taken {
        law_no_loss(old(waiting)@.responses[stream], n);
    }
}

/// Handshakes get stuck from the first look at what came in after they were to; until then what
/// comes in is looked at. Where something is to be done later, the server is called within 100 ms.
pub proof fn law_looking_at_datagrams(
    asked: Http3TestServer,
    ignores: bool,
    server: &mut Http3TestServer,
    output: Output,
    busy: bool,
    adjusted: Output,
)
    requires
        call_ensures(Http3TestServer::ignores_datagrams, (&asked,), ignores),
        old(server).wf(),
        call_ensures(Http3TestServer::datagrams_processed, (server, output, busy), adjusted),
    ensures
        ignores <==> asked@.stuck_0rtt_mode && asked@.stuck_0rtt_activated,
        final(server)@.stuck_0rtt_activated <==> old(server)@.stuck_0rtt_activated || old(
            server,
        )@.stuck_0rtt_mode,
        final(server)@.stuck_0rtt_mode == old(server)@.stuck_0rtt_mode,
        final(server)@.connections_to_close == old(server)@.connections_to_close,
        ({
            let later = busy || old(server)@.connections_to_close.len() > 0;
            &&& !later || output is Datagrams ==> adjusted == output
            &&& later && output is Nothing ==> adjusted == Output::Callback(100_000_000)
            &&& later && output is Callback ==> adjusted is Callback && adjusted->Callback_0
                <= 100_000_000 && adjusted->Callback_0 <= output->Callback_0 && (
            adjusted->Callback_0 == 100_000_000 || adjusted == output)
        }),
{
}

}
