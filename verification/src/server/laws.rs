//! What holds of the server over several events.
use crate::events::StreamType;
use crate::headers::HeaderView;
use crate::server::counts::counted;
use crate::server::requests::{
    datagram_answer, empty_answer, number_field, text_field, RequestActionView, Route,
};
use crate::server::scenario::McquicWebTransportScenarioKind;
use crate::server::test_server::{headers_route, DataStepView, ServerView};
use crate::server::timed::kept_entries;
use crate::server::webtransport::{SessionRequestView, SessionsView};
use vstd::prelude::*;
use vstd::string::{is_ascii_spec_bytes, StringSliceAdditionalSpecFns};

verus! {

/// Something that happens to the server.
pub enum ServerEvent {
    Request { stream: u64, connection: u64, headers: Seq<HeaderView>, clock: u64 },
    /// A session was asked for by this path.
    Session(Seq<u8>),
    Data { stream: u64, data: Seq<u8>, fin: bool },
    /// The client opened a stream.
    NewStream { stream: u64, connection: u64, is_http: bool, is_bidi: bool },
    /// The server opened a stream.
    Opened { stream: u64, connection: u64, stream_type: StreamType },
    /// The streams so far no longer give back what comes in on them.
    Forgotten,
    Datagram(Seq<u8>),
    /// Bodies were sent as far as this is left of them.
    Responses(Map<u64, Seq<u8>>),
    /// The connections that were due were closed.
    Closed(u64),
    /// What came in was looked at.
    Processed,
}

/// The server after an event.
pub open spec fn after_event(server: ServerView, event: ServerEvent) -> ServerView {
    match event {
        ServerEvent::Request { stream, connection, headers, clock } => server.after_request(
            stream,
            connection,
            headers,
            clock,
        ),
        ServerEvent::Session(path) => ServerView {
            request_counts: counted(server.request_counts, path),
            ..server
        },
        ServerEvent::Data { stream, data, fin } => server.after_data(stream, data, fin),
        ServerEvent::NewStream { stream, connection, is_http, is_bidi } => server.after_stream(
            stream,
            connection,
            is_http,
            is_bidi,
        ),
        ServerEvent::Opened { stream, connection, stream_type } => server.after_opened(
            stream,
            connection,
            stream_type,
        ),
        ServerEvent::Forgotten => ServerView { bidi_streams: Set::empty(), ..server },
        ServerEvent::Datagram(datagram) => ServerView {
            received_datagram: Some(datagram),
            ..server
        },
        ServerEvent::Responses(responses) => ServerView { responses, ..server },
        ServerEvent::Closed(clock) => ServerView {
            connections_to_close: kept_entries(server.connections_to_close, clock, true),
            ..server
        },
        ServerEvent::Processed => ServerView {
            stuck_0rtt_activated: server.stuck_0rtt_activated || server.stuck_0rtt_mode,
            ..server
        },
    }
}

/// The server after a list of events.
pub open spec fn after_events(server: ServerView, events: Seq<ServerEvent>) -> ServerView
    decreases events.len(),
{
    if events.len() == 0 {
        server
    } else {
        after_event(after_events(server, events.drop_last()), events.last())
    }
}

/// Whether an event is a piece of an upload on a stream, but not the last.
pub open spec fn is_piece(event: ServerEvent, upload: u64) -> bool {
    event matches ServerEvent::Data { stream, fin, .. } && stream == upload && !fin
}

/// Whether an event is for another stream than that of an upload, or for none.
pub open spec fn is_elsewhere(event: ServerEvent, upload: u64) -> bool {
    match event {
        ServerEvent::Request { stream, .. } => stream != upload,
        ServerEvent::Data { stream, .. } => stream != upload,
        ServerEvent::NewStream { stream, is_http, .. } => is_http || stream != upload,
        ServerEvent::Opened { stream, .. } => stream != upload,
        _ => true,
    }
}

/// How many bytes of an upload came in a list of events.
pub open spec fn uploaded_len(events: Seq<ServerEvent>, upload: u64) -> nat
    decreases events.len(),
{
    if events.len() == 0 {
        0
    } else {
        uploaded_len(events.drop_last(), upload) + if is_piece(events.last(), upload) {
            events.last()->data.len()
        } else {
            0
        }
    }
}

proof fn lemma_uploaded(server: ServerView, upload: u64, events: Seq<ServerEvent>)
    requires
        server.posts.contains_key(upload),
        !server.bidi_streams.contains(upload),
        !server.unidi_echo_back.contains_key(upload),
        forall|i: int|
            0 <= i < events.len() ==> is_piece(#[trigger] events[i], upload) || is_elsewhere(
                events[i],
                upload,
            ),
    ensures
        ({
            let after = after_events(server, events);
            &&& after.posts.contains_key(upload)
            &&& after.posts[upload] == server.posts[upload] + uploaded_len(events, upload)
            &&& !after.bidi_streams.contains(upload)
            &&& !after.unidi_echo_back.contains_key(upload)
        }),
    decreases events.len(),
{
    if events.len() > 0 {
        let before = events.drop_last();
        assert forall|i: int| 0 <= i < before.len() implies is_piece(#[trigger] before[i], upload)
            || is_elsewhere(before[i], upload) by {
            assert(before[i] == events[i]);
        }
        lemma_uploaded(server, upload, before);
        let last = events[events.len() - 1];
        assert(is_piece(last, upload) || is_elsewhere(last, upload));
    }
}

/// Nothing is sent on an upload before it is finished. The answer then carries how many bytes
/// came, however they were cut into pieces and whatever else happened in between, and the upload
/// is forgotten.
pub proof fn law_upload_is_counted(
    server: ServerView,
    upload: u64,
    connection: u64,
    connection_hash: u64,
    headers: Seq<HeaderView>,
    clock: u64,
    events: Seq<ServerEvent>,
    last: Seq<u8>,
    active: bool,
)
    requires
        headers_route(headers) == Route::Post,
        !server.bidi_streams.contains(upload),
        !server.unidi_echo_back.contains_key(upload),
        forall|i: int|
            0 <= i < events.len() ==> is_piece(#[trigger] events[i], upload) || is_elsewhere(
                events[i],
                upload,
            ),
    ensures
        server.request_answer(headers, connection_hash) == Seq::<RequestActionView>::empty(),
        ({
            let begun = server.after_request(upload, connection, headers, clock);
            let come = after_events(begun, events);
            &&& forall|i: int|
                0 <= i < events.len() && is_piece(#[trigger] events[i], upload) ==> after_events(
                    begun,
                    events.take(i),
                ).data_step(upload, active, events[i]->data, false) == DataStepView::Go
            &&& come.data_step(upload, active, last, true) == DataStepView::Answer(
                seq![
                    RequestActionView::SendHeaders(
                        seq![
                            text_field(":status", "200"),
                            text_field("cache-control", "no-cache"),
                            number_field(
                                "x-data-received-length",
                                uploaded_len(events, upload) + last.len(),
                            ),
                            number_field("content-length", 11),
                        ],
                    ),
                    RequestActionView::Respond("Hello World".spec_bytes()),
                ],
            )
            &&& !come.after_data(upload, last, true).posts.contains_key(upload)
        }),
{
    let begun = server.after_request(upload, connection, headers, clock);
    reveal_strlit("Hello World");
    is_ascii_spec_bytes("Hello World");
    assert("Hello World".spec_bytes().len() == 11);
    assert forall|i: int|
        0 <= i < events.len() && is_piece(#[trigger] events[i], upload) implies after_events(
        begun,
        events.take(i),
    ).data_step(upload, active, events[i]->data, false) == DataStepView::Go by {
        let before = events.take(i);
        assert forall|j: int| 0 <= j < before.len() implies is_piece(#[trigger] before[j], upload)
            || is_elsewhere(before[j], upload) by {
            assert(before[j] == events[j]);
        }
        lemma_uploaded(begun, upload, before);
    }
    lemma_uploaded(begun, upload, events);
}

/// A datagram that came is given back to the next request for it, and only to that one.
pub proof fn law_datagram_is_given_back_once(
    server: ServerView,
    datagram: Seq<u8>,
    stream: u64,
    connection: u64,
    connection_hash: u64,
    headers: Seq<HeaderView>,
    clock: u64,
)
    requires
        headers_route(headers) == Route::GetWebTransportDatagram,
    ensures
        ({
            let with = ServerView { received_datagram: Some(datagram), ..server };
            let after = with.after_request(stream, connection, headers, clock);
            &&& with.request_answer(headers, connection_hash) == datagram_answer(Some(datagram))
            &&& after.request_answer(headers, connection_hash) == empty_answer("404")
        }),
{
}

/// What the client sends on a stream is given back on the stream that waited on its connection,
/// and that stream serves only once.
pub proof fn law_echo(
    server: ServerView,
    opened: u64,
    stream: u64,
    connection: u64,
    active: bool,
    data: Seq<u8>,
    fin: bool,
)
    requires
        !server.bidi_streams.contains(stream),
    ensures
        ({
            let linked = server.after_opened(opened, connection, StreamType::UniDi).after_stream(
                stream,
                connection,
                false,
                false,
            );
            let after = linked.after_data(stream, data, fin);
            &&& linked.data_step(stream, active, data, fin) == DataStepView::EchoBack(opened, data)
            &&& !linked.unidi_conn_to_stream.contains_key(connection)
            &&& !after.unidi_echo_back.contains_key(stream)
        }),
{
}

/// A server that is stuck in a handshake stays so, whatever comes.
pub proof fn law_stuck_for_good(
    server: ServerView,
    stream: u64,
    connection: u64,
    headers: Seq<HeaderView>,
    data: Seq<u8>,
    flag: bool,
    other: bool,
    stream_type: StreamType,
    clock: u64,
)
    requires
        server.stuck_0rtt_mode,
        server.stuck_0rtt_activated,
    ensures
        ({
            let request = server.after_request(stream, connection, headers, clock);
            request.stuck_0rtt_mode && request.stuck_0rtt_activated
        }),
        ({
            let with = server.after_data(stream, data, flag);
            with.stuck_0rtt_mode && with.stuck_0rtt_activated
        }),
        ({
            let with = server.after_stream(stream, connection, flag, other);
            with.stuck_0rtt_mode && with.stuck_0rtt_activated
        }),
        ({
            let with = server.after_opened(stream, connection, stream_type);
            with.stuck_0rtt_mode && with.stuck_0rtt_activated
        }),
{
}

/// There is at most one scenario: while one is under way, or the report on one is, none is set up.
pub proof fn law_one_scenario(
    sessions: SessionsView,
    request: SessionRequestView,
    counts: Map<Seq<u8>, u64>,
    now: u64,
    clock: u64,
)
    ensures
        sessions.occupied() ==> sessions.scenario_to_create(request, counts) is None,
        sessions.after_request(request, counts, now, clock).scenario == sessions.scenario,
{
}

/// Once a scenario was set up or failed to be, the next one has to wait.
pub proof fn law_next_scenario_waits(
    sessions: SessionsView,
    session: u64,
    kind: McquicWebTransportScenarioKind,
    now: u64,
    error: Option<Seq<u8>>,
    request: SessionRequestView,
    counts: Map<Seq<u8>, u64>,
)
    ensures
        sessions.after_created(session, kind, now, error).scenario_to_create(request, counts)
            is None,
        sessions.after_created(session, kind, now, error).busy(),
{
}

}
