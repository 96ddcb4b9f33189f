//! The requests and the uploads of the test server.
use neqo_glue::events::StreamType;
use neqo_glue::headers::Header;
use neqo_glue::server::counts::RequestCounts;
use neqo_glue::server::requests::{
    answer_post, answer_request, can_answer, find_header, find_path, find_route, RequestAction,
    Route,
};
use neqo_glue::server::responses::{ResponseQueue, StreamStep};
use neqo_glue::server::test_server::{call_early, DataStep, Http3TestServer, Output};
use neqo_glue::server::timed::TimedList;

fn field(name: &str, value: &str) -> Header {
    Header { name: name.to_string(), value: value.as_bytes().to_vec() }
}

fn request(path: &str) -> Vec<Header> {
    vec![field(":method", "GET"), field(":path", path)]
}

fn told(headers: &Vec<Header>) -> Vec<String> {
    headers
        .iter()
        .map(|h| format!("{}={}", h.name, String::from_utf8(h.value.clone()).unwrap()))
        .collect()
}

fn actions(list: Vec<RequestAction>) -> Vec<String> {
    list.into_iter()
        .map(|action| match action {
            RequestAction::SendHeaders(headers) => told(&headers).join("|"),
            RequestAction::Respond(body) => {
                if body.len() > 100 {
                    assert!(body.iter().all(|b| *b == b'a'));
                    format!("body of {}", body.len())
                } else {
                    format!("body {}", String::from_utf8(body).unwrap())
                }
            }
            RequestAction::CloseSend => "close".to_string(),
            RequestAction::StopSending(code) => format!("stop {code:#x}"),
            RequestAction::ResetSend(code) => format!("reset {code:#x}"),
        })
        .collect()
}

fn answer(path: &str, more: Vec<Header>) -> Vec<String> {
    let mut headers = request(path);
    headers.extend(more);
    let mut server = Http3TestServer::new();
    actions(server.on_headers(4, 1, 77, &headers, 0))
}

const DEFAULT: [&str; 2] = [
    ":status=200|cache-control=no-cache|content-length=11|x-http3-conn-hash=77",
    "body Hello World",
];

#[test]
fn paths_name_routes() {
    assert_eq!(find_route(b"/Response421"), Route::Response421);
    assert_eq!(find_route(b"/post"), Route::Post);
    assert_eq!(find_route(b"/103_response"), Route::EarlyHints);
    assert_eq!(find_route(b"/4000"), Route::Sized(4000));
    assert_eq!(find_route(b"//12//"), Route::Sized(12));
    assert_eq!(find_route(b"/+12"), Route::Sized(12));
    assert_eq!(find_route(b"/-12"), Route::Other);
    assert_eq!(find_route(b"/12a"), Route::Other);
    assert_eq!(find_route(b"/"), Route::Other);
    assert_eq!(find_route(b"/99999999999999999999"), Route::Other);
    assert_eq!(find_route(b"/\xff"), Route::Other);
}

#[test]
fn the_first_field_of_a_name_counts() {
    let headers = vec![field("a", "1"), field("b", "2"), field("a", "3")];
    assert_eq!(find_header(&headers, "a"), Some(&b"1"[..]));
    assert_eq!(find_header(&headers, "A"), None);
    assert_eq!(find_path(&headers), None);
    assert_eq!(find_path(&request("")), None);
    assert_eq!(find_path(&request("/x")), Some(&b"/x"[..]));
}

#[test]
fn plain_texts_are_served() {
    assert_eq!(
        answer("/Response421", vec![]),
        [
            ":status=421|cache-control=no-cache|content-type=text/plain|content-length=10",
            "body 0123456789"
        ]
    );
    assert_eq!(
        answer("/SetStuckZeroRtt", vec![]),
        [
            ":status=200|cache-control=no-cache|content-type=text/plain|content-length=24",
            "body Stuck 0-RTT mode enabled"
        ]
    );
    assert_eq!(
        answer("/closeafter1000ms", vec![]),
        [
            ":status=200|cache-control=no-cache|content-type=text/plain|content-length=10",
            "body 0123456789"
        ]
    );
    assert_eq!(
        answer("/300", vec![]),
        [
            ":status=200|cache-control=no-cache|content-type=text/plain|content-length=300",
            "body of 300"
        ]
    );
}

#[test]
fn other_paths_are_served_the_default() {
    assert_eq!(answer("/", vec![]), DEFAULT);
    assert_eq!(answer("", vec![]), DEFAULT);
    let mut server = Http3TestServer::new();
    assert_eq!(actions(server.on_headers(4, 1, 77, &vec![], 0)), DEFAULT);
}

#[test]
fn requests_are_refused_with_their_code() {
    assert_eq!(answer("/RequestCancelled", vec![]), ["stop 0x10c", "reset 0x10c"]);
    assert_eq!(answer("/VersionFallback", vec![]), ["stop 0x110", "reset 0x110"]);
    assert_eq!(answer("/RequestRejected", vec![]), ["stop 0x10b", "reset 0x10b"]);
    assert_eq!(answer("/UnknownReset", vec![]), ["stop 0xfe", "reset 0xfe"]);
    assert_eq!(answer("/EarlyResponse", vec![]), ["stop 0x100"]);
}

#[test]
fn lengths_are_left_out_or_wrong_on_purpose() {
    assert_eq!(answer("/no_body", vec![]), [":status=200|cache-control=no-cache", "close"]);
    assert_eq!(
        answer("/no_content_length", vec![]),
        [":status=200|cache-control=no-cache", "body of 4000"]
    );
    assert_eq!(
        answer("/content_length_smaller", vec![]),
        [
            ":status=200|cache-control=no-cache|content-type=text/plain|content-length=4000",
            "body of 8000"
        ]
    );
}

#[test]
fn opportunistic_hosts_are_told() {
    assert_eq!(
        answer("/.well-known/http-opportunistic", vec![field(":authority", "foo.example")]),
        [
            ":status=200|cache-control=no-cache|content-type=application/json|content-length=22",
            "body [\"http://foo.example\"]"
        ]
    );
    assert_eq!(answer("/.well-known/http-opportunistic", vec![field(":authority", "")]), DEFAULT);
    assert_eq!(answer("/.well-known/http-opportunistic", vec![]), DEFAULT);
}

#[test]
fn priorities_are_mirrored() {
    assert_eq!(
        answer("/priority_mirror", vec![field("priority", "u=4, i")]),
        [
            ":status=200|cache-control=no-cache|content-type=text/plain|priority-mirror=u=4, i|content-length=6",
            "body u=4, i"
        ]
    );
    assert_eq!(answer("/priority_mirror", vec![]), [":status=200|cache-control=no-cache", "close"]);
}

#[test]
fn hints_come_one_by_one() {
    assert_eq!(
        answer("/103_response", vec![field("link-to-set", "</a>,</b>,")]),
        [
            ":status=103|link=</a>",
            ":status=103|link=</b>",
            ":status=103|link=",
            ":status=200|cache-control=no-cache|content-length=0",
            "close"
        ]
    );
    assert_eq!(
        answer("/103_response", vec![]),
        [":status=200|cache-control=no-cache|content-length=0", "close"]
    );
}

#[test]
fn alternative_services_are_named() {
    let body = format!("body {}", "a".repeat(100));
    assert_eq!(
        answer("/alt_svc_header", vec![field("x-altsvc", ":4433")]),
        [
            ":status=200|cache-control=no-cache|content-type=text/plain|content-length=100|alt-svc=h3=:4433"
                .to_string(),
            body.clone()
        ]
    );
    assert_eq!(
        answer("/alt_svc_header", vec![]),
        [":status=200|cache-control=no-cache".to_string(), body]
    );
}

#[test]
fn only_texts_are_given_back() {
    let strange = |name: &str| vec![Header { name: name.to_string(), value: vec![0xff] }];
    assert!(!can_answer(Route::PriorityMirror, &strange("priority")));
    assert!(!can_answer(Route::EarlyHints, &strange("link-to-set")));
    assert!(!can_answer(Route::AltSvcHeader, &strange("x-altsvc")));
    assert!(can_answer(Route::AltSvcHeader, &strange("priority")));
    assert!(can_answer(Route::PriorityMirror, &vec![field("priority", "u=1")]));
    assert!(can_answer(Route::Other, &strange("priority")));
    assert!(can_answer(Route::Sized(4000), &vec![]));
    assert!(!can_answer(Route::Sized(usize::MAX), &vec![]));
}

#[test]
fn an_announced_length_is_the_length_of_the_body() {
    for (route, headers) in [
        (Route::Response421, vec![]),
        (Route::Sized(50), vec![]),
        (Route::HttpOpportunistic, vec![field(":authority", "h")]),
        (Route::PriorityMirror, vec![field("priority", "u=1")]),
        (Route::Other, vec![]),
    ] {
        let list = answer_request(route, &headers, &None, 5);
        match (&list[0], &list[1]) {
            (RequestAction::SendHeaders(head), RequestAction::Respond(body)) => {
                assert_eq!(
                    find_header(head, "content-length"),
                    Some(body.len().to_string().as_bytes())
                );
            }
            _ => unreachable!(),
        }
    }
}

#[test]
fn a_datagram_is_given_back_once() {
    let mut server = Http3TestServer::new();
    let headers = request("/get_webtransport_datagram");
    server.on_datagram(b"old".to_vec());
    server.on_datagram(b"hello".to_vec());
    assert_eq!(
        actions(server.on_headers(4, 1, 77, &headers, 0)),
        [":status=200|content-length=5", "body hello"]
    );
    assert_eq!(
        actions(server.on_headers(8, 1, 77, &headers, 0)),
        [":status=404|cache-control=no-cache", "close"]
    );
}

#[test]
fn uploads_are_counted() {
    let mut server = Http3TestServer::new();
    assert_eq!(actions(server.on_headers(4, 1, 77, &request("/post"), 0)).len(), 0);
    assert!(matches!(server.on_data(4, true, vec![0; 1000], false), DataStep::Go));
    assert!(matches!(server.on_data(8, true, vec![0; 7], true), DataStep::Go));
    assert!(server.can_count(4, usize::MAX - 1000));
    assert!(!server.can_count(4, usize::MAX - 999));
    assert!(server.can_count(8, usize::MAX));
    server.on_new_stream(12, 1, false, true);
    assert_eq!(actions(server.on_headers(16, 1, 77, &request("/post"), 0)).len(), 0);
    assert!(matches!(server.on_data(16, true, vec![0; 5], false), DataStep::Go));
    server.on_datagram(b"between".to_vec());
    match server.on_data(4, true, vec![0; 234], true) {
        DataStep::Answer(list) => assert_eq!(
            actions(list),
            [
                ":status=200|cache-control=no-cache|x-data-received-length=1234|content-length=11",
                "body Hello World"
            ]
        ),
        _ => unreachable!(),
    }
    assert!(matches!(server.on_data(4, true, vec![0; 1], true), DataStep::Go));
    assert_eq!(
        actions(answer_post(0)),
        [
            ":status=200|cache-control=no-cache|x-data-received-length=0|content-length=11",
            "body Hello World"
        ]
    );
}

#[test]
fn bidirectional_streams_echo() {
    let mut server = Http3TestServer::new();
    server.on_new_stream(4, 1, false, true);
    server.on_new_stream(8, 1, true, true);
    match server.on_data(4, true, b"abc".to_vec(), false) {
        DataStep::Echo(data) => assert_eq!(data, b"abc"),
        _ => unreachable!(),
    }
    assert!(matches!(server.on_data(4, false, b"abc".to_vec(), false), DataStep::Pause));
    assert!(matches!(server.on_data(8, true, b"abc".to_vec(), true), DataStep::Go));
    server.forget_streams();
    assert!(matches!(server.on_data(4, true, b"abc".to_vec(), false), DataStep::Go));
    server.on_stream_opened(12, 1, StreamType::BiDi);
    assert!(matches!(server.on_data(12, true, b"x".to_vec(), true), DataStep::Echo(_)));
}

#[test]
fn unidirectional_streams_echo_on_another() {
    let mut server = Http3TestServer::new();
    server.on_stream_opened(3, 1, StreamType::UniDi);
    // Another connection has no stream that waits.
    server.on_new_stream(2, 2, false, false);
    assert!(matches!(server.on_data(2, true, b"x".to_vec(), true), DataStep::Go));
    server.on_new_stream(6, 1, false, false);
    match server.on_data(6, true, b"abc".to_vec(), true) {
        DataStep::EchoBack(stream, data) => {
            assert_eq!(stream, 3);
            assert_eq!(data, b"abc");
        }
        _ => unreachable!(),
    }
    assert!(matches!(server.on_data(6, true, b"abc".to_vec(), true), DataStep::Go));
    server.on_new_stream(10, 1, false, false);
    assert!(matches!(server.on_data(10, true, b"abc".to_vec(), true), DataStep::Go));
}

#[test]
fn a_stuck_server_stays_stuck() {
    let mut server = Http3TestServer::new();
    assert!(!server.ignores_datagrams());
    assert_eq!(server.datagrams_processed(Output::Datagrams, false), Output::Datagrams);
    assert!(!server.ignores_datagrams());
    server.on_headers(4, 1, 77, &request("/SetStuckZeroRtt"), 0);
    assert!(!server.ignores_datagrams());
    server.datagrams_processed(Output::Nothing, false);
    assert!(server.ignores_datagrams());
    server.on_headers(8, 1, 77, &request("/"), 0);
    server.datagrams_processed(Output::Nothing, false);
    assert!(server.ignores_datagrams());
}

#[test]
fn a_busy_server_is_called_early() {
    let call = call_early;
    assert_eq!(call(Output::Nothing, false), Output::Nothing);
    assert_eq!(call(Output::Nothing, true), Output::Callback(100_000_000));
    assert_eq!(call(Output::Callback(7), true), Output::Callback(7));
    assert_eq!(call(Output::Callback(5_000_000_000), true), Output::Callback(100_000_000));
    assert_eq!(call(Output::Callback(5_000_000_000), false), Output::Callback(5_000_000_000));
    assert_eq!(call(Output::Datagrams, true), Output::Datagrams);

    // A connection that is to be closed keeps the server busy.
    let mut server = Http3TestServer::new();
    assert_eq!(server.datagrams_processed(Output::Nothing, false), Output::Nothing);
    server.on_headers(4, 1, 77, &request("/closeafter1000ms"), 0);
    assert_eq!(server.datagrams_processed(Output::Nothing, false), Output::Callback(100_000_000));
}

#[test]
fn connections_are_closed_after_a_second() {
    let mut server = Http3TestServer::new();
    server.on_headers(4, 31, 77, &request("/closeafter1000ms"), 500);
    assert_eq!(server.maybe_close_connection(1_000_000_499), Vec::<u64>::new());
    assert_eq!(server.maybe_close_connection(1_000_000_501), vec![31]);
    assert_eq!(server.maybe_close_connection(2_000_000_000), Vec::<u64>::new());
}

#[test]
fn paths_are_counted() {
    let mut server = Http3TestServer::new();
    server.on_headers(4, 1, 77, &request("/x"), 0);
    server.on_headers(8, 1, 77, &request("/x"), 0);
    server.on_headers(12, 1, 77, &request("/"), 0);
    server.count_request(b"/y");
    assert_eq!(server.requests(b"/x"), 2);
    assert_eq!(server.requests(b"/"), 1);
    assert_eq!(server.requests(b"/y"), 1);
    assert_eq!(server.requests(b"/z"), 0);

    let mut counts = RequestCounts::new();
    counts.increment(b"a");
    counts.increment(b"ab");
    counts.increment(b"a");
    assert_eq!(counts.get(b"a"), 2);
    assert_eq!(counts.get(b"ab"), 1);
    assert_eq!(counts.get(b""), 0);
}

#[test]
fn what_is_due_comes_out_once() {
    let mut list = TimedList::new();
    assert!(list.is_empty());
    list.schedule(10, 1);
    list.schedule(20, 2);
    list.schedule(10, 3);
    assert_eq!(list.take_due(9, false), Vec::<u64>::new());
    assert_eq!(list.take_due(11, false), vec![1, 3]);
    assert_eq!(list.take_due(11, false), Vec::<u64>::new());
    // What is due right now is told again where it is kept.
    assert_eq!(list.take_due(20, true), vec![2]);
    assert!(!list.is_empty());
    assert_eq!(list.take_due(20, false), vec![2]);
    assert!(list.is_empty());
}

#[test]
fn responses_are_sent_piece_by_piece() {
    let mut queue = ResponseQueue::new();
    assert!(matches!(ResponseQueue::new_response(vec![]), StreamStep::Close));
    match ResponseQueue::new_response(b"hello".to_vec()) {
        StreamStep::Send(data) => assert_eq!(data, b"hello"),
        _ => unreachable!(),
    }
    assert!(matches!(queue.stream_writable(4), StreamStep::Nothing));
    assert!(matches!(queue.response_sent(8, b"hello".to_vec(), None), StreamStep::Nothing));
    assert!(matches!(queue.stream_writable(8), StreamStep::Nothing));
    assert!(matches!(queue.response_sent(8, b"hello".to_vec(), Some(5)), StreamStep::Close));
    assert!(matches!(queue.response_sent(4, b"hello".to_vec(), Some(2)), StreamStep::Nothing));
    match queue.stream_writable(4) {
        StreamStep::Send(data) => assert_eq!(data, b"llo"),
        _ => unreachable!(),
    }
    assert!(matches!(queue.writable_sent(4, Some(1)), StreamStep::Nothing));
    assert!(matches!(queue.writable_sent(4, None), StreamStep::Nothing));
    match queue.stream_writable(4) {
        StreamStep::Send(data) => assert_eq!(data, b"lo"),
        _ => unreachable!(),
    }
    assert!(matches!(queue.writable_sent(4, Some(2)), StreamStep::Close));
    assert!(matches!(queue.stream_writable(4), StreamStep::Nothing));
}

#[test]
fn the_server_keeps_what_a_stream_did_not_take() {
    let mut server = Http3TestServer::new();
    assert!(matches!(server.new_response(vec![]), StreamStep::Close));
    assert!(matches!(server.response_sent(4, b"hello".to_vec(), Some(3)), StreamStep::Nothing));
    match server.handle_stream_writable(4) {
        StreamStep::Send(data) => assert_eq!(data, b"lo"),
        _ => unreachable!(),
    }
    assert!(matches!(server.writable_sent(4, Some(2)), StreamStep::Close));
    assert!(matches!(server.handle_stream_writable(4), StreamStep::Nothing));
}
