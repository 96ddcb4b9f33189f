//! The servers that hand requests on, and how the servers are started.
use neqo_glue::headers::Header;
use neqo_glue::server::connect_proxy::{
    answer_connect, connect_target, find_tcp_target, find_udp_target, DatagramQueue, PollEvent,
    ProxyPoll, ReceiveOutcome, SendOutcome, SendStep, TcpTunnel, UDP_SOCKET_ERROR,
    UDP_SOCKET_ERROR_TEXT,
};
use neqo_glue::server::requests::RequestAction;
use neqo_glue::server::responses::StreamStep;
use neqo_glue::server::reverse_proxy::{
    answer_bad_uri, can_forward, fetch, response_head, Fetch, Http3ReverseProxyServer, ProxyStep,
};
use neqo_glue::server::start::{
    listening_message, proxy_port, reverse_proxy_config, to_listen_address, wrong_frame_response,
};

fn line(name: &str, value: &[u8]) -> Header {
    Header { name: name.to_string(), value: value.to_vec() }
}

fn lines(list: &[(&str, &str)]) -> Vec<Header> {
    list.iter().map(|(name, value)| line(name, value.as_bytes())).collect()
}

fn shown(headers: &Vec<Header>) -> String {
    headers
        .iter()
        .map(|h| format!("{}={}", h.name, String::from_utf8(h.value.clone()).unwrap()))
        .collect::<Vec<String>>()
        .join("|")
}

fn head_of(actions: &Vec<RequestAction>) -> String {
    match &actions[0] {
        RequestAction::SendHeaders(headers) => shown(headers),
        _ => unreachable!(),
    }
}

#[test]
fn requests_are_made_for_http_1() {
    let headers = lines(&[
        (":method", "PUT"),
        (":scheme", "https"),
        (":authority", "foo.example"),
        (":path", "/a?b"),
        ("x-one", "1"),
        ("x-one", "2"),
        ("X-Upper", "3"),
        ("bad name", "4"),
    ]);
    assert!(can_forward(&headers));
    match fetch(8888, &headers, b"body".to_vec()) {
        Fetch::Send(request) => {
            assert_eq!(request.method, b"PUT");
            assert_eq!(request.uri, "http://127.0.0.1:8888/a?b");
            assert_eq!(request.body, b"body");
            assert_eq!(request.fields.len(), 2);
            assert_eq!(request.fields.get("host").unwrap().as_bytes(), b"foo.example");
            assert_eq!(request.fields.get("x-one").unwrap().as_bytes(), b"2");
        }
        _ => unreachable!(),
    }
}

#[test]
fn a_request_is_a_get_at_first() {
    match fetch(1, &vec![line(":path", b"\xff")], vec![]) {
        Fetch::Send(request) => {
            assert_eq!(request.method, b"GET");
            assert_eq!(request.uri, "http://127.0.0.1:1/");
        }
        _ => unreachable!(),
    }
}

#[test]
fn bad_paths_give_no_uri() {
    assert!(matches!(fetch(1, &lines(&[(":path", "/ space")]), vec![]), Fetch::BadUri));
    assert!(matches!(fetch(1, &vec![line(":path", b"/\x7f")], vec![]), Fetch::BadUri));
    assert_eq!(head_of(&answer_bad_uri()), ":status=400|cache-control=no-cache|content-length=0");
}

#[test]
fn values_that_cannot_be_handed_on() {
    assert!(!can_forward(&lines(&[(":method", "not a token")])));
    assert!(!can_forward(&lines(&[(":method", "")])));
    assert!(!can_forward(&lines(&[(":authority", "a\nb")])));
    assert!(!can_forward(&lines(&[("x", "a\nb")])));
    assert!(can_forward(&lines(&[("bad name", "a\nb")])));
    assert!(can_forward(&vec![line("x", b"\xff\t ")]));
}

#[test]
fn thousands_of_fields_can_be_handed_on() {
    let headers: Vec<Header> =
        (0..5999).map(|i| line(&format!("x-{i}"), i.to_string().as_bytes())).collect();
    match fetch(80, &headers, vec![]) {
        Fetch::Send(request) => {
            assert_eq!(request.fields.len(), 5999);
            assert_eq!(request.fields.get("x-5998").unwrap().as_bytes(), b"5998");
        }
        _ => unreachable!(),
    }
}

#[test]
fn fields_of_one_name_are_one() {
    let headers: Vec<Header> =
        (0..40000).map(|i| line("x-same", i.to_string().as_bytes())).collect();
    match fetch(80, &headers, vec![]) {
        Fetch::Send(request) => {
            assert_eq!(request.fields.len(), 1);
            assert_eq!(request.fields.get("x-same").unwrap().as_bytes(), b"39999");
        }
        _ => unreachable!(),
    }
}

#[test]
fn more_fields_than_a_map_holds() {
    let headers: Vec<Header> = (0..40000).map(|i| line(&format!("x-{i}"), b"")).collect();
    assert!(matches!(fetch(80, &headers, vec![]), Fetch::TooManyFields));
}

#[test]
fn heads_are_handed_back() {
    let head = response_head(
        "204",
        &vec![line("server", b"httpd"), line("x-strange", b"\xff"), line("x-tab", b"a\tb")],
    );
    assert_eq!(shown(&head), ":status=204|server=httpd|x-strange=|x-tab=a\tb");
}

#[test]
fn the_port_is_learnt() {
    let mut server = Http3ReverseProxyServer::new(-1);
    let get = |path: &str| lines(&[(":method", "GET"), (":path", path)]);
    for path in ["/", "/port?x", "/port?99999999999", "/port?4321"] {
        match server.on_headers(4, get(path)) {
            ProxyStep::Answer(actions) => {
                assert_eq!(head_of(&actions), ":status=200|cache-control=no-cache|content-length=0")
            }
            _ => unreachable!(),
        }
    }
    match server.on_headers(8, get("/port?1")) {
        ProxyStep::Forward(port, headers, body) => {
            assert_eq!(port, 4321);
            assert_eq!(shown(&headers), ":method=GET|:path=/port?1");
            assert_eq!(body.len(), 0);
        }
        _ => unreachable!(),
    }
}

#[test]
fn bodies_are_handed_on_whole() {
    let mut server = Http3ReverseProxyServer::new(8888);
    let post = lines(&[(":method", "POST"), (":path", "/"), ("content-length", "6")]);
    assert!(matches!(server.on_headers(4, post), ProxyStep::Nothing));
    assert!(matches!(server.on_data(4, b"ab".to_vec(), false), ProxyStep::Nothing));
    assert!(matches!(server.on_data(8, b"zz".to_vec(), true), ProxyStep::Nothing));
    assert!(matches!(server.on_data(4, b"cd".to_vec(), false), ProxyStep::Nothing));
    match server.on_data(4, b"ef".to_vec(), true) {
        ProxyStep::Forward(port, headers, body) => {
            assert_eq!(port, 8888);
            assert_eq!(shown(&headers), ":method=POST|:path=/|content-length=6");
            assert_eq!(body, b"abcdef");
        }
        _ => unreachable!(),
    }
    assert!(matches!(server.on_data(4, b"ef".to_vec(), true), ProxyStep::Nothing));
}

#[test]
fn uploads_have_to_name_their_length() {
    let mut server = Http3ReverseProxyServer::new(8888);
    assert!(matches!(server.on_headers(4, lines(&[])), ProxyStep::Nothing));
    assert!(matches!(server.on_headers(4, lines(&[(":method", "POST")])), ProxyStep::Nothing));
    for length in ["x", "-1", "", "4294967296"] {
        let headers = lines(&[(":method", "POST"), ("content-length", length)]);
        assert!(matches!(server.on_headers(4, headers), ProxyStep::Nothing));
        assert!(matches!(server.on_data(4, vec![], true), ProxyStep::Nothing));
    }
    let empty = lines(&[(":method", "POST"), ("content-length", "0")]);
    assert!(matches!(server.on_headers(4, empty), ProxyStep::Forward(..)));
    let strange = vec![line(":method", b"POST"), line("content-length", b"\xff")];
    assert!(matches!(server.on_headers(4, strange), ProxyStep::Forward(..)));
}

#[test]
fn answers_are_handed_back_piece_by_piece() {
    let mut server = Http3ReverseProxyServer::new(8888);
    assert!(matches!(server.new_response(vec![]), StreamStep::Close));
    assert!(matches!(server.new_response(vec![1]), StreamStep::Send(_)));
    assert!(matches!(server.response_sent(4, b"abc".to_vec(), 3), StreamStep::Close));
    assert!(matches!(server.response_sent(4, b"abc".to_vec(), 1), StreamStep::Nothing));
    match server.handle_stream_writable(4) {
        StreamStep::Send(data) => assert_eq!(data, b"bc"),
        _ => unreachable!(),
    }
    assert!(matches!(server.writable_sent(4, None), StreamStep::Nothing));
    assert!(matches!(server.writable_sent(4, Some(2)), StreamStep::Close));
    assert!(matches!(server.handle_stream_writable(4), StreamStep::Nothing));
    assert!(matches!(server.response_failed(), RequestAction::ResetSend(0x10c)));
}

#[test]
fn local_names_lead_to_this_machine() {
    assert_eq!(find_tcp_target(b"foo.example.com:4433"), b"127.0.0.1:4433");
    assert_eq!(find_tcp_target(b"alt1.example.com"), b"127.0.0.1:80");
    assert_eq!(find_tcp_target(b"alt2.example.com:1"), b"127.0.0.1:1");
    assert_eq!(find_tcp_target(b"other.example.com:4433"), b"other.example.com:4433");
    assert_eq!(find_tcp_target(b"other.example.com"), b"other.example.com");
    assert_eq!(find_tcp_target(b"foo.example.com:1:2"), b"foo.example.com:1:2");
}

#[test]
fn only_connect_asks_for_a_connection() {
    let connect = lines(&[(":method", "CONNECT"), (":authority", "foo.example.com:443")]);
    assert_eq!(connect_target(&connect), Some(b"127.0.0.1:443".to_vec()));
    assert_eq!(connect_target(&lines(&[(":method", "GET"), (":authority", "a:1")])), None);
    assert_eq!(connect_target(&lines(&[(":method", "CONNECT")])), None);
    assert_eq!(connect_target(&lines(&[(":authority", "a:1")])), None);
    assert_eq!(
        connect_target(&vec![line(":method", b"CONNECT"), line(":authority", b"\xff")]),
        None
    );
    let accepted = answer_connect(true);
    assert_eq!(head_of(&accepted), ":status=200|cache-control=no-cache");
    assert_eq!(accepted.len(), 1);
    let refused = answer_connect(false);
    assert_eq!(head_of(&refused), ":status=502|cache-control=no-cache");
    assert!(matches!(refused[1], RequestAction::CloseSend));
}

#[test]
fn udp_targets_stand_in_the_path() {
    let target = find_udp_target(b"/.well-known/masque/udp/foo.example.com/443/").unwrap();
    assert_eq!((target.host, target.port), (b"127.0.0.1".to_vec(), 443));
    let target = find_udp_target(b"/.well-known/masque/udp/192.0.2.1/53").unwrap();
    assert_eq!((target.host, target.port), (b"192.0.2.1".to_vec(), 53));
    assert!(find_udp_target(b"/.well-known/masque/udp/192.0.2.1").is_none());
    assert!(find_udp_target(b"/.well-known/masque/udp/192.0.2.1/65536/").is_none());
    assert!(find_udp_target(b"/.well-known/masque/udp/192.0.2.1/x/").is_none());
    assert!(find_udp_target(b"/\xff/masque/udp/192.0.2.1/53/").is_none());
}

#[test]
fn a_tunnel_keeps_the_order() {
    let mut tunnel = TcpTunnel::new();
    assert_eq!(tunnel.for_origin(), b"");
    tunnel.on_data(b"abc", false);
    tunnel.on_data(b"def", false);
    assert!(!tunnel.shuts_down());
    assert_eq!(tunnel.for_origin(), b"abcdef");
    assert!(tunnel.origin_took(Some(2)));
    assert_eq!(tunnel.for_origin(), b"cdef");
    assert!(!tunnel.origin_took(Some(0)));
    assert!(!tunnel.origin_took(Some(4)));
    tunnel.on_data(b"", true);
    assert!(tunnel.shuts_down());
    tunnel.on_data(b"", false);
    assert!(tunnel.shuts_down());

    assert!(tunnel.on_read(Some(b"xyz")));
    assert!(!tunnel.on_read(Some(b"")));
    assert_eq!(tunnel.for_client(), b"xyz");
    assert!(tunnel.client_took(Some(1)));
    assert!(!tunnel.client_took(None));
    assert_eq!(tunnel.for_client(), b"yz");
    assert!(!tunnel.client_took(Some(2)));
    assert_eq!(tunnel.for_client(), b"");
    assert!(!tunnel.on_read(None));
    assert!(!tunnel.origin_took(None));
}

#[test]
fn datagrams_wait_for_their_turn() {
    let mut queue = DatagramQueue::new();
    assert_eq!(queue.next(), None);
    queue.push(b"one".to_vec());
    queue.push(b"two".to_vec());
    assert_eq!(queue.next(), Some(&b"one"[..]));
    assert_eq!(queue.sent(SendOutcome::Busy), SendStep::Later);
    assert_eq!(queue.next(), Some(&b"one"[..]));
    assert_eq!(queue.sent(SendOutcome::Taken(3)), SendStep::Next);
    assert_eq!(queue.next(), Some(&b"two"[..]));
    assert_eq!(queue.sent(SendOutcome::Failed), SendStep::Close);
    assert_eq!(UDP_SOCKET_ERROR, 0x0100);
    assert_eq!(UDP_SOCKET_ERROR_TEXT, "UDP socket error");
}

#[test]
fn addresses_to_listen_on() {
    assert_eq!(to_listen_address(0, false), "[::]:0");
    assert_eq!(to_listen_address(4433, true), "127.0.0.1:4433");
    assert_eq!(proxy_port(None), Some(0));
    assert_eq!(proxy_port(Some("8443")), Some(8443));
    assert_eq!(proxy_port(Some("65536")), None);
    assert_eq!(proxy_port(Some("")), None);
    assert_eq!(reverse_proxy_config(true), ("mochitest-cert", 8888));
    assert_eq!(reverse_proxy_config(false), (" HTTP2 Test Cert", -1));
}

#[test]
fn servers_are_announced() {
    assert_eq!(
        listening_message(&vec![1, 22, 333], b"hello?>"),
        "HTTP3 server listening on ports 1, 22 and 333. EchConfig is @aGVsbG8/Pg==@"
    );
    assert_eq!(
        listening_message(&vec![1, 2], b"abc"),
        "HTTP3 server listening on ports 1 and 2. EchConfig is @YWJj@"
    );
    assert_eq!(
        listening_message(&vec![1, 2], b"ab"),
        "HTTP3 server listening on ports 1 and 2. EchConfig is @YWI=@"
    );
}

#[test]
fn wrong_frames_answer_requests_only() {
    let response = wrong_frame_response(true, true).unwrap();
    assert_eq!(response.len(), 16);
    assert_eq!(&response[13..], [0x3, 0x1, 0x5]);
    assert_eq!(wrong_frame_response(true, false), None);
    assert_eq!(wrong_frame_response(false, true), None);
}

#[test]
fn a_look_at_the_sockets() {
    let mut poll = ProxyPoll::new();
    for event in [
        PollEvent::Read(Some(0)),
        PollEvent::Read(None),
        PollEvent::Written(Some(0)),
        PollEvent::Written(None),
        PollEvent::Received(4, ReceiveOutcome::Nothing),
        PollEvent::Received(8, ReceiveOutcome::Failed),
        PollEvent::Sent(8, SendStep::Close),
        PollEvent::Sent(4, SendStep::Later),
        PollEvent::Sent(12, SendStep::Close),
    ] {
        assert!(!poll.on_event(event));
    }
    assert!(!poll.is_ready());
    assert_eq!(poll.failed_sessions(), [8, 12]);
    for event in [
        PollEvent::Read(Some(1)),
        PollEvent::Written(Some(1)),
        PollEvent::Received(4, ReceiveOutcome::Datagram),
        PollEvent::Sent(4, SendStep::Next),
    ] {
        let mut poll = ProxyPoll::new();
        assert!(poll.on_event(event));
        assert!(poll.is_ready());
        assert!(poll.failed_sessions().is_empty());
    }
}
