//! The WebTransport sessions of the test server, and its multicast scenarios.
use neqo_glue::address::IpAddress;
use neqo_glue::events::StreamType;
use neqo_glue::headers::Header;
use neqo_glue::server::channel::{
    announce, control_frame, first_key, is_probe, probe, raw_webtransport_message, second_key,
    ServerFrame,
};
use neqo_glue::server::scenario::{
    check_write, mcquic_webtransport_prefix, message_bytes, Begin, Feedback, McquicChannelState,
    McquicWebTransportPhase, McquicWebTransportScenario, McquicWebTransportScenarioKind, Message,
    ScenarioError, ScenarioOp, StepOutcome, StreamRef,
};
use neqo_glue::server::sessions::{
    answer_session, answer_without_path, can_serve, find_session_route, is_authorized,
    multicast_requested, parse_status_path, source_path, target_path, FollowUp,
    SessionAcceptAction, SessionFacts, SessionRoute,
};
use neqo_glue::server::test_server::{DataStep, Http3TestServer};
use neqo_glue::server::webtransport::{SessionReply, SessionRequest, WebTransportSessions};
use neqo_glue::text::{decimal_text, parse_unsigned};

const MS: u64 = 1_000_000;

fn header(name: &str, value: &str) -> Header {
    Header { name: name.to_string(), value: value.as_bytes().to_vec() }
}

fn joined(headers: &Vec<Header>) -> String {
    headers
        .iter()
        .map(|h| format!("{}={}", h.name, String::from_utf8(h.value.clone()).unwrap()))
        .collect::<Vec<String>>()
        .join("|")
}

fn response(action: &SessionAcceptAction) -> String {
    match action {
        SessionAcceptAction::Accept => "accept".to_string(),
        SessionAcceptAction::Reject(headers) => format!("reject {}", joined(headers)),
        SessionAcceptAction::AcceptWithHeaders(headers) => format!("accept {}", joined(headers)),
    }
}

fn messages(list: &Vec<Vec<u8>>) -> Vec<String> {
    list.iter().map(|m| String::from_utf8(m.clone()).unwrap()).collect()
}

fn plain_facts() -> SessionFacts {
    SessionFacts {
        multicast: false,
        connection: 99,
        changed_connection: false,
        resumed: false,
        connection_sessions: 1,
        attempts: 1,
        challenges: 0,
        authorizations: 0,
        sources: 0,
        targets: 0,
    }
}

fn session_request(session: u64, connection: u64, path: &str, multicast: bool) -> SessionRequest {
    let mut headers = vec![header(":method", "CONNECT"), header(":path", path)];
    if multicast {
        headers.push(header("WT-Multicast", "?1"));
    }
    SessionRequest { session, connection, connection_hash: connection * 100, resumed: false, headers }
}

fn open(
    sessions: &mut WebTransportSessions,
    server: &mut Http3TestServer,
    session: u64,
    path: &str,
    multicast: bool,
) -> SessionReply {
    let request = session_request(session, 1, path, multicast);
    assert!(sessions.can_count(&request));
    sessions.on_new_session(server, &request, 1000, 2000)
}

#[test]
fn statuses_are_read_from_paths() {
    assert_eq!(parse_status_path(b"/mcquic_redirect_307", b"/mcquic_redirect_"), Some(307));
    assert_eq!(parse_status_path(b"/mcquic_redirect_", b"/mcquic_redirect_"), None);
    assert_eq!(parse_status_path(b"/mcquic_redirect_x", b"/mcquic_redirect_"), None);
    assert_eq!(parse_status_path(b"/mcquic_redirect_70000", b"/mcquic_redirect_"), None);
    assert_eq!(parse_status_path(b"/other_307", b"/mcquic_redirect_"), None);
}

#[test]
fn session_paths_name_routes() {
    for (path, route) in [
        ("/success", SessionRoute::Success),
        ("/redirect", SessionRoute::Redirect),
        ("/reject", SessionRoute::Reject),
        ("/closeafter0ms", SessionRoute::CloseAfter0Ms),
        ("/closeafter100ms", SessionRoute::CloseAfter100Ms),
        ("/create_unidi_stream", SessionRoute::CreateUnidi),
        ("/create_unidi_stream_and_hello", SessionRoute::CreateUnidiAndHello),
        ("/create_two_unidi_streams_and_hello", SessionRoute::CreateTwoUnidiAndHello),
        ("/create_bidi_stream", SessionRoute::CreateBidi),
        ("/create_bidi_stream_and_hello", SessionRoute::CreateBidiAndHello),
        ("/create_bidi_stream_and_large_data", SessionRoute::CreateBidiAndLargeData),
        ("/mcquic_auth_count", SessionRoute::AuthCount),
        ("/mcquic_non_success_true", SessionRoute::NonSuccessTrue),
        ("/mcquic_response_duplicate", SessionRoute::ResponseDuplicate),
        ("/mcquic_response_parameter", SessionRoute::ResponseParameter),
        ("/mcquic_permission_missing", SessionRoute::PermissionMissing),
        ("/mcquic_permission_false", SessionRoute::PermissionFalse),
        ("/mcquic_permission_malformed", SessionRoute::PermissionMalformed),
        ("/mcquic_unsolicited_response", SessionRoute::UnsolicitedResponse),
        ("/mcquic_permission_unsolicited", SessionRoute::PermissionUnsolicited),
        ("/mcquic_permission_retry_once", SessionRoute::RetryOnce),
        ("/mcquic_permission_connection", SessionRoute::ConnectionIsolation),
        ("/mcquic_webtransport_stream", SessionRoute::Multicast),
        ("/mcquic_permission_revocation", SessionRoute::Revocation),
        ("/mcquic_redirect_target_x", SessionRoute::Other),
        ("/create_unidi_streams/12", SessionRoute::CreateUnidiStreams(Some(12))),
        ("/create_unidi_streams/x", SessionRoute::CreateUnidiStreams(None)),
        ("/create_bidi_streams/3", SessionRoute::CreateBidiStreams(Some(3))),
        ("/create_bidi_streams/", SessionRoute::CreateBidiStreams(None)),
        ("/mcquic_auth_challenge", SessionRoute::AuthChallenge),
        ("/mcquic_redirect_target_302", SessionRoute::RedirectTarget(302)),
        ("/mcquic_redirect_count_302", SessionRoute::RedirectCount(302)),
        ("/mcquic_redirect_302", SessionRoute::RedirectFrom(302)),
        ("/create_bidi_stream_and_stop_sending", SessionRoute::CreateBidiAndStopSending),
        ("/", SessionRoute::Other),
    ] {
        assert_eq!(find_session_route(path.as_bytes()), route);
    }
}

#[test]
fn a_number_of_streams_has_to_be_named() {
    assert!(can_serve(SessionRoute::CreateUnidiStreams(Some(0))));
    assert!(!can_serve(SessionRoute::CreateUnidiStreams(None)));
    assert!(!can_serve(SessionRoute::CreateBidiStreams(None)));
    assert!(can_serve(SessionRoute::Other));
}

#[test]
fn headers_that_ask_or_authorize() {
    assert!(multicast_requested(&vec![header("wt-multicast", "?1")]));
    assert!(multicast_requested(&vec![header("WT-multicast", "?0"), header("Wt-Multicast", "?1")]));
    assert!(!multicast_requested(&vec![header("wt-multicast", "?0")]));
    assert!(!multicast_requested(&vec![header("wt-multicast", "?1;a")]));
    assert!(!multicast_requested(&vec![]));
    assert!(is_authorized(&vec![header("Authorization", "")]));
    assert!(!is_authorized(&vec![header("proxy-authorization", "x")]));
}

#[test]
fn sessions_are_answered() {
    let facts = plain_facts();
    for (route, expected) in [
        (SessionRoute::Success, "accept"),
        (SessionRoute::Other, "accept"),
        (SessionRoute::Redirect, "reject :status=302|location=/"),
        (SessionRoute::Reject, "reject :status=404"),
        (
            SessionRoute::AuthChallenge,
            "reject :status=401|www-authenticate=Basic realm=\"mcquic-test\"|wt-multicast=?1",
        ),
        (SessionRoute::NonSuccessTrue, "reject :status=404|wt-multicast=?1"),
        (
            SessionRoute::RedirectFrom(307),
            "reject :status=307|location=/mcquic_redirect_target_307|wt-multicast=?1",
        ),
        (SessionRoute::RedirectFrom(299), "reject :status=404"),
        (SessionRoute::RedirectFrom(400), "reject :status=404"),
    ] {
        let answer = answer_session(route, &facts);
        assert_eq!(response(&answer.response), expected);
        assert_eq!(answer.messages.len(), 0);
        assert_eq!(answer.streams.len(), 0);
        assert!(!answer.forgets_streams);
        assert_eq!(answer.follow_up, FollowUp::Nothing);
    }
    assert_eq!(response(&answer_without_path().response), "reject :status=404");
}

#[test]
fn sessions_that_end_early() {
    let facts = plain_facts();
    assert_eq!(answer_session(SessionRoute::CloseAfter0Ms, &facts).follow_up, FollowUp::CloseNow);
    assert_eq!(
        answer_session(SessionRoute::CloseAfter100Ms, &facts).follow_up,
        FollowUp::CloseLater
    );
    assert_eq!(
        answer_session(SessionRoute::CreateBidiAndStopSending, &facts).follow_up,
        FollowUp::StopSending
    );
}

#[test]
fn sessions_open_streams() {
    let facts = plain_facts();
    for (route, stream_type, data, forgets) in [
        (SessionRoute::CreateUnidi, StreamType::UniDi, vec![None], false),
        (SessionRoute::CreateUnidiAndHello, StreamType::UniDi, vec![Some("qwerty")], false),
        (
            SessionRoute::CreateTwoUnidiAndHello,
            StreamType::UniDi,
            vec![Some("second"), Some("first")],
            false,
        ),
        (
            SessionRoute::CreateUnidiStreams(Some(2)),
            StreamType::UniDi,
            vec![Some("stream0"), Some("stream1")],
            false,
        ),
        (
            SessionRoute::CreateBidiStreams(Some(2)),
            StreamType::BiDi,
            vec![Some("stream0"), Some("stream1")],
            true,
        ),
        (SessionRoute::CreateBidi, StreamType::BiDi, vec![None], false),
        (SessionRoute::CreateBidiAndHello, StreamType::BiDi, vec![Some("asdfg")], true),
        (
            SessionRoute::PermissionMissing,
            StreamType::UniDi,
            vec![Some("permission-missing-unicast")],
            false,
        ),
    ] {
        let answer = answer_session(route, &facts);
        assert_eq!(response(&answer.response), "accept");
        assert_eq!(answer.forgets_streams, forgets);
        assert_eq!(answer.streams.len(), data.len());
        for i in 0..data.len() {
            assert_eq!(answer.streams[i].stream_type, stream_type);
            assert_eq!(answer.streams[i].data, data[i].map(|d| d.as_bytes().to_vec()));
        }
    }
    let large = answer_session(SessionRoute::CreateBidiAndLargeData, &facts);
    assert!(large.forgets_streams);
    let data = large.streams[0].data.as_ref().unwrap();
    assert_eq!(data.len(), 32 * 1024 * 1024);
    assert!(data.iter().all(|b| *b == 1));
}

#[test]
fn permissions_are_told() {
    let facts = plain_facts();
    for (route, expected, stream) in [
        (SessionRoute::PermissionFalse, "accept wt-multicast=?0", "permission-false-unicast"),
        (
            SessionRoute::PermissionMalformed,
            "accept wt-multicast=not-a-boolean",
            "permission-malformed-unicast",
        ),
        (
            SessionRoute::UnsolicitedResponse,
            "accept wt-multicast=?1",
            "unsolicited-response-unicast",
        ),
    ] {
        let answer = answer_session(route, &facts);
        assert_eq!(response(&answer.response), expected);
        assert_eq!(answer.streams[0].data, Some(stream.as_bytes().to_vec()));
    }
    for (route, expected, message) in [
        (
            SessionRoute::ResponseDuplicate,
            "accept wt-multicast=?1|wt-multicast=?1",
            "duplicate-response-unicast",
        ),
        (
            SessionRoute::ResponseParameter,
            "accept wt-multicast=?1; ignored=token",
            "parameterized-response-unicast",
        ),
        (SessionRoute::RedirectTarget(308), "accept", "redirect-target-308"),
    ] {
        let answer = answer_session(route, &facts);
        assert_eq!(response(&answer.response), expected);
        assert_eq!(messages(&answer.messages), [message]);
    }
    let unsolicited = answer_session(SessionRoute::PermissionUnsolicited, &facts);
    assert_eq!(response(&unsolicited.response), "accept wt-multicast=?0");
    assert_eq!(unsolicited.follow_up, FollowUp::SendControls);
}

#[test]
fn multicast_is_granted_only_where_it_was_asked_for() {
    let mut facts = plain_facts();
    let isolated = answer_session(SessionRoute::ConnectionIsolation, &facts);
    assert_eq!(response(&isolated.response), "accept");
    assert_eq!(messages(&isolated.messages), ["connection=99;multicast=0"]);
    let refused = answer_session(SessionRoute::Multicast, &facts);
    assert_eq!(response(&refused.response), "accept");
    assert_eq!(refused.streams[0].data, Some(b"permission-absent-unicast".to_vec()));
    assert_eq!(refused.follow_up, FollowUp::Nothing);

    facts.multicast = true;
    let isolated = answer_session(SessionRoute::ConnectionIsolation, &facts);
    assert_eq!(response(&isolated.response), "accept wt-multicast=?1");
    assert_eq!(messages(&isolated.messages), ["connection=99;multicast=1"]);
    let granted = answer_session(SessionRoute::Multicast, &facts);
    assert_eq!(response(&granted.response), "accept wt-multicast=?1");
    assert_eq!(granted.follow_up, FollowUp::Run(McquicWebTransportScenarioKind::Full));
    let revoked = answer_session(SessionRoute::Revocation, &facts);
    assert_eq!(revoked.follow_up, FollowUp::Run(McquicWebTransportScenarioKind::Revocation));
}

#[test]
fn a_retry_is_granted_on_a_fresh_connection() {
    let mut facts = plain_facts();
    facts.multicast = true;
    let first = answer_session(SessionRoute::RetryOnce, &facts);
    assert_eq!(response(&first.response), "reject :status=421");
    facts.attempts = 2;
    let same = answer_session(SessionRoute::RetryOnce, &facts);
    assert_eq!(response(&same.response), "accept");
    assert_eq!(
        messages(&same.messages),
        [
            "attempts=2;connection=99;changed=0;sessions=1;multicast=1;resumed=0",
            "retry-authorization-failed-unicast"
        ]
    );
    facts.changed_connection = true;
    let granted = answer_session(SessionRoute::RetryOnce, &facts);
    assert_eq!(response(&granted.response), "accept wt-multicast=?1");
    assert_eq!(
        messages(&granted.messages),
        ["attempts=2;connection=99;changed=1;sessions=1;multicast=1;resumed=0"]
    );
    assert_eq!(granted.follow_up, FollowUp::Run(McquicWebTransportScenarioKind::Revocation));
    facts.resumed = true;
    let resumed = answer_session(SessionRoute::RetryOnce, &facts);
    assert_eq!(resumed.follow_up, FollowUp::Nothing);
    facts.resumed = false;
    facts.attempts = 3;
    assert_eq!(answer_session(SessionRoute::RetryOnce, &facts).follow_up, FollowUp::Nothing);
}

#[test]
fn counts_are_reported() {
    let mut facts = plain_facts();
    facts.challenges = 3;
    facts.authorizations = 1;
    facts.sources = 2;
    facts.targets = 5;
    assert_eq!(
        messages(&answer_session(SessionRoute::AuthCount, &facts).messages),
        ["requests=3;authorization=1"]
    );
    assert_eq!(
        messages(&answer_session(SessionRoute::RedirectCount(302), &facts).messages),
        ["source=2;target=5"]
    );
    assert_eq!(source_path(302), b"/mcquic_redirect_302");
    assert_eq!(target_path(302), b"/mcquic_redirect_target_302");
}

#[test]
fn requests_for_sessions_are_counted() {
    let mut server = Http3TestServer::new();
    let mut sessions = WebTransportSessions::new();
    open(&mut sessions, &mut server, 4, "/mcquic_redirect_302", false);
    open(&mut sessions, &mut server, 8, "/mcquic_redirect_302", false);
    open(&mut sessions, &mut server, 12, "/mcquic_redirect_target_302", false);
    let reply = open(&mut sessions, &mut server, 16, "/mcquic_redirect_count_302", false);
    assert_eq!(messages(&reply.messages), ["source=2;target=1"]);
    assert_eq!(server.requests(b"/mcquic_redirect_302"), 2);

    let mut named = session_request(20, 1, "/mcquic_auth_challenge", false);
    open(&mut sessions, &mut server, 20, "/mcquic_auth_challenge", false);
    named.headers.push(header("authorization", "Basic x"));
    sessions.on_new_session(&mut server, &named, 1000, 2000);
    let reply = open(&mut sessions, &mut server, 24, "/mcquic_auth_count", false);
    assert_eq!(messages(&reply.messages), ["requests=2;authorization=1"]);
}

#[test]
fn sessions_are_closed_in_time() {
    let mut server = Http3TestServer::new();
    let mut sessions = WebTransportSessions::new();
    open(&mut sessions, &mut server, 4, "/closeafter0ms", false);
    open(&mut sessions, &mut server, 8, "/closeafter100ms", false);
    assert!(sessions.is_busy());
    assert_eq!(sessions.maybe_close_session(1001), vec![4]);
    assert_eq!(sessions.maybe_close_session(1002), Vec::<u64>::new());
    assert_eq!(sessions.maybe_close_session(2001 + 100 * MS), vec![8]);
    assert!(!sessions.is_busy());
}

#[test]
fn streams_are_opened_last_one_first() {
    let mut server = Http3TestServer::new();
    let mut sessions = WebTransportSessions::new();
    server.on_new_stream(40, 1, false, true);
    open(&mut sessions, &mut server, 4, "/create_two_unidi_streams_and_hello", false);
    open(&mut sessions, &mut server, 8, "/create_bidi_stream_and_hello", false);
    // What came in on the streams so far is no longer given back.
    assert!(matches!(server.on_data(40, true, vec![1], true), DataStep::Go));
    let mut told: Vec<(u64, String)> = Vec::new();
    while let Some((session, stream)) = sessions.maybe_create_wt_stream() {
        told.push((session, String::from_utf8(stream.data.unwrap()).unwrap()));
    }
    assert_eq!(
        told,
        [(8, "asdfg".to_string()), (4, "first".to_string()), (4, "second".to_string())]
    );
}

#[test]
fn sending_is_stopped_in_a_later_flight() {
    let mut server = Http3TestServer::new();
    let mut sessions = WebTransportSessions::new();
    open(&mut sessions, &mut server, 4, "/create_bidi_stream_and_stop_sending", false);
    assert_eq!(sessions.maybe_create_wt_stream_and_stop_sending(), Some(4));
    assert_eq!(sessions.maybe_create_wt_stream_and_stop_sending(), None);
    sessions.on_stream_to_stop(17, 1000);
    assert!(sessions.is_busy());
    assert_eq!(sessions.maybe_stop_sending(1000 + 200 * MS - 1), Vec::<u64>::new());
    assert_eq!(sessions.maybe_stop_sending(1000 + 200 * MS), vec![17]);
    assert!(!sessions.is_busy());
}

#[test]
fn a_retry_compares_connections() {
    let mut server = Http3TestServer::new();
    let mut sessions = WebTransportSessions::new();
    let first = open(&mut sessions, &mut server, 4, "/mcquic_permission_retry_once", true);
    assert_eq!(response(&first.response), "reject :status=421");
    let again = session_request(8, 2, "/mcquic_permission_retry_once", true);
    let reply = sessions.on_new_session(&mut server, &again, 1000, 2000);
    assert_eq!(response(&reply.response), "accept wt-multicast=?1");
    assert_eq!(
        messages(&reply.messages),
        ["attempts=2;connection=200;changed=1;sessions=1;multicast=1;resumed=0"]
    );
    assert_eq!(reply.scenario, Some(McquicWebTransportScenarioKind::Revocation));
}

#[test]
fn one_scenario_runs_at_a_time() {
    let mut server = Http3TestServer::new();
    let mut sessions = WebTransportSessions::new();
    let reply = open(&mut sessions, &mut server, 4, "/mcquic_webtransport_stream", true);
    assert_eq!(reply.scenario, Some(McquicWebTransportScenarioKind::Full));
    sessions.on_scenario_created(4, McquicWebTransportScenarioKind::Full, 1000, None);
    assert!(sessions.is_busy());
    let reply = open(&mut sessions, &mut server, 8, "/mcquic_webtransport_stream", true);
    assert_eq!(reply.scenario, None);
    assert_eq!(sessions.maybe_send_mcquic_webtransport_status(1000 + 150 * MS - 1), None);
    assert_eq!(
        sessions.maybe_send_mcquic_webtransport_status(1000 + 150 * MS),
        Some((8, b"MCQUIC-ERROR:another MCQUIC WebTransport scenario is active".to_vec()))
    );
    let scenario = sessions.take_scenario().unwrap();
    assert_eq!(scenario.session(), 4);
    assert!(sessions.take_scenario().is_none());
    assert_eq!(sessions.advance_mcquic_webtransport_scenario(scenario, None), None);
    let scenario = sessions.take_scenario().unwrap();
    assert_eq!(
        sessions.advance_mcquic_webtransport_scenario(scenario, Some("no luck")),
        Some((4, b"MCQUIC-ERROR:no luck".to_vec()))
    );
    assert!(!sessions.is_busy());
}

#[test]
fn a_scenario_that_cannot_be_set_up_is_told() {
    let mut server = Http3TestServer::new();
    let mut sessions = WebTransportSessions::new();
    open(&mut sessions, &mut server, 4, "/mcquic_webtransport_stream", true);
    sessions.on_scenario_created(4, McquicWebTransportScenarioKind::Full, 1000, Some("no route"));
    // The next one waits until that is told.
    let reply = open(&mut sessions, &mut server, 8, "/mcquic_webtransport_stream", true);
    assert_eq!(reply.scenario, None);
    let (session, message) =
        sessions.maybe_send_mcquic_webtransport_status(1000 + 150 * MS).unwrap();
    assert_eq!(session, 8);
    assert_eq!(message, b"MCQUIC-ERROR:another MCQUIC WebTransport scenario is active");

    let mut sessions = WebTransportSessions::new();
    sessions.on_scenario_created(4, McquicWebTransportScenarioKind::Full, 1000, Some("no route"));
    assert_eq!(
        sessions.maybe_send_mcquic_webtransport_status(1000 + 150 * MS),
        Some((4, b"MCQUIC-ERROR:loopback SSM unavailable: no route".to_vec()))
    );
}

#[test]
fn unsolicited_controls_are_followed_by_a_message() {
    let mut server = Http3TestServer::new();
    let mut sessions = WebTransportSessions::new();
    let reply = open(&mut sessions, &mut server, 4, "/mcquic_permission_unsolicited", false);
    assert!(reply.sends_controls);
    assert_eq!(sessions.maybe_send_mcquic_webtransport_status(1000 + 400 * MS - 1), None);
    assert_eq!(
        sessions.maybe_send_mcquic_webtransport_status(1000 + 400 * MS),
        Some((4, b"unsolicited-controls-unicast".to_vec()))
    );
}

#[test]
fn frames_name_the_channel() {
    match announce(5000) {
        ServerFrame::Announce {
            channel_id,
            source,
            group,
            udp_port,
            header_protection_algorithm,
            header_secret,
            aead_algorithm,
            integrity_hash_algorithm,
            max_rate_kibps,
            max_ack_delay_ms,
        } => {
            assert_eq!(channel_id, b"mcquic-wt-test");
            assert_eq!((source, group, udp_port), ([127, 0, 0, 1], [232, 0, 0, 1], 5000));
            assert_eq!((header_protection_algorithm, aead_algorithm), (0x1301, 0x1301));
            assert_eq!(header_secret, vec![0x11; 32]);
            assert_eq!((integrity_hash_algorithm, max_rate_kibps, max_ack_delay_ms), (1, 1024, 10));
        }
        _ => unreachable!(),
    }
    match first_key() {
        ServerFrame::Key { key_sequence, from_packet_number, secret, .. } => {
            assert_eq!((key_sequence, from_packet_number), (1, 0));
            assert_eq!(secret, vec![0x22; 32]);
        }
        _ => unreachable!(),
    }
    match second_key(9) {
        ServerFrame::Key { key_sequence, from_packet_number, secret, .. } => {
            assert_eq!((key_sequence, from_packet_number), (2, 9));
            assert_eq!(secret, vec![0x33; 32]);
        }
        _ => unreachable!(),
    }
    match control_frame(ScenarioOp::SendJoin { limits_sequence: 3, state_sequence: 4 }, 1) {
        Some(ServerFrame::Join {
            channel_id,
            mc_limits_sequence,
            mc_state_sequence,
            mc_key_sequence,
        }) => {
            assert_eq!(channel_id, b"mcquic-wt-test");
            assert_eq!((mc_limits_sequence, mc_state_sequence, mc_key_sequence), (3, 4, 1));
        }
        _ => unreachable!(),
    }
    match control_frame(ScenarioOp::SendRetire { after_packet_number: 6 }, 1) {
        Some(ServerFrame::Retire { after_packet_number, .. }) => assert_eq!(after_packet_number, 6),
        _ => unreachable!(),
    }
    assert!(control_frame(ScenarioOp::SendPacket, 1).is_none());
}

#[test]
fn only_the_probe_itself_is_accepted() {
    let local = IpAddress::V4([127, 0, 0, 1]);
    assert_eq!(probe(), b"mcquic-loopback-ssm-probe");
    assert!(is_probe(&local, &probe()));
    assert!(!is_probe(&local, b"mcquic-loopback-ssm-prob"));
    assert!(!is_probe(&IpAddress::V4([127, 0, 0, 2]), &probe()));
}

#[test]
fn messages_begin_with_the_prefix() {
    let prefix = mcquic_webtransport_prefix(4).unwrap();
    assert_eq!(prefix, [0x40, 0x54, 0xc0, 0, 0, 0, 0, 0, 0, 4]);
    assert_eq!(
        raw_webtransport_message(4, b"ab").unwrap(),
        [0x40, 0x54, 0xc0, 0, 0, 0, 0, 0, 0, 4, b'a', b'b']
    );
    let complete = message_bytes(4, Message::Complete { acks: 12 }).unwrap();
    assert_eq!(&complete[10..], b"mcquic-complete:declined,joined,left,retired;acks=12");
    assert_eq!(mcquic_webtransport_prefix((1 << 62) - 1).unwrap(), {
        let mut all = vec![0x40, 0x54];
        all.extend(vec![0xff; 8]);
        all
    });
    assert_eq!(
        failure(mcquic_webtransport_prefix(1 << 62)),
        "WebTransport session ID 4611686018427387904 is not a QUIC varint"
    );
    assert_eq!(
        failure(raw_webtransport_message(1 << 62, b"")),
        "WebTransport session ID 4611686018427387904 is not a QUIC varint"
    );
    assert!(message_bytes(1 << 62, Message::Text("x")).is_err());
    assert!(check_write("short write: ", 5, 5).is_ok());
    assert_eq!(failure(check_write("short write: ", 3, 5)), "short write: 3/5");
}

fn failure<T>(result: Result<T, ScenarioError>) -> String {
    match result {
        Err(ScenarioError::Failed(text)) => text,
        Err(ScenarioError::TimedOut(phase)) => format!("timed out in {phase:?}"),
        Ok(_) => "no failure".to_string(),
    }
}

fn ack(packet: u64) -> Feedback {
    Feedback::Ack { channel_id: b"mcquic-wt-test".to_vec(), largest_acknowledged: packet }
}

fn state(state: McquicChannelState, sequence: u64) -> Feedback {
    Feedback::State { channel_id: b"mcquic-wt-test".to_vec(), state, sequence, reason_code: 7 }
}

fn zero_limits(sequence: u64) -> Feedback {
    Feedback::Limits {
        sequence,
        ipv4_channels_allowed: false,
        ipv6_channels_allowed: false,
        max_aggregate_rate_kibps: 0,
        max_channel_ids: 0,
        max_joined_count: 0,
    }
}

/// Does the operations that are due, tells them, and goes on to the next phase.
fn step(scenario: &mut McquicWebTransportScenario, now: u64, packet: u64, stream: u64) -> String {
    let ops = scenario.advance(now).unwrap().unwrap();
    let told: Vec<String> = ops.iter().map(|op| format!("{op:?}")).collect();
    let outcome = StepOutcome {
        stream_id: stream,
        packet_number: packet,
        from_packet_number: packet,
    };
    scenario.finish_step(now, outcome);
    told.join(";")
}

fn waits(scenario: &McquicWebTransportScenario, now: u64) -> bool {
    scenario.advance(now).unwrap().is_none()
}

#[test]
fn a_scenario_starts_after_a_moment() {
    let mut scenario = McquicWebTransportScenario::new(4, 1000);
    assert!(matches!(scenario.begin(1000), Ok(Begin::Wait)));
    assert!(matches!(scenario.begin(1000 + 150 * MS), Ok(Begin::Start)));
    assert_eq!(
        failure(scenario.start(false)),
        "client did not advertise generic MCQUIC transport parameters"
    );
    let ops = scenario.start(true).unwrap();
    assert_eq!(
        format!("{ops:?}"),
        "[SendAnnounce, SendJoin { limits_sequence: 0, state_sequence: 0 }]"
    );
    scenario.mark_started();
    assert!(matches!(scenario.begin(1000), Ok(Begin::Run)));
    match scenario.begin(1000 + 20_000 * MS) {
        Err(ScenarioError::TimedOut(phase)) => {
            assert_eq!(phase, McquicWebTransportPhase::AwaitingInitialDecline)
        }
        _ => unreachable!(),
    }
}

#[test]
fn a_full_scenario_runs_to_its_end() {
    let mut scenario = McquicWebTransportScenario::new(4, 0);
    let mut now: u64 = 0;
    assert!(waits(&scenario, now));
    scenario.feedback(&state(McquicChannelState::DeclinedJoin, 3)).unwrap();
    assert_eq!(
        step(&mut scenario, now, 0, 1),
        "CreateStream;SendMessage(Text(\"unicast-fallback-before-join\"));CloseMessage;\
         SendFirstKey;SendJoin { limits_sequence: 0, state_sequence: 3 }"
    );
    assert!(waits(&scenario, now));
    scenario.feedback(&state(McquicChannelState::Joined, 4)).unwrap();
    assert_eq!(
        step(&mut scenario, now, 10, 0),
        "WriteStreamPacket { stream: Known(4000003), offset: 10, data: \"sparse-high-stream\" };\
         SendIntegrity;SendPacket"
    );
    assert!(waits(&scenario, now));
    assert!(!scenario.acknowledged(10));
    scenario.feedback(&ack(10)).unwrap();
    assert!(scenario.acknowledged(10));
    assert_eq!(
        step(&mut scenario, now, 11, 0),
        "WriteResetPacket { stream: Known(4000007), final_size: 0 };SendIntegrity;SendPacket"
    );
    scenario.feedback(&ack(11)).unwrap();
    assert_eq!(step(&mut scenario, now, 0, 0), "");
    assert!(waits(&scenario, now + 150 * MS - 1));
    now += 150 * MS;
    assert_eq!(
        step(&mut scenario, now, 12, 7),
        "CreateStream;WriteStreamPacket { stream: New, offset: 10, data: \
         \"multicast-before-prefix\" };SendIntegrity;SendPacket"
    );
    scenario.feedback(&ack(12)).unwrap();
    assert_eq!(
        step(&mut scenario, now, 13, 11),
        "SendPrefix(Known(7));CreateStream;SendPrefix(New);WriteStreamPacket { stream: New, \
         offset: 15, data: \"tail\" };SendIntegrity;SendPacket"
    );
    scenario.feedback(&ack(13)).unwrap();
    assert_eq!(
        step(&mut scenario, now, 14, 15),
        "SendBytes(Known(11), \"lost-\");RotateKey;CreateStream;SendPrefix(New);\
         WriteStreamPacket { stream: New, offset: 10, data: \"multicast-key-delayed\" };\
         SendIntegrity;SendPacket"
    );
    scenario.feedback(&ack(14)).unwrap();
    assert!(waits(&scenario, now));
    now += 150 * MS;
    assert_eq!(step(&mut scenario, now, 0, 0), "SendSecondKey { from_packet_number: 14 }");
    assert_eq!(
        step(&mut scenario, now, 15, 19),
        "CreateStream;SendPrefix(New);WriteStreamPacket { stream: New, offset: 10, data: \
         \"multicast-integrity-delayed\" };SendPacket"
    );
    scenario.feedback(&ack(15)).unwrap();
    now += 150 * MS;
    assert_eq!(step(&mut scenario, now, 0, 0), "SendIntegrity");
    assert_eq!(step(&mut scenario, now, 0, 23), "CreateStream;SendPrefix(New)");
    now += 150 * MS;
    assert_eq!(
        step(&mut scenario, now, 16, 0),
        "WriteResetPacket { stream: Known(23), final_size: 10 };SendIntegrity;SendPacket"
    );
    scenario.feedback(&ack(16)).unwrap();
    assert_eq!(
        step(&mut scenario, now, 0, 0),
        "SendLeave { state_sequence: 4, after_packet_number: 16 }"
    );
    scenario.feedback(&state(McquicChannelState::Left, 5)).unwrap();
    assert_eq!(
        step(&mut scenario, now, 0, 0),
        "CreateStream;SendMessage(Text(\"unicast-fallback-after-leave\"));CloseMessage"
    );
    now += 150 * MS;
    assert_eq!(step(&mut scenario, now, 0, 0), "SendRetire { after_packet_number: 16 }");
    assert!(waits(&scenario, now));
    assert!(!scenario.is_complete());
    scenario.feedback(&state(McquicChannelState::Retired, 6)).unwrap();
    assert_eq!(
        step(&mut scenario, now, 0, 0),
        "CreateStream;SendMessage(Complete { acks: 7 });CloseMessage"
    );
    assert!(scenario.is_complete());
    assert!(waits(&scenario, now));
}

#[test]
fn a_revocation_ends_with_zero_limits() {
    let mut scenario = McquicWebTransportScenario::new_revocation(4, 0);
    scenario.feedback(&state(McquicChannelState::DeclinedJoin, 1)).unwrap();
    step(&mut scenario, 0, 0, 0);
    scenario.feedback(&state(McquicChannelState::Joined, 2)).unwrap();
    assert_eq!(
        step(&mut scenario, 0, 10, 7),
        "CreateStream;SendPrefix(New);WriteStreamPacket { stream: New, offset: 10, data: \
         \"multicast-before-revocation\" };SendIntegrity;SendPacket"
    );
    scenario.feedback(&ack(10)).unwrap();
    assert_eq!(step(&mut scenario, 0, 0, 0), "");
    scenario.feedback(&state(McquicChannelState::Left, 3)).unwrap();
    assert!(waits(&scenario, 0));
    scenario.feedback(&zero_limits(9)).unwrap();
    assert_eq!(
        step(&mut scenario, 0, 0, 0),
        "CreateStream;SendMessage(Text(\"unicast-fallback-after-revocation\"));CloseMessage"
    );
    assert!(scenario.is_complete());
    scenario.feedback(&ack(11)).unwrap();
    scenario.feedback(&zero_limits(10)).unwrap();
    assert!(waits(&scenario, 1000 * MS));
    assert!(scenario.is_complete());
}

#[test]
fn wrong_feedback_fails_a_scenario() {
    let mut scenario = McquicWebTransportScenario::new(4, 0);
    assert_eq!(
        failure(scenario.feedback(&state(McquicChannelState::Joined, 1))),
        "client joined before declining the intentionally unsynchronized join"
    );
    assert_eq!(
        failure(scenario.feedback(&Feedback::Ack {
            channel_id: b"other".to_vec(),
            largest_acknowledged: 1
        })),
        "client ACK named an unexpected MCQUIC channel"
    );
    assert_eq!(
        failure(scenario.feedback(&Feedback::State {
            channel_id: b"other".to_vec(),
            state: McquicChannelState::Left,
            sequence: 1,
            reason_code: 0
        })),
        "client state named an unexpected MCQUIC channel"
    );
    assert_eq!(
        failure(scenario.feedback(&Feedback::Other("Key".to_string()))),
        "unexpected client MCQUIC feedback frame: Key"
    );
    assert_eq!(
        failure::<()>(Err(McquicWebTransportScenario::missing_feedback())),
        "MCQUIC feedback was readable but no frame was returned"
    );
    scenario.feedback(&state(McquicChannelState::DeclinedJoin, 1)).unwrap();
    step(&mut scenario, 0, 0, 0);
    assert_eq!(
        failure(scenario.feedback(&state(McquicChannelState::DeclinedJoin, 2))),
        "client unexpectedly declined MCQUIC join after key installation: reason 7"
    );
}

#[test]
fn retiring_early_fails_a_scenario() {
    let mut scenario = McquicWebTransportScenario::new(4, 0);
    scenario.feedback(&state(McquicChannelState::DeclinedJoin, 1)).unwrap();
    step(&mut scenario, 0, 0, 0);
    scenario.feedback(&state(McquicChannelState::Joined, 2)).unwrap();
    scenario.feedback(&state(McquicChannelState::Left, 3)).unwrap();
    scenario.feedback(&state(McquicChannelState::Retired, 4)).unwrap();
    // Every packet has the same number, so that one acknowledgement is enough for all of them.
    scenario.feedback(&ack(1)).unwrap();
    let mut now: u64 = 0;
    for _ in 0..13 {
        now += 150 * MS;
        step(&mut scenario, now, 1, 3);
    }
    now += 150 * MS;
    step(&mut scenario, now, 1, 3);
    assert_eq!(failure(scenario.advance(now)), "client retired after only 1 MC_ACK frames");
}

#[test]
fn streams_are_resolved() {
    let outcome = StepOutcome { stream_id: 5, packet_number: 0, from_packet_number: 0 };
    assert_eq!(outcome.resolve(StreamRef::New), 5);
    assert_eq!(outcome.resolve(StreamRef::Known(9)), 9);
    assert_eq!(StepOutcome::new().resolve(StreamRef::New), 0);
}

#[test]
fn numbers_are_read_back() {
    for n in [0, 9, 10, 307, 65535, u64::MAX] {
        assert_eq!(parse_unsigned(decimal_text(n).as_bytes(), u64::MAX), Some(n));
    }
    assert_eq!(decimal_text(307), "307");
    assert_eq!(parse_unsigned(b"65536", 65535), None);
}

#[test]
fn redirections_lead_to_their_targets() {
    for status in [300, 302, 399] {
        assert_eq!(find_session_route(&source_path(status)), SessionRoute::RedirectFrom(status));
        assert_eq!(find_session_route(&target_path(status)), SessionRoute::RedirectTarget(status));
    }
}
