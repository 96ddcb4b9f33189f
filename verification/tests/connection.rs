//! Connections: their set-up, their events, their input and output, and what is recorded of them.
use neqo_glue::address::{IpAddress, SocketAddress};
use neqo_glue::codec::{
    neqo_decode, neqo_decode_remainder, neqo_decode_uint32, neqo_decode_varint,
    neqo_decoder_offset, neqo_decoder_remaining, neqo_encode_buffer, neqo_encode_byte,
    neqo_encode_get_data, neqo_encode_uint, neqo_encode_varint, neqo_encode_varint_len,
    neqo_encode_vvec, NeqoDecoder, NeqoEncoder,
};
use neqo_glue::conn::{
    body_sent, check_socket, check_urgency, close_message, configure, connect_request,
    connection_target, datagram_sent, done_or, fetch_request, get_stats, max_datagram_size,
    post_quantum_groups, qlog_file_name, qlog_request, response_read, session_request,
    stream_opened, tracking_id, CongestionControl, ConnectionPreferences, ConnectionRequest,
    HyStartCssBaseline, KeyGroup, PacketStats, SlowStart,
};
use neqo_glue::errors::{
    CloseError, CloseReason, Http3Error, TransportError, TransportFailure,
};
use neqo_glue::events::{
    closing_label, neqo_http3conn_event, stream_type, ConnectUdpEvent, ConnectUdpEventExternal,
    Http3ClientEvent, Http3Event, Http3State, SessionCloseReason, SessionCloseReasonExternal,
    StreamType, WebTransportEvent, WebTransportEventExternal, WebTransportStreamType,
};
use neqo_glue::headers::Header;
use neqo_glue::io::{
    callback_timeout, cap, gso_segments, into_nsresult, nspr_len, nspr_paused, nspr_sent, Batch,
    InputLoop, InputStep, IoErrorKind, NextOutput, NsprStep, Outbox, OutputLoop, OutputPreferences, OutputStep, Pause,
    SendOutcome, WouldBlockCounter,
};
use neqo_glue::metrics::{
    can_record, record_stats_in_glean, CongestionEvents, CongestionStats, Counter, Distribution,
    EcnCount, FrameStats, MetricsPreferences, Record, SlowStartExitReason, TransportStats,
    ValidationOutcome,
};
use neqo_glue::nsresult::NsResult;
use neqo_glue::probe::{Ecn, FastPathProbe};
use thin_vec::ThinVec;

#[test]
fn would_block_is_counted_on_each_side() {
    let mut counter = WouldBlockCounter::new();
    counter.increment_rx();
    counter.increment_rx();
    counter.increment_tx();
    assert_eq!(counter.rx_count(), 2);
    assert_eq!(counter.tx_count(), 1);
}

#[test]
fn io_errors_are_told() {
    for (kind, result) in [
        (IoErrorKind::ConnectionRefused, NsResult::NS_ERROR_CONNECTION_REFUSED),
        (IoErrorKind::ConnectionReset, NsResult::NS_ERROR_NET_RESET),
        (IoErrorKind::NotConnected, NsResult::NS_ERROR_NOT_CONNECTED),
        (IoErrorKind::AddrInUse, NsResult::NS_ERROR_SOCKET_ADDRESS_IN_USE),
        (IoErrorKind::AlreadyExists, NsResult::NS_ERROR_FILE_ALREADY_EXISTS),
        (IoErrorKind::WouldBlock, NsResult::NS_BASE_STREAM_WOULD_BLOCK),
        (IoErrorKind::TimedOut, NsResult::NS_ERROR_NET_TIMEOUT),
        (IoErrorKind::Interrupted, NsResult::NS_ERROR_NET_INTERRUPT),
        (IoErrorKind::OutOfMemory, NsResult::NS_ERROR_OUT_OF_MEMORY),
        (IoErrorKind::Other, NsResult::NS_ERROR_NET_RESET),
    ] {
        assert_eq!(into_nsresult(kind), result);
    }
    assert_eq!(cap(7), 7);
    assert_eq!(cap(usize::MAX), u32::MAX);
}

#[test]
fn input_is_read_until_the_socket_is_empty() {
    let mut counter = WouldBlockCounter::new();
    let mut input = InputLoop::new();
    match input.received(Ok(vec![1200, 40]), true, &mut counter) {
        InputStep::Process { keep_marks, segment_sizes, size, segments } => {
            assert!(keep_marks);
            assert_eq!(segment_sizes, vec![1200, 40]);
            assert_eq!(size, 1240);
            assert_eq!(segments, 2);
        }
        InputStep::Finished(_) => panic!("more is to be read"),
    }
    match input.received(Err(IoErrorKind::WouldBlock), true, &mut counter) {
        InputStep::Finished(done) => {
            assert_eq!(done.result, NsResult::NS_OK);
            assert_eq!(done.bytes_read, 1240);
        }
        InputStep::Process { .. } => panic!("nothing is to be read"),
    }
    assert_eq!(counter.rx_count(), 1);
    match input.received(Err(IoErrorKind::ConnectionReset), true, &mut counter) {
        InputStep::Finished(done) => {
            assert_eq!(done.result, NsResult::NS_ERROR_NET_RESET);
            assert_eq!(done.bytes_read, 0);
        }
        InputStep::Process { .. } => panic!("nothing is to be read"),
    }
}

fn output_prefs() -> OutputPreferences {
    OutputPreferences {
        max_gso_segments: 10,
        ecn_mark: true,
        block_loopback_ipv6_addr: true,
        pr_poll_write: true,
    }
}

fn batch(len: usize, num_datagrams: usize) -> Batch {
    Batch { destination: IpAddress::V4([127, 0, 0, 1]), len, datagram_size: 1000, num_datagrams }
}

#[test]
fn batches_that_were_sent_are_recorded() {
    let mut counter = WouldBlockCounter::new();
    let mut output = OutputLoop::new();
    assert_eq!(output.prepare(&batch(2500, 3), &output_prefs()), Ok(true));
    match output.sent(&batch(2500, 3), SendOutcome::Sent, &output_prefs(), &mut counter) {
        OutputStep::Continue(records) => {
            assert_eq!(records.size, 2500);
            assert_eq!(records.segments, 3);
            assert_eq!(records.segment_sizes, vec![1000, 1000, 500]);
        }
        _ => panic!("more is to be written"),
    }
    let eio = SendOutcome::Failed { kind: IoErrorKind::Other, eio: true };
    assert!(matches!(
        output.sent(&batch(2000, 2), eio, &output_prefs(), &mut counter),
        OutputStep::Continue(_)
    ));
    match output.paused(Pause::Callback(1_500_000)) {
        OutputStep::SetTimer(millis, done) => {
            assert_eq!(millis, 1);
            assert_eq!(done.bytes_written, 4500);
            assert_eq!(done.result, NsResult::NS_OK);
        }
        _ => panic!("the timer is to be set"),
    }
    assert!(matches!(output.paused(Pause::Nothing), OutputStep::SetTimer(u64::MAX, _)));
}

#[test]
fn batches_that_failed() {
    let mut counter = WouldBlockCounter::new();
    let mut output = OutputLoop::new();
    let blocked = SendOutcome::Failed { kind: IoErrorKind::WouldBlock, eio: false };
    match output.sent(&batch(100, 1), blocked, &output_prefs(), &mut counter) {
        OutputStep::Keep(done) => {
            assert_eq!(done.result, NsResult::NS_BASE_STREAM_WOULD_BLOCK);
            assert_eq!(done.bytes_written, 0);
        }
        _ => panic!("the batch is to be kept"),
    }
    let prefs = OutputPreferences { pr_poll_write: false, ..output_prefs() };
    match output.sent(&batch(100, 1), blocked, &prefs, &mut counter) {
        OutputStep::Finished(done) => assert_eq!(done.result, NsResult::NS_OK),
        _ => panic!("writing is over"),
    }
    assert_eq!(counter.tx_count(), 2);
    let eio = SendOutcome::Failed { kind: IoErrorKind::Other, eio: true };
    match output.sent(&batch(100, 1), eio, &prefs, &mut counter) {
        OutputStep::Finished(done) => assert_eq!(done.result, NsResult::NS_ERROR_NET_RESET),
        _ => panic!("writing is over"),
    }
    let mut loopback = [0; 16];
    loopback[15] = 1;
    let to_loopback = Batch { destination: IpAddress::V6(loopback), ..batch(100, 1) };
    let refused = output.prepare(&to_loopback, &prefs).unwrap_err();
    assert_eq!(refused.result, NsResult::NS_ERROR_CONNECTION_REFUSED);
}

#[test]
fn a_kept_batch_goes_first() {
    let mut counter = WouldBlockCounter::new();
    let mut outbox: Outbox<&str> = Outbox::new();
    let mut output = OutputLoop::new();
    assert!(matches!(outbox.next(), NextOutput::Ask));
    let step = output.sent(&batch(2500, 3), SendOutcome::Sent, &output_prefs(), &mut counter);
    outbox.settle(&step, "first");
    assert!(matches!(outbox.next(), NextOutput::Ask));
    let blocked = SendOutcome::Failed { kind: IoErrorKind::WouldBlock, eio: false };
    let step = output.sent(&batch(100, 1), blocked, &output_prefs(), &mut counter);
    match &step {
        OutputStep::Keep(done) => {
            assert_eq!(done.result, NsResult::NS_BASE_STREAM_WOULD_BLOCK);
            assert_eq!(done.bytes_written, 2500);
        }
        _ => panic!("the batch is to be kept"),
    }
    outbox.settle(&step, "second");
    assert!(matches!(outbox.next(), NextOutput::Send("second")));
    assert!(matches!(outbox.next(), NextOutput::Ask));
}

#[test]
fn sums_of_bytes_have_limits() {
    let mut counter = WouldBlockCounter::new();
    let mut input = InputLoop::new();
    assert!(input.can_count(&vec![usize::MAX]));
    assert!(!input.can_count(&vec![usize::MAX, 1]));
    input.received(Ok(vec![2]), true, &mut counter);
    assert!(input.can_count(&vec![usize::MAX - 2]));
    assert!(!input.can_count(&vec![usize::MAX - 2, 1]));
    let mut output = OutputLoop::new();
    output.sent(&batch(2, 1), SendOutcome::Sent, &output_prefs(), &mut counter);
    assert!(output.can_count(&batch(usize::MAX - 2, 1)));
    assert!(!output.can_count(&batch(usize::MAX - 1, 1)));
}

#[test]
fn would_blocks_are_reported() {
    let mut counter = WouldBlockCounter::new();
    let mut input = InputLoop::new();
    let mut output = OutputLoop::new();
    let blocked = SendOutcome::Failed { kind: IoErrorKind::WouldBlock, eio: false };
    let reset = SendOutcome::Failed { kind: IoErrorKind::ConnectionReset, eio: false };
    for outcome in [SendOutcome::Sent, blocked, reset] {
        output.sent(&batch(100, 1), outcome, &output_prefs(), &mut counter);
    }
    input.received(Ok(vec![100]), true, &mut counter);
    input.received(Err(IoErrorKind::WouldBlock), true, &mut counter);
    input.received(Err(IoErrorKind::TimedOut), true, &mut counter);
    input.received(Err(IoErrorKind::WouldBlock), true, &mut counter);
    let packets = PacketStats {
        packets_rx: 0,
        dups_rx: 0,
        dropped_rx: 0,
        saved_datagrams: 0,
        packets_tx: 0,
        lost: 0,
        late_ack: 0,
        pto_ack: 0,
        pto_counts: [0; 16],
    };
    let stats = get_stats(&packets, &counter);
    assert_eq!((stats.would_block_rx, stats.would_block_tx), (2, 1));
}

#[test]
fn segments_and_timers_have_limits() {
    assert_eq!(gso_segments(4, 10), Ok(4));
    assert_eq!(gso_segments(40, 10), Ok(10));
    assert_eq!(gso_segments(0, 10).unwrap_err().result, NsResult::NS_ERROR_UNEXPECTED);
    assert_eq!(gso_segments(4, 0).unwrap_err().result, NsResult::NS_ERROR_UNEXPECTED);
    assert_eq!(callback_timeout(25_000_000), Some(25));
    assert_eq!(callback_timeout(25_999_999), Some(25));
    assert_eq!(nspr_len(1200), Ok(1200));
    assert_eq!(nspr_len(1 << 33), Err(NsResult::NS_ERROR_UNEXPECTED));
    assert_eq!(nspr_sent(NsResult::NS_OK), NsprStep::Continue);
    assert_eq!(
        nspr_sent(NsResult::NS_ERROR_NET_RESET),
        NsprStep::Finished(NsResult::NS_ERROR_NET_RESET)
    );
    assert_eq!(nspr_paused(Pause::Nothing), NsprStep::SetTimer(u64::MAX));
    assert_eq!(nspr_paused(Pause::Callback(7_000_000)), NsprStep::SetTimer(7));
}

fn prefs() -> ConnectionPreferences {
    ConnectionPreferences {
        fuzzing: false,
        cc_algorithm: 0,
        slow_start_algorithm: 2,
        pmtud: true,
        spurious_recovery: true,
        hystart_alternative_css_baseline: true,
        grease: true,
        sni_slicing: false,
        send_p256_keyshare: true,
        tls_enable_kyber: true,
        http3_enable_kyber: true,
        tls_certificate_compression_zlib: true,
        http3_certificate_compression_zlib: true,
        tls_certificate_compression_zstd: true,
        http3_certificate_compression_zstd: false,
        tls_certificate_compression_brotli: false,
        http3_certificate_compression_brotli: true,
    }
}

fn request() -> ConnectionRequest {
    ConnectionRequest {
        max_table_size: 65_536,
        max_blocked_streams: 20,
        max_data: 1 << 24,
        max_stream_data: 1 << 20,
        version_negotiation: true,
        webtransport: true,
        mcquic_enabled: true,
        idle_timeout: 30,
        fast_pto: 100,
        pmtud_enabled: false,
        socket_may_fragment: Some(false),
    }
}

#[test]
fn connections_are_configured() {
    let config = configure(&request(), &prefs());
    assert!(config.all_versions && config.grease && !config.sni_slicing);
    assert_eq!(config.congestion_control, CongestionControl::NewReno);
    assert_eq!(config.slow_start, SlowStart::Search);
    assert_eq!(config.css_baseline, HyStartCssBaseline::EntryThreshold);
    assert!(config.pmtud && config.spurious_recovery);
    assert_eq!(config.fast_pto, Some(100));
    assert_eq!(config.idle_timeout, 30_000);
    let fuzzed = ConnectionPreferences { fuzzing: true, ..prefs() };
    assert_eq!(configure(&request(), &fuzzed).idle_timeout, 10);
    assert_eq!(config.additional_key_shares, 2);
    assert!(config.offer_post_quantum);
    assert!(config.zlib && !config.zstd && !config.brotli);
    let mcquic = config.mcquic.unwrap();
    assert_eq!(mcquic.hash_algorithm, 1);
    assert_eq!(mcquic.encryption_algorithm, 0x1301);
    assert_eq!(mcquic.limits.max_channel_ids, 32);
    assert_eq!(mcquic.limits.max_aggregate_rate_kibps, 100_000);
}

#[test]
fn unknown_preferences_fall_back() {
    let other = ConnectionPreferences {
        cc_algorithm: 9,
        slow_start_algorithm: 9,
        hystart_alternative_css_baseline: false,
        http3_enable_kyber: false,
        ..prefs()
    };
    let asked = ConnectionRequest { fast_pto: 256, mcquic_enabled: false, ..request() };
    let config = configure(&asked, &other);
    assert_eq!(config.congestion_control, CongestionControl::Cubic);
    assert_eq!(config.slow_start, SlowStart::Classic);
    assert_eq!(config.css_baseline, HyStartCssBaseline::CurrentRoundMinRtt);
    assert_eq!(config.fast_pto, None);
    assert!(config.mcquic.is_none() && !config.offer_post_quantum);
    assert_eq!(config.additional_key_shares, 1);
    let zero = ConnectionRequest { fast_pto: 0, ..request() };
    assert_eq!(configure(&zero, &prefs()).fast_pto, None);
}

#[test]
fn the_path_is_probed_only_with_a_fitting_socket() {
    let nspr = ConnectionRequest { socket_may_fragment: None, ..request() };
    assert!(!configure(&nspr, &prefs()).pmtud);
    let fragmenting = ConnectionRequest { socket_may_fragment: Some(true), ..request() };
    assert!(!configure(&fragmenting, &prefs()).pmtud);
    for unfit in [nspr, fragmenting] {
        let asked = ConnectionRequest { pmtud_enabled: true, ..unfit };
        assert!(!configure(&asked, &prefs()).pmtud);
    }
    let fitting = ConnectionRequest { socket_may_fragment: Some(false), ..request() };
    assert!(configure(&fitting, &prefs()).pmtud);
    let without = ConnectionPreferences { pmtud: false, ..prefs() };
    assert!(!configure(&ConnectionRequest { pmtud_enabled: false, ..fitting }, &without).pmtud);
    assert!(configure(&ConnectionRequest { pmtud_enabled: true, ..fitting }, &without).pmtud);
}

#[test]
fn groups_and_sockets() {
    let groups = post_quantum_groups();
    assert_eq!(groups.len(), 5);
    assert_eq!(groups[0], KeyGroup::Mlkem768X25519);
    assert_eq!(groups[4], KeyGroup::Secp521R1);
    assert_eq!(check_socket(5), Ok(5));
    assert_eq!(check_socket(-1), Err(NsResult::NS_ERROR_INVALID_ARG));
    assert_eq!(check_socket(1 << 40), Err(NsResult::NS_ERROR_INVALID_ARG));
}

fn address(port: u16) -> SocketAddress {
    SocketAddress { ip: IpAddress::V4([192, 0, 2, 1]), port }
}

#[test]
fn targets_are_checked_in_order() {
    let target =
        connection_target(b"a.example", b"h3", Ok(address(1)), Ok(address(2))).unwrap();
    assert_eq!(target.origin.as_str(), "a.example");
    assert_eq!((target.local.port, target.remote.port), (1, 2));
    let unexpected: Result<SocketAddress, NsResult> = Err(NsResult::NS_ERROR_UNEXPECTED);
    for (origin, alpn, local, remote, error) in [
        (&b"\xff"[..], &b"h3"[..], unexpected, unexpected, NsResult::NS_ERROR_INVALID_ARG),
        (b"a", b"\xff", unexpected, unexpected, NsResult::NS_ERROR_INVALID_ARG),
        (b"a", b"h2", unexpected, Ok(address(2)), NsResult::NS_ERROR_UNEXPECTED),
        (b"a", b"h2", Ok(address(1)), unexpected, NsResult::NS_ERROR_UNEXPECTED),
        (b"a", b"h2", Ok(address(1)), Ok(address(2)), NsResult::NS_ERROR_INVALID_ARG),
    ] {
        assert_eq!(connection_target(origin, alpn, local, remote).unwrap_err(), error);
    }
}

#[test]
fn logs_have_fresh_names() {
    assert!(qlog_request(b"", "a").unwrap().is_none());
    assert_eq!(qlog_request(b"\xff", "a").unwrap_err(), NsResult::NS_ERROR_INVALID_ARG);
    let first = qlog_request(b"/tmp", "a.example").unwrap().unwrap();
    let second = qlog_request(b"/tmp", "a.example").unwrap().unwrap();
    assert_eq!(first.dir.as_str(), "/tmp");
    assert_ne!(first.file_name, second.file_name);
    assert_eq!(first.file_name.len(), "a.example_".len() + 36 + ".qlog".len());
    assert!(first.file_name.starts_with("a.example_") && first.file_name.ends_with(".qlog"));
    assert_eq!(&first.file_name[24..25], "4");
    assert_eq!(qlog_file_name("a", "b").as_str(), "a_b.qlog");
}

#[test]
fn requests_are_checked() {
    let head = b"GET / HTTP/1.1\r\nX-A: b\r\n";
    let fetch = fetch_request(b"GET", b"https", b"a.example", b"/x", head, 3).unwrap();
    assert_eq!(fetch.method.as_str(), "GET");
    assert_eq!(fetch.scheme.as_str(), "https");
    assert_eq!(fetch.host.as_str(), "a.example");
    assert_eq!(fetch.path.as_str(), "/x");
    assert_eq!(fetch.headers.len(), 1);
    let invalid = NsResult::NS_ERROR_INVALID_ARG;
    assert_eq!(fetch_request(b"GET", b"https", b"a", b"/", head, 8).unwrap_err(), invalid);
    assert_eq!(fetch_request(b"\xff", b"https", b"a", b"/", head, 0).unwrap_err(), invalid);
    assert_eq!(fetch_request(b"GET", b"https", b"a", b"\xff", head, 0).unwrap_err(), invalid);
    assert_eq!(
        fetch_request(b"\xff", b"https", b"a", b"/", b"\n\xff: a", 9).unwrap_err(),
        NsResult::NS_ERROR_DOM_INVALID_HEADER_NAME
    );
    assert_eq!(connect_request(b"a:443", head, 0).unwrap().host.as_str(), "a:443");
    assert_eq!(connect_request(b"\xff", head, 0).unwrap_err(), invalid);
    assert_eq!(connect_request(b"a", head, 8).unwrap_err(), invalid);
    let session = session_request(b"a", b"/s", head).unwrap();
    assert_eq!((session.host.as_str(), session.path.as_str()), ("a", "/s"));
    assert_eq!(session_request(b"a", b"\xff", head).unwrap_err(), invalid);
    assert_eq!(check_urgency(7), NsResult::NS_OK);
    assert_eq!(check_urgency(8), invalid);
}

#[test]
fn outcomes_are_told() {
    let mut id = 5;
    assert_eq!(stream_opened(Err(Http3Error::StreamLimit), &mut id), NsResult::NS_BASE_STREAM_WOULD_BLOCK);
    assert_eq!(stream_opened(Err(Http3Error::Other), &mut id), NsResult::NS_ERROR_UNEXPECTED);
    assert_eq!(id, 5);
    assert_eq!(stream_opened(Ok(8), &mut id), NsResult::NS_OK);
    assert_eq!(id, 8);
    assert_eq!(done_or(true, NsResult::NS_ERROR_UNEXPECTED), NsResult::NS_OK);
    assert_eq!(done_or(false, NsResult::NS_ERROR_INVALID_ARG), NsResult::NS_ERROR_INVALID_ARG);
    let mut read = 1;
    assert_eq!(body_sent(Some(0), &mut read), NsResult::NS_BASE_STREAM_WOULD_BLOCK);
    assert_eq!(read, 0);
    assert_eq!(body_sent(Some(9), &mut read), NsResult::NS_OK);
    assert_eq!(read, 9);
    assert_eq!(body_sent(None, &mut read), NsResult::NS_ERROR_UNEXPECTED);
    assert_eq!(body_sent(Some(1 << 40), &mut read), NsResult::NS_ERROR_UNEXPECTED);
    assert_eq!(read, 9);
    let mut fin = false;
    assert_eq!(response_read(Ok((0, false)), &mut read, &mut fin), NsResult::NS_BASE_STREAM_WOULD_BLOCK);
    assert_eq!(response_read(Ok((3, true)), &mut read, &mut fin), NsResult::NS_OK);
    assert!(fin && read == 3);
    assert_eq!(
        response_read(Err(Http3Error::InvalidStreamId), &mut read, &mut fin),
        NsResult::NS_ERROR_INVALID_ARG
    );
    assert_eq!(
        response_read(Err(Http3Error::Transport(TransportError::NoMoreData)), &mut read, &mut fin),
        NsResult::NS_ERROR_INVALID_ARG
    );
    assert_eq!(
        response_read(Err(Http3Error::Other), &mut read, &mut fin),
        NsResult::NS_ERROR_NET_HTTP3_PROTOCOL_ERROR
    );
}

#[test]
fn sessions_and_datagrams() {
    assert_eq!(close_message(b"bye").unwrap().as_str(), "bye");
    assert_eq!(close_message(b"\xff").unwrap_err(), NsResult::NS_ERROR_INVALID_ARG);
    assert_eq!(tracking_id(0), None);
    assert_eq!(tracking_id(4), Some(4));
    assert_eq!(datagram_sent(&Ok(())), NsResult::NS_OK);
    assert_eq!(
        datagram_sent(&Err(Http3Error::Transport(TransportError::TooMuchData))),
        NsResult::NS_ERROR_NOT_AVAILABLE
    );
    assert_eq!(datagram_sent(&Err(Http3Error::Other)), NsResult::NS_ERROR_UNEXPECTED);
    let mut size = 0;
    assert_eq!(max_datagram_size(Some(1200), &mut size), NsResult::NS_OK);
    assert_eq!(max_datagram_size(None, &mut size), NsResult::NS_ERROR_UNEXPECTED);
    assert_eq!(size, 1200);
}

#[test]
fn statistics_carry_the_counter() {
    let packets = PacketStats {
        packets_rx: 1,
        dups_rx: 2,
        dropped_rx: 3,
        saved_datagrams: 4,
        packets_tx: 5,
        lost: 6,
        late_ack: 7,
        pto_ack: 8,
        pto_counts: [9; 16],
    };
    let mut counter = WouldBlockCounter::new();
    counter.increment_tx();
    let stats = get_stats(&packets, &counter);
    assert_eq!((stats.packets_rx, stats.packets_tx, stats.lost), (1, 5, 6));
    assert_eq!(stats.pto_counts[15], 9);
    assert_eq!((stats.would_block_rx, stats.would_block_tx), (0, 1));
}

fn told(event: Http3ClientEvent) -> (Option<NsResult>, Http3Event, Vec<u8>) {
    let mut external = Http3Event::NoEvent;
    let mut data: ThinVec<u8> = ThinVec::new();
    let result = neqo_http3conn_event(Some(event), 1_000_000, &mut external, &mut data);
    (result, external, data.to_vec())
}

#[test]
fn events_are_told() {
    let ok = Some(NsResult::NS_OK);
    assert_eq!(
        told(Http3ClientEvent::DataWritable { stream_id: 4 }),
        (ok, Http3Event::DataWritable { stream_id: 4 }, vec![])
    );
    assert_eq!(
        told(Http3ClientEvent::Reset { stream_id: 4, error: 5, local: true }),
        (ok, Http3Event::Reset { stream_id: 4, error: 5, local: true }, vec![])
    );
    let headers = vec![Header::new(":status", "200")];
    assert_eq!(
        told(Http3ClientEvent::HeaderReady { stream_id: 0, headers, fin: true, interim: false }),
        (
            ok,
            Http3Event::HeaderReady { stream_id: 0, fin: true, interim: false },
            b"HTTP/3 200\r\n\r\n".to_vec()
        )
    );
    let headers = vec![Header::new("x", "y")];
    let (result, external, data) =
        told(Http3ClientEvent::HeaderReady { stream_id: 0, headers, fin: true, interim: false });
    assert_eq!(result, Some(NsResult::NS_ERROR_ILLEGAL_VALUE));
    assert_eq!(external, Http3Event::NoEvent);
    assert!(data.is_empty());
    let (result, external, _) = told(Http3ClientEvent::StateChange(Http3State::Other));
    assert_eq!((result, external), (None, Http3Event::NoEvent));
    assert_eq!(
        told(Http3ClientEvent::StateChange(Http3State::Connected)).1,
        Http3Event::ConnectionConnected
    );
    let mut external = Http3Event::GoawayReceived;
    let mut data: ThinVec<u8> = ThinVec::new();
    assert_eq!(neqo_http3conn_event(None, 0, &mut external, &mut data), ok);
    assert_eq!(external, Http3Event::NoEvent);
}

#[test]
fn tokens_expire() {
    let token = Http3ClientEvent::ResumptionToken { token: vec![1, 2], expiration_time: 5_500_000 };
    let (result, external, data) = told(token);
    assert_eq!(result, Some(NsResult::NS_OK));
    assert_eq!(external, Http3Event::ResumptionToken { expire_in: 4_500 });
    assert_eq!(data, vec![1, 2]);
    let expired = Http3ClientEvent::ResumptionToken { token: vec![1], expiration_time: 10 };
    assert_eq!(told(expired).0, None);
}

#[test]
fn closes_are_told_with_their_reason() {
    let reason = || {
        CloseReason::Transport(TransportFailure {
            error: TransportError::EchRetry(vec![7, 8]),
            code: 1,
        })
    };
    let (_, external, data) = told(Http3ClientEvent::StateChange(Http3State::Closing(reason())));
    assert_eq!(external, Http3Event::ConnectionClosing { error: CloseError::EchRetry });
    assert_eq!(data, vec![7, 8]);
    let (_, external, data) = told(Http3ClientEvent::StateChange(Http3State::Closed(reason())));
    assert_eq!(external, Http3Event::ConnectionClosed { error: CloseError::EchRetry });
    assert_eq!(data, vec![7, 8]);
    let closing = Http3ClientEvent::StateChange(Http3State::Closing(CloseReason::Application(3)));
    assert_eq!(closing_label(&closing), Some("Application"));
    assert_eq!(closing_label(&Http3ClientEvent::GoawayReceived), None);
}

#[test]
fn session_events_are_told() {
    let event = WebTransportEvent::NewSession { stream_id: 4, status: 200 };
    let (_, external, data) = told(Http3ClientEvent::WebTransport(event));
    assert_eq!(external, Http3Event::WebTransport(WebTransportEventExternal::Session(4)));
    assert_eq!(data, b"HTTP/3 200\r\n\r\n".to_vec());
    let event =
        WebTransportEvent::SessionClosed { stream_id: 4, reason: SessionCloseReason::Status(404) };
    let (_, external, data) = told(Http3ClientEvent::WebTransport(event));
    assert_eq!(external, Http3Event::WebTransport(WebTransportEventExternal::Session(4)));
    assert_eq!(data, b"HTTP/3 404\r\n\r\n".to_vec());
    let reason = SessionCloseReason::Clean { error: 6, message: "bye".to_string() };
    let event = WebTransportEvent::SessionClosed { stream_id: 4, reason };
    let (_, external, data) = told(Http3ClientEvent::WebTransport(event));
    assert_eq!(
        external,
        Http3Event::WebTransport(WebTransportEventExternal::SessionClosed {
            stream_id: 4,
            reason: SessionCloseReasonExternal::Clean(6)
        })
    );
    assert_eq!(data, b"bye".to_vec());
    let event = WebTransportEvent::NewStream { stream_id: 3, session_id: 4 };
    let (_, external, _) = told(Http3ClientEvent::WebTransport(event));
    assert_eq!(
        external,
        Http3Event::WebTransport(WebTransportEventExternal::NewStream {
            stream_id: 3,
            stream_type: WebTransportStreamType::UniDi,
            session_id: 4
        })
    );
    let event = ConnectUdpEvent::Datagram { session_id: 4, datagram: vec![5] };
    let (_, external, data) = told(Http3ClientEvent::ConnectUdp(event));
    assert_eq!(
        external,
        Http3Event::ConnectUdp(ConnectUdpEventExternal::Datagram { session_id: 4 })
    );
    assert_eq!(data, vec![5]);
}

#[test]
fn stream_types_round_trip() {
    for t in [StreamType::BiDi, StreamType::UniDi] {
        assert_eq!(StreamType::from(WebTransportStreamType::from(t)), t);
    }
    assert_eq!(stream_type(0), StreamType::BiDi);
    assert_eq!(stream_type(3), StreamType::UniDi);
    assert_eq!(stream_type(5), StreamType::BiDi);
}

#[test]
fn codec_round_trips() {
    let mut encoder = NeqoEncoder::new();
    neqo_encode_byte(&mut encoder, 9);
    neqo_encode_varint(&mut encoder, 16_384);
    neqo_encode_uint(&mut encoder, 4, 0x0102_0304);
    neqo_encode_vvec(&mut encoder, b"abc");
    neqo_encode_buffer(&mut encoder, b"z");
    let (data, len) = neqo_encode_get_data(&encoder);
    assert_eq!(data, &[9, 0x80, 0, 0x40, 0, 1, 2, 3, 4, 3, b'a', b'b', b'c', b'z']);
    assert_eq!(len as usize, data.len());
    let mut decoder = NeqoDecoder::new(data);
    let mut varint = 0;
    let mut uint = 0;
    assert_eq!(neqo_decode(&mut decoder, 1), Some(&[9u8][..]));
    assert!(neqo_decode_varint(&mut decoder, &mut varint));
    assert_eq!(varint, 16_384);
    assert!(neqo_decode_uint32(&mut decoder, &mut uint));
    assert_eq!(uint, 0x0102_0304);
    assert_eq!(neqo_decoder_offset(&decoder), 9);
    assert_eq!(neqo_decoder_remaining(&decoder), 5);
    assert_eq!(neqo_decode(&mut decoder, 6), None);
    assert_eq!(neqo_decode_remainder(&mut decoder), &[3, b'a', b'b', b'c', b'z']);
    assert!(!neqo_decode_uint32(&mut decoder, &mut uint));
    assert!(!neqo_decode_varint(&mut decoder, &mut varint));
    assert_eq!(neqo_encode_varint_len(63), 1);
    assert_eq!(neqo_encode_varint_len(1 << 30), 8);
}

fn frames() -> FrameStats {
    FrameStats {
        ack: 1,
        crypto: 2,
        stream: 3,
        reset_stream: 0,
        stop_sending: 0,
        ping: 0,
        padding: usize::MAX,
        max_streams: 0,
        streams_blocked: 0,
        max_data: 0,
        data_blocked: 0,
        max_stream_data: 0,
        stream_data_blocked: 0,
        new_connection_id: 0,
        retire_connection_id: 0,
        path_challenge: 0,
        path_response: 0,
        connection_close: 0,
        handshake_done: 1,
        new_token: 0,
        ack_frequency: 0,
        datagram: 0,
    }
}

fn transport() -> TransportStats {
    TransportStats {
        packets_tx: 1000,
        packets_rx: 1000,
        lost: 5,
        frame_tx: frames(),
        frame_rx: frames(),
        ecn_rx: vec![EcnCount { ect0: 300, ce: 1 }, EcnCount { ect0: 700, ce: 1 }],
        ecn_tx_acked: vec![EcnCount { ect0: 0, ce: 1 }],
        ecn_path_validation: vec![(ValidationOutcome::Bleaching, 2)],
        min_rtt: 1000,
        pmtud_peer_max_udp_payload: Some(1472),
        cc: CongestionStats {
            cwnd: Some(20_000),
            slow_start_exit_cwnd: Some(30_000),
            slow_start_exit_reason: Some(SlowStartExitReason::Heuristic),
            exit_accuracy: 50,
            w_max: Some(25_000),
            exit_accuracy_w_max: 20,
            hystart_css_rounds_finished: 3,
            hystart_css_entries: 4,
            search_empty_buffer_target: None,
            search_full_buffer_target: None,
            search_lookback_bins_needed: None,
            search_max_norm_diff: None,
            search_reset_count: 0,
            search_reset_max_passed_bins: None,
            search_zero_sent_bytes: 0,
            search_first_rtt: Some(1500),
            search_second_rtt: Some(750),
            congestion_events: CongestionEvents { ecn: 1, loss: 4, spurious: 2 },
        },
    }
}

fn metrics_prefs(slow_start_algorithm: u32) -> MetricsPreferences {
    MetricsPreferences {
        use_nspr_for_io: false,
        ecn_report: true,
        ecn_mark: true,
        slow_start_algorithm,
    }
}

fn samples(records: &[Record], wanted: Distribution) -> Vec<(Option<&'static str>, i64)> {
    let mut found = Vec::new();
    for record in records {
        match *record {
            Record::Sample { distribution, label, value } if distribution == wanted => {
                found.push((label, value));
            }
            Record::Accumulate { distribution, value } if distribution == wanted => {
                found.push((None, value as i64));
            }
            _ => {}
        }
    }
    found
}

fn counts(records: &[Record], wanted: Counter) -> Vec<(&'static str, i32)> {
    let mut found = Vec::new();
    for record in records {
        if let Record::Count { counter, label, value } = *record {
            if counter == wanted {
                found.push((label, value));
            }
        }
    }
    found
}

#[test]
fn ratios_are_recorded() {
    let records = record_stats_in_glean(&transport(), &metrics_prefs(1));
    assert_eq!(samples(&records, Distribution::EcnCeEct0RatioReceived), vec![(None, 20)]);
    assert_eq!(samples(&records, Distribution::EcnCeEct0RatioSent), vec![]);
    assert_eq!(samples(&records, Distribution::LossRatio), vec![(None, 50)]);
    assert_eq!(samples(&records, Distribution::LossRatioFiltered), vec![(None, 50)]);
    assert_eq!(
        samples(&records, Distribution::SpuriousCongestionEventRatio),
        vec![(None, 5000)]
    );
    assert_eq!(samples(&records, Distribution::CongestionEventCount), vec![(None, 3)]);
    assert_eq!(samples(&records, Distribution::PeerMaxUdpPayload), vec![(None, 1472)]);
    assert_eq!(counts(&records, Counter::EcnPathCapability), vec![("bleaching", 2)]);
    assert_eq!(
        counts(&records, Counter::CongestionEventReason),
        vec![("loss", 4), ("ecn-ce", 1)]
    );
    let frames = counts(&records, Counter::QuicFrameCount);
    assert_eq!(frames.len(), 44);
    assert_eq!(frames[0], ("ack_tx", 1));
    assert_eq!(frames[6], ("padding_tx", i32::MAX));
    assert_eq!(frames[24], ("stream_rx", 3));
}

#[test]
fn numbers_that_are_too_large_are_found() {
    let prefs = metrics_prefs(2);
    assert!(can_record(&transport(), &prefs));
    let mut stats = transport();
    stats.ecn_rx = vec![EcnCount { ect0: 1, ce: u64::MAX / 10_000 + 1 }];
    assert!(!can_record(&stats, &prefs));
    stats.ecn_rx = vec![EcnCount { ect0: 0, ce: u64::MAX }];
    assert!(can_record(&stats, &prefs));
    stats.ecn_rx = vec![EcnCount { ect0: 0, ce: u64::MAX }, EcnCount { ect0: 0, ce: 1 }];
    assert!(!can_record(&stats, &prefs));
    stats.packets_tx = 0;
    assert!(can_record(&stats, &prefs));
    let mut stats = transport();
    stats.lost = usize::MAX;
    assert!(!can_record(&stats, &prefs));
    stats.packets_rx = 0;
    assert!(can_record(&stats, &prefs));
    let mut stats = transport();
    stats.cc.search_first_rtt = Some(u128::MAX);
    assert!(!can_record(&stats, &prefs));
    assert!(can_record(&stats, &metrics_prefs(1)));
    stats.cc.search_first_rtt = None;
    stats.cc.congestion_events.spurious = usize::MAX;
    assert!(!can_record(&stats, &prefs));
}

#[test]
fn slow_start_is_recorded() {
    let records = record_stats_in_glean(&transport(), &metrics_prefs(1));
    assert_eq!(counts(&records, Counter::CongestionWindowGrowth), vec![("had_growth", 1)]);
    assert_eq!(
        counts(&records, Counter::SlowStartExitDirectionHeuristic),
        vec![("overshoot", 1)]
    );
    assert_eq!(counts(&records, Counter::SlowStartExitReason), vec![("heuristic", 1)]);
    assert_eq!(samples(&records, Distribution::FinalWMax), vec![(None, 25_000)]);
    assert_eq!(
        samples(&records, Distribution::SlowStartExitAccuracy),
        vec![(Some("heuristic_exit"), 50)]
    );
    assert_eq!(
        samples(&records, Distribution::HystartCssRoundsFinished),
        vec![(Some("exited_hystart"), 3)]
    );
    assert_eq!(samples(&records, Distribution::SearchResetCount), vec![]);
    let records = record_stats_in_glean(&transport(), &metrics_prefs(2));
    assert_eq!(samples(&records, Distribution::HystartCssEntries), vec![]);
    assert_eq!(samples(&records, Distribution::SearchFirstRttVsMinRtt), vec![(None, 150)]);
    assert_eq!(samples(&records, Distribution::SearchFirstRttVsSecondRtt), vec![(None, 200)]);
    assert_eq!(counts(&records, Counter::SearchRttInflated), vec![("never_inflated", 1)]);
    assert_eq!(
        samples(&records, Distribution::SearchResetCount),
        vec![(Some("exited_search"), 0)]
    );
}

#[test]
fn windows_that_did_not_grow_are_filtered() {
    let mut stats = transport();
    stats.cc.cwnd = Some(12_520);
    let records = record_stats_in_glean(&stats, &metrics_prefs(1));
    assert_eq!(counts(&records, Counter::CongestionWindowGrowth), vec![("no_growth_but_exit", 1)]);
    assert_eq!(counts(&records, Counter::SlowStartExited), vec![("exited", 1)]);
    assert_eq!(samples(&records, Distribution::FinalCwnd), vec![]);
    assert_eq!(samples(&records, Distribution::LossRatioFiltered), vec![]);
    assert_eq!(counts(&records, Counter::SlowStartExitedFiltered), vec![]);
    stats.packets_rx = 0;
    let records = record_stats_in_glean(&stats, &metrics_prefs(1));
    assert_eq!(samples(&records, Distribution::LossRatio), vec![]);
    stats.packets_tx = 0;
    assert!(record_stats_in_glean(&stats, &metrics_prefs(1)).is_empty());
}

#[test]
fn fast_path_needs_both_datagrams() {
    assert_eq!(FastPathProbe::new(1), Err("max_gso_segments not increased"));
    let mut probe = FastPathProbe::new(2).unwrap();
    assert_eq!(FastPathProbe::mark(0), Ecn::Ect0);
    assert_eq!(FastPathProbe::mark(1), Ecn::Ect1);
    assert_eq!(probe.received(&[1], Ecn::Ect1, true), Ok(()));
    assert!(!probe.is_done());
    assert_eq!(probe.received(&[1], Ecn::Ect1, true), Err("unexpected datagram payload"));
    assert_eq!(probe.received(&[], Ecn::Ect1, true), Err("empty datagram"));
    let mut marked = probe;
    assert_eq!(marked.received(&[0], Ecn::NotEct, true), Err("ECN mismatch"));
    let mut from = probe;
    assert_eq!(from.received(&[0], Ecn::Ect0, false), Err("source address mismatch"));
    assert_eq!(probe.received(&[0], Ecn::Ect0, true), Ok(()));
    assert!(probe.is_done());
}
