//! Multicast: channels, control frames, and received packets.
use neqo_glue::address::IpAddress;
use neqo_glue::errors::{Http3Error, TransportError};
use neqo_glue::mcquic::{
    default_mcquic_client_limits, fill_mcquic_control_frame, frame_sent, joined_state,
    limits_frame, moq_stream_opened, moq_stream_received, moq_stream_sent,
    neqo_http3conn_mcquic_pop_channel_datagram, neqo_http3conn_mcquic_recv_control_frame,
    packet_processed, AckLoop, AckStep, ChannelTable, FrameAction, McquicChannelDatagram,
    McquicControlFrameExternal, McquicControlFrameTag, McquicFrame, ReleasedDatagram,
    StateReason, StateReasonScope,
};
use neqo_glue::mcrx::{
    fill_mcquic_mcrx_packet, ip_string, mcquic_mcrx_error_to_nsresult, mcrx_ip_text,
    optional_mcrx_ip_text, packet_polled, ssm_subscription, subscription_added,
    subscription_changed, McquicMcrxPacket, McrxErrorKind, ReceivedPacket,
};
use neqo_glue::nsresult::NsResult;
use thin_vec::ThinVec;

fn announce(id: &[u8]) -> McquicFrame {
    McquicFrame::Announce {
        channel_id: id.to_vec(),
        source: "192.0.2.1".to_string(),
        group: "232.0.0.1".to_string(),
        udp_port: 5000,
    }
}

fn key(id: &[u8]) -> McquicFrame {
    McquicFrame::Key { channel_id: id.to_vec(), key_sequence: 3, from_packet_number: 4 }
}

#[test]
fn control_frames_are_told() {
    let mut frame = McquicControlFrameExternal::default();
    fill_mcquic_control_frame(&mut frame, &announce(b"ch"));
    assert_eq!(frame.tag, McquicControlFrameTag::Announce);
    assert_eq!(frame.channel_id.as_slice(), b"ch");
    assert_eq!(frame.source_ip.as_str(), "192.0.2.1");
    assert_eq!(frame.group_ip.as_str(), "232.0.0.1");
    assert_eq!(frame.udp_port, 5000);
    fill_mcquic_control_frame(&mut frame, &key(b"k"));
    assert_eq!(frame.tag, McquicControlFrameTag::Key);
    assert_eq!((frame.key_sequence, frame.packet_number_start), (3, 4));
    assert_eq!(frame.udp_port, 0);
    assert!(frame.source_ip.is_empty());
    let integrity = McquicFrame::Integrity {
        channel_id: vec![1],
        packet_number_start: 9,
        packet_hash_count: None,
    };
    fill_mcquic_control_frame(&mut frame, &integrity);
    assert_eq!((frame.packet_number_start, frame.packet_hash_count), (9, 0));
    let leave =
        McquicFrame::Leave { channel_id: vec![1], mc_state_sequence: 5, after_packet_number: 6 };
    fill_mcquic_control_frame(&mut frame, &leave);
    assert_eq!((frame.state_sequence, frame.packet_number_start), (5, 6));
    fill_mcquic_control_frame(&mut frame, &McquicFrame::Limits { sequence: 7 });
    assert_eq!(frame.tag, McquicControlFrameTag::Limits);
    assert_eq!(frame.state_sequence, 7);
    assert!(frame.channel_id.is_empty());
}

#[test]
fn no_frame_is_told_as_such() {
    let mut frame = McquicControlFrameExternal::default();
    let received = Some(McquicFrame::Ack { channel_id: vec![1], largest_acknowledged: 8 });
    assert_eq!(neqo_http3conn_mcquic_recv_control_frame(&received, &mut frame), NsResult::NS_OK);
    assert_eq!(frame.tag, McquicControlFrameTag::Ack);
    assert_eq!(frame.largest_acknowledged, 8);
    assert_eq!(neqo_http3conn_mcquic_recv_control_frame(&None, &mut frame), NsResult::NS_OK);
    assert_eq!(frame.tag, McquicControlFrameTag::NoFrame);
    assert_eq!(frame.largest_acknowledged, 0);
}

#[test]
fn released_datagrams_are_told() {
    let mut datagram = McquicChannelDatagram::default();
    let released =
        Some(ReleasedDatagram { channel_id: vec![1], packet_number: 2, data: vec![3, 4] });
    assert!(neqo_http3conn_mcquic_pop_channel_datagram(&released, &mut datagram));
    assert_eq!(datagram.channel_id.as_slice(), &[1]);
    assert_eq!(datagram.packet_number, 2);
    assert_eq!(datagram.payload.as_slice(), &[3, 4]);
    assert!(!neqo_http3conn_mcquic_pop_channel_datagram(&None, &mut datagram));
    assert!(datagram.payload.is_empty() && datagram.packet_number == 0);
}

#[test]
fn channels_are_kept_in_order() {
    let mut table = ChannelTable::new();
    table.insert(b"b", 1);
    table.insert(b"a", 2);
    table.insert(b"ab", 3);
    table.insert(b"b", 4);
    assert_eq!(table.handles(), vec![2, 3, 4]);
    assert_eq!(table.find(b"b"), Some(4));
    assert_eq!(table.find(b"c"), None);
    assert_eq!(table.apply_mcquic_control_frame(&announce(b"z")), FrameAction::CreateChannel);
    assert_eq!(table.apply_mcquic_control_frame(&key(b"ab")), FrameAction::InsertKey(3));
    assert_eq!(table.apply_mcquic_control_frame(&key(b"z")), FrameAction::UnknownChannel);
    let integrity = McquicFrame::Integrity {
        channel_id: b"a".to_vec(),
        packet_number_start: 0,
        packet_hash_count: Some(1),
    };
    assert_eq!(table.apply_mcquic_control_frame(&integrity), FrameAction::InsertIntegrity(2));
    assert_eq!(
        table.apply_mcquic_control_frame(&McquicFrame::Limits { sequence: 1 }),
        FrameAction::Nothing
    );
}

#[test]
fn channel_packets_and_streams() {
    assert_eq!(packet_processed(&None), NsResult::NS_ERROR_NOT_AVAILABLE);
    assert_eq!(packet_processed(&Some(Ok(()))), NsResult::NS_OK);
    assert_eq!(
        packet_processed(&Some(Err(TransportError::InvalidInput))),
        NsResult::NS_ERROR_INVALID_ARG
    );
    let mut id = 9;
    assert_eq!(moq_stream_opened(&Ok(4), &mut id), NsResult::NS_OK);
    assert_eq!(id, 4);
    assert_eq!(
        moq_stream_opened(&Err(Http3Error::Unavailable), &mut id),
        NsResult::NS_ERROR_NOT_AVAILABLE
    );
    assert_eq!(id, 0);
    let mut sent = 9;
    assert_eq!(moq_stream_sent(&Ok(usize::MAX), &mut sent), NsResult::NS_OK);
    assert_eq!(sent, u32::MAX);
    assert_eq!(
        moq_stream_sent(&Err(Http3Error::InvalidInput), &mut sent),
        NsResult::NS_ERROR_INVALID_ARG
    );
    assert_eq!(sent, 0);
}

#[test]
fn stream_data_is_cut_to_what_was_read() {
    let mut payload: ThinVec<u8> = vec![9].into();
    let mut fin = false;
    let buf = [1, 2, 3, 4];
    assert_eq!(moq_stream_received(&Ok((2, false)), &buf, &mut payload, &mut fin), NsResult::NS_OK);
    assert_eq!(payload.as_slice(), &[1, 2]);
    assert!(!fin);
    assert_eq!(
        moq_stream_received(&Ok((0, false)), &buf, &mut payload, &mut fin),
        NsResult::NS_BASE_STREAM_WOULD_BLOCK
    );
    assert_eq!(moq_stream_received(&Ok((0, true)), &buf, &mut payload, &mut fin), NsResult::NS_OK);
    assert!(fin);
    fin = false;
    assert_eq!(
        moq_stream_received(&Err(Http3Error::NoMoreData), &buf, &mut payload, &mut fin),
        NsResult::NS_OK
    );
    assert!(fin && payload.is_empty());
    assert_eq!(
        moq_stream_received(&Err(Http3Error::Other), &buf, &mut payload, &mut fin),
        NsResult::NS_ERROR_NET_HTTP3_PROTOCOL_ERROR
    );
    assert!(!fin);
}

#[test]
fn limits_and_states() {
    let limits = default_mcquic_client_limits();
    let frame = limits_frame(Some(limits), 3).unwrap();
    assert_eq!(frame.sequence, 3);
    assert_eq!(frame.max_joined_count, 32);
    assert!(frame.limits.ipv4_channels_allowed && frame.limits.ipv6_channels_allowed);
    assert_eq!(limits_frame(None, 3), Err(NsResult::NS_ERROR_NOT_AVAILABLE));
    let joined = joined_state(b"ch", 4);
    assert_eq!(joined.channel_id, b"ch".to_vec());
    assert_eq!(joined.sequence, 4);
    assert_eq!(joined.reason_scope, StateReasonScope::Transport);
    assert_eq!(joined.reason, StateReason::RequestedByServer);
    assert_eq!(joined.reason_phrase, b"joined".to_vec());
    assert_eq!(frame_sent(&Ok(())), NsResult::NS_OK);
    assert_eq!(frame_sent(&Err(Http3Error::InvalidInput)), NsResult::NS_ERROR_INVALID_ARG);
}

#[test]
fn channels_are_told_only_after_every_acknowledgement() {
    let (mut acks, step) = AckLoop::begin(2);
    assert_eq!(step, AckStep::Send(0));
    assert_eq!(acks.sent_one(&Ok(())), AckStep::Send(1));
    match acks.sent_one(&Ok(())) {
        AckStep::MarkSent(done) => assert!(done.sent && done.result == NsResult::NS_OK),
        _ => panic!("every acknowledgement was sent"),
    }
    let (mut acks, _) = AckLoop::begin(1);
    match acks.sent_one(&Err(Http3Error::Unavailable)) {
        AckStep::Failed(done) => {
            assert!(!done.sent);
            assert_eq!(done.result, NsResult::NS_ERROR_NOT_AVAILABLE);
        }
        _ => panic!("the acknowledgement was not sent"),
    }
    match AckLoop::begin(0).1 {
        AckStep::MarkSent(done) => assert!(!done.sent),
        _ => panic!("there is nothing to send"),
    }
}

#[test]
fn receiver_errors_are_told() {
    for (kind, result) in [
        (McrxErrorKind::InvalidDestinationPort, NsResult::NS_ERROR_INVALID_ARG),
        (McrxErrorKind::ExistingSocketPortMismatch, NsResult::NS_ERROR_INVALID_ARG),
        (McrxErrorKind::DuplicateSubscription, NsResult::NS_ERROR_FILE_ALREADY_EXISTS),
        (McrxErrorKind::SubscriptionAlreadyJoined, NsResult::NS_ERROR_FILE_ALREADY_EXISTS),
        (McrxErrorKind::SubscriptionNotFound, NsResult::NS_ERROR_NOT_AVAILABLE),
        (McrxErrorKind::SocketBindFailed, NsResult::NS_ERROR_SOCKET_ADDRESS_IN_USE),
        (McrxErrorKind::Other, NsResult::NS_ERROR_UNEXPECTED),
    ] {
        assert_eq!(mcquic_mcrx_error_to_nsresult(kind), result);
        assert_eq!(subscription_changed(Err(kind)), result);
    }
    assert_eq!(subscription_changed(Ok(())), NsResult::NS_OK);
    let mut id = 4;
    assert_eq!(subscription_added(Ok(7), &mut id), NsResult::NS_OK);
    assert_eq!(id, 7);
    assert_eq!(
        subscription_added(Err(McrxErrorKind::Other), &mut id),
        NsResult::NS_ERROR_UNEXPECTED
    );
    assert_eq!(id, 0);
}

#[test]
fn subscriptions_are_checked() {
    let source = Some(IpAddress::V4([192, 0, 2, 1]));
    let group = Some(IpAddress::V4([232, 0, 0, 1]));
    let subscription = ssm_subscription(source, group, 5000, Some(None), true, 3).unwrap();
    assert_eq!(subscription.dst_port, 5000);
    assert_eq!(subscription.interface_index, Some(3));
    assert!(subscription.interface.is_none());
    let subscription = ssm_subscription(source, group, 5000, Some(source), false, 3).unwrap();
    assert_eq!(subscription.interface_index, None);
    for (s, g, i) in [(None, group, Some(None)), (source, None, Some(None)), (source, group, None)] {
        assert_eq!(
            ssm_subscription(s, g, 1, i, false, 0).unwrap_err(),
            NsResult::NS_ERROR_INVALID_ARG
        );
    }
    assert_eq!(mcrx_ip_text(b"::1").unwrap().as_str(), "::1");
    assert_eq!(mcrx_ip_text(b"\xff").unwrap_err(), NsResult::NS_ERROR_INVALID_ARG);
    assert_eq!(optional_mcrx_ip_text(b""), Ok(None));
    assert_eq!(optional_mcrx_ip_text(b"1"), Ok(Some("1".to_string())));
    assert_eq!(optional_mcrx_ip_text(b"\xff"), Err(NsResult::NS_ERROR_INVALID_ARG));
}

fn packet() -> ReceivedPacket {
    ReceivedPacket {
        subscription_id: 1,
        source_ip: "192.0.2.1".to_string(),
        source_port: 2,
        group_ip: "232.0.0.1".to_string(),
        dst_port: 3,
        socket_local_addr: Some(("192.0.2.9".to_string(), 4)),
        configured_interface: None,
        configured_interface_index: Some(5),
        destination_local_ip: Some("192.0.2.8".to_string()),
        ingress_interface_index: None,
        payload: vec![6, 7],
    }
}

#[test]
fn packets_are_told() {
    let mut out = McquicMcrxPacket::default();
    fill_mcquic_mcrx_packet(&mut out, &packet());
    assert_eq!((out.subscription_id, out.source_port, out.dst_port), (1, 2, 3));
    assert_eq!(out.socket_local_ip.as_str(), "192.0.2.9");
    assert_eq!(out.socket_local_port, 4);
    assert!(out.configured_interface_ip.is_empty());
    assert!(out.has_configured_interface_index && out.configured_interface_index == 5);
    assert_eq!(out.destination_local_ip.as_str(), "192.0.2.8");
    assert!(!out.has_ingress_interface_index && out.ingress_interface_index == 0);
    assert_eq!(out.payload.as_slice(), &[6, 7]);
    let without = ReceivedPacket { socket_local_addr: None, ..packet() };
    fill_mcquic_mcrx_packet(&mut out, &without);
    assert!(out.socket_local_ip.is_empty() && out.socket_local_port == 0);
    assert_eq!(ip_string(&None).as_str(), "");
}

#[test]
fn polling_tells_whether_a_packet_came() {
    let mut out = McquicMcrxPacket::default();
    assert_eq!(packet_polled(&Ok(None), &mut out), NsResult::NS_BASE_STREAM_WOULD_BLOCK);
    assert_eq!(
        packet_polled(&Err(McrxErrorKind::SubscriptionNotJoined), &mut out),
        NsResult::NS_ERROR_NOT_AVAILABLE
    );
    assert_eq!(out.subscription_id, 0);
    assert_eq!(packet_polled(&Ok(Some(packet())), &mut out), NsResult::NS_OK);
    assert_eq!(out.subscription_id, 1);
}
