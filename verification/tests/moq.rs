//! The messages and datagrams of Media over QUIC.
use neqo_glue::moq::control::{
    mcquic_decode_moqt_control_message, mcquic_moq_decode_full_track_name,
    mcquic_moq_read_key_value, mcquic_moq_skip_key_values_bounded, mcquic_moq_skip_parameter_list,
    neqo_mcquic_moq_decode_control_message, McquicMoqControlMessageExternal,
    McquicMoqControlMessageTag, MCQUIC_MOQT_MESSAGE_REQUEST_ERROR, MCQUIC_MOQT_MESSAGE_REQUEST_OK,
    MCQUIC_MOQT_MESSAGE_SUBSCRIBE, MCQUIC_MOQT_MESSAGE_SUBSCRIBE_OK,
};
use neqo_glue::moq::datagram::{
    mcquic_decode_legacy_moq1_object_datagram, mcquic_decode_native_moqt_object_datagram,
    mcquic_moqt_object_status, neqo_mcquic_decode_moq_datagram, McquicMoqDatagramExternal,
    McquicMoqDatagramFormat, McquicMoqObjectStatus, MCQUIC_MOQ1_FLAG_END_OF_GROUP,
    MCQUIC_MOQ1_FLAG_HAS_MULTICAST_PROVENANCE, MCQUIC_MOQ1_FLAG_INDEPENDENT,
    MCQUIC_MOQ1_FLAG_KEYFRAME, MCQUIC_MOQ1_VERSION, MCQUIC_MOQT_DATAGRAM_DEFAULT_PRIORITY,
    MCQUIC_MOQT_DATAGRAM_END_OF_GROUP,
};
use neqo_glue::moq::encode::{
    mcquic_moq_encode_control_message, mcquic_moq_encode_full_track_name,
    mcquic_moq_encode_key_value_bytes, mcquic_moq_encode_setup, mcquic_moq_encode_subscribe,
    mcquic_moq_namespace_fields, neqo_mcquic_moq_encode_setup_subscribe,
};
use neqo_glue::moq::reader::McquicMoqReader;
use neqo_glue::moq::varint::{
    mcquic_moq_decode_varint, mcquic_moq_encode_varint, MCQUIC_MOQT_MAX_VARINT,
};
use neqo_glue::nsresult::NsResult;
use thin_vec::ThinVec;

const MCQUIC_MOQ1_MAGIC: &[u8; 4] = b"MOQ1";

fn encode_varint(value: u64, out: &mut Vec<u8>) {
    if value < (1 << 6) {
        out.push(value as u8);
    } else if value < (1 << 14) {
        out.extend_from_slice(&((value as u16) | 0x4000).to_be_bytes());
    } else if value < (1 << 30) {
        out.extend_from_slice(&((value as u32) | 0x8000_0000).to_be_bytes());
    } else {
        out.extend_from_slice(&(value | 0xc000_0000_0000_0000).to_be_bytes());
    }
}

fn decode(payload: Vec<u8>) -> Option<McquicMoqDatagramExternal> {
    let payload: ThinVec<u8> = payload.into();
    let mut decoded = McquicMoqDatagramExternal::default();
    if neqo_mcquic_decode_moq_datagram(&payload, &mut decoded) {
        Some(decoded)
    } else {
        None
    }
}

#[test]
fn decodes_native_moqt_object_datagram() {
    let mut payload = Vec::new();
    encode_varint(
        MCQUIC_MOQT_DATAGRAM_DEFAULT_PRIORITY | MCQUIC_MOQT_DATAGRAM_END_OF_GROUP,
        &mut payload,
    );
    encode_varint(9, &mut payload);
    encode_varint(42, &mut payload);
    encode_varint(7, &mut payload);
    payload.extend_from_slice(b"qvf1");

    let decoded = decode(payload).expect("native MoQT object DATAGRAM decodes");

    assert_eq!(decoded.format, McquicMoqDatagramFormat::NativeMoqtObject);
    assert!(decoded.has_track_alias);
    assert_eq!(decoded.track_alias, 9);
    assert_eq!(decoded.group_id, 42);
    assert_eq!(decoded.object_id, 7);
    assert_eq!(decoded.publisher_sequence, 42);
    assert_eq!(decoded.status, McquicMoqObjectStatus::Normal);
    assert!(decoded.end_of_group);
    assert_eq!(decoded.payload_len, 4);
}

#[test]
fn decodes_legacy_huginn_moq1_object_datagram() {
    let namespace = b"ratatoskr/demo";
    let track_name = b"h264-qvf1";
    let multicast_channel = b"qcast-demo-v1";
    let object_payload = b"qvf1";
    let flags = MCQUIC_MOQ1_FLAG_KEYFRAME
        | MCQUIC_MOQ1_FLAG_END_OF_GROUP
        | MCQUIC_MOQ1_FLAG_INDEPENDENT
        | MCQUIC_MOQ1_FLAG_HAS_MULTICAST_PROVENANCE;
    let mut payload = Vec::new();
    payload.extend_from_slice(MCQUIC_MOQ1_MAGIC);
    payload.push(MCQUIC_MOQ1_VERSION);
    payload.push(flags);
    payload.extend_from_slice(&(namespace.len() as u16).to_be_bytes());
    payload.extend_from_slice(&(track_name.len() as u16).to_be_bytes());
    payload.extend_from_slice(&(multicast_channel.len() as u16).to_be_bytes());
    payload.extend_from_slice(&(object_payload.len() as u32).to_be_bytes());
    payload.extend_from_slice(&44u64.to_be_bytes());
    payload.extend_from_slice(&9u64.to_be_bytes());
    payload.extend_from_slice(&1044u64.to_be_bytes());
    payload.extend_from_slice(&1466u64.to_be_bytes());
    payload.extend_from_slice(&88u64.to_be_bytes());
    payload.extend_from_slice(namespace);
    payload.extend_from_slice(track_name);
    payload.extend_from_slice(multicast_channel);
    payload.extend_from_slice(object_payload);

    let decoded = decode(payload).expect("legacy Huginn MOQ1 DATAGRAM decodes");

    assert_eq!(decoded.format, McquicMoqDatagramFormat::LegacyMoq1Object);
    assert!(!decoded.has_track_alias);
    assert_eq!(decoded.namespace.as_str(), "ratatoskr/demo");
    assert_eq!(decoded.track_name.as_str(), "h264-qvf1");
    assert_eq!(decoded.multicast_channel.as_slice(), multicast_channel);
    assert_eq!(decoded.group_id, 44);
    assert_eq!(decoded.object_id, 9);
    assert_eq!(decoded.publisher_sequence, 1044);
    assert_eq!(decoded.pts_millis, 1466);
    assert!(decoded.keyframe);
    assert!(decoded.independent);
    assert!(decoded.end_of_group);
    assert_eq!(decoded.payload_len, 4);
    assert!(decoded.has_multicast_packet_number);
    assert_eq!(decoded.multicast_packet_number, 88);
}

#[test]
fn rejects_unknown_moq_payload() {
    let payload: ThinVec<u8> = b"not a moq object".to_vec().into();
    let mut decoded = McquicMoqDatagramExternal {
        format: McquicMoqDatagramFormat::NativeMoqtObject,
        ..McquicMoqDatagramExternal::default()
    };

    assert!(!neqo_mcquic_decode_moq_datagram(&payload, &mut decoded));
    assert_eq!(decoded.format, McquicMoqDatagramFormat::Unknown);
}

#[test]
fn varints_of_every_length_round_trip() {
    for (value, len) in [
        (0, 1),
        (63, 1),
        (64, 2),
        (16_383, 2),
        (16_384, 4),
        (1_073_741_823, 4),
        (1_073_741_824, 8),
        (MCQUIC_MOQT_MAX_VARINT, 8),
    ] {
        let mut out = Vec::new();
        assert_eq!(mcquic_moq_encode_varint(value, &mut out), Some(()));
        assert_eq!(out.len(), len);
        let mut expected = Vec::new();
        encode_varint(value, &mut expected);
        assert_eq!(out, expected);
        assert_eq!(mcquic_moq_decode_varint(&out), Some((value, len)));
        if len > 1 {
            assert_eq!(mcquic_moq_decode_varint(&out[..len - 1]), None);
        }
    }
}

#[test]
fn varint_limits() {
    let mut out = vec![1];
    assert_eq!(mcquic_moq_encode_varint(MCQUIC_MOQT_MAX_VARINT + 1, &mut out), None);
    assert_eq!(out, vec![1]);
    assert_eq!(mcquic_moq_decode_varint(&[]), None);
    assert_eq!(mcquic_moq_decode_varint(&[0x40, 0x25, 9]), Some((0x25, 2)));
}

#[test]
fn reader_moves_over_its_input() {
    let mut reader = McquicMoqReader::new(&[7, 0x41, 0x00, 1, 2, 3]);
    assert_eq!(reader.remaining(), 6);
    assert_eq!(reader.read_u8(), Some(7));
    assert_eq!(reader.read_varint(), Some(256));
    assert_eq!(reader.offset(), 3);
    assert_eq!(reader.read_exact(4), None);
    assert_eq!(reader.read_exact(1), Some(&[1u8][..]));
    assert_eq!(reader.read_to_end(), &[2, 3]);
    assert_eq!(reader.read_u8(), None);
    assert_eq!(reader.read_varint(), None);
}

#[test]
fn control_frames_carry_type_and_length() {
    assert_eq!(
        mcquic_moq_encode_control_message(0x2f00, &[1, 2, 3]),
        Some(vec![0x6f, 0x00, 0x00, 0x03, 1, 2, 3])
    );
    assert!(mcquic_moq_encode_control_message(1, &vec![0; 65_535]).is_some());
    assert_eq!(mcquic_moq_encode_control_message(1, &vec![0; 65_536]), None);
    assert_eq!(mcquic_moq_encode_control_message(MCQUIC_MOQT_MAX_VARINT + 1, &[]), None);
}

#[test]
fn key_values_grow_and_are_odd() {
    let mut out = Vec::new();
    let mut previous = 0;
    assert_eq!(mcquic_moq_encode_key_value_bytes(&mut out, &mut previous, 1, b"/"), Some(()));
    assert_eq!(mcquic_moq_encode_key_value_bytes(&mut out, &mut previous, 5, b"ab"), Some(()));
    assert_eq!(out, vec![1, 1, b'/', 4, 2, b'a', b'b']);
    assert_eq!(previous, 5);
    assert_eq!(mcquic_moq_encode_key_value_bytes(&mut out, &mut previous, 5, b""), None);
    assert_eq!(mcquic_moq_encode_key_value_bytes(&mut out, &mut previous, 6, b""), None);
    assert_eq!(previous, 5);
    assert_eq!(mcquic_moq_skip_key_values_bounded(&out), Some(()));
    assert_eq!(mcquic_moq_skip_key_values_bounded(&out[..6]), None);
}

#[test]
fn key_values_are_read_by_their_parity() {
    let mut reader = McquicMoqReader::new(&[2, 9, 1, 2, 7, 8]);
    assert_eq!(mcquic_moq_read_key_value(&mut reader, None), Some(2));
    assert_eq!(mcquic_moq_read_key_value(&mut reader, Some(2)), Some(3));
    assert_eq!(reader.remaining(), 0);
    let mut repeated = McquicMoqReader::new(&[0, 9]);
    assert_eq!(mcquic_moq_read_key_value(&mut repeated, Some(2)), None);
    let mut too_large = McquicMoqReader::new(&[1, 9]);
    assert_eq!(mcquic_moq_read_key_value(&mut too_large, Some(u64::MAX)), None);
    let mut first = McquicMoqReader::new(&[0, 9]);
    assert_eq!(mcquic_moq_read_key_value(&mut first, None), Some(0));
}

#[test]
fn parameter_lists_are_counted() {
    let mut reader = McquicMoqReader::new(&[2, 2, 9, 2, 8, 77]);
    assert_eq!(mcquic_moq_skip_parameter_list(&mut reader), Some(()));
    assert_eq!(reader.remaining(), 1);
    let mut short = McquicMoqReader::new(&[2, 2, 9]);
    assert_eq!(mcquic_moq_skip_parameter_list(&mut short), None);
}

#[test]
fn namespaces_skip_empty_fields() {
    let fields: Vec<&[u8]> = vec![b"a", b"bc"];
    assert_eq!(mcquic_moq_namespace_fields("/a//bc/"), Some(fields));
    assert_eq!(mcquic_moq_namespace_fields("//"), None);
    assert_eq!(mcquic_moq_namespace_fields(""), None);
    assert!(mcquic_moq_namespace_fields(&"a/".repeat(32)).is_some());
    assert_eq!(mcquic_moq_namespace_fields(&"a/".repeat(33)), None);
}

#[test]
fn full_track_names_round_trip() {
    let mut out = vec![0xee];
    assert_eq!(mcquic_moq_encode_full_track_name("a/bc", b"t", &mut out), Some(()));
    assert_eq!(out, vec![0xee, 2, 1, b'a', 2, b'b', b'c', 1, b't']);
    let mut reader = McquicMoqReader::new(&out[1..]);
    assert_eq!(
        mcquic_moq_decode_full_track_name(&mut reader),
        Some(("a/bc".to_string(), "t".to_string()))
    );
    assert_eq!(mcquic_moq_encode_full_track_name("a", &[b'x'; 4095], &mut Vec::new()), Some(()));
    assert_eq!(mcquic_moq_encode_full_track_name("a", &[b'x'; 4096], &mut Vec::new()), None);
    for bad in [&[0u8, 0][..], &[33, 1, b'a'], &[1, 0, 0], &[1, 1, 0xff, 0], &[1, 1, b'a', 2, b't']]
    {
        assert_eq!(mcquic_moq_decode_full_track_name(&mut McquicMoqReader::new(bad)), None);
    }
}

#[test]
fn setup_decodes_as_setup() {
    let setup = mcquic_moq_encode_setup(b"example.com").unwrap();
    assert_eq!(&setup[..4], &[0x6f, 0x00, 0x00, 0x29]);
    assert_eq!(&setup[4..9], &[1, 1, b'/', 4, 11]);
    let message = mcquic_decode_moqt_control_message(&setup).unwrap();
    assert_eq!(message.tag, McquicMoqControlMessageTag::Setup);
    assert_eq!(message.consumed, setup.len() as u64);
    assert_eq!(mcquic_moq_encode_setup(&vec![b'a'; 65_536]), None);
}

#[test]
fn subscribe_round_trips() {
    let subscribe = mcquic_moq_encode_subscribe("live/cam", b"video").unwrap();
    let mut with_more = subscribe.clone();
    with_more.extend_from_slice(&[9, 9]);
    let message = mcquic_decode_moqt_control_message(&with_more).unwrap();
    assert_eq!(message.tag, McquicMoqControlMessageTag::Subscribe);
    assert_eq!(message.consumed, subscribe.len() as u64);
    assert_eq!(message.request_id, 0);
    assert_eq!(message.namespace.as_str(), "live/cam");
    assert_eq!(message.track_name.as_str(), "video");
    assert_eq!(mcquic_moq_encode_subscribe("", b"video"), None);
    assert_eq!(mcquic_moq_encode_subscribe("a", &[b'x'; 4096]), None);
    assert!(mcquic_decode_moqt_control_message(&subscribe[..subscribe.len() - 1]).is_none());
}

#[test]
fn subscribe_with_trailing_bytes_is_refused() {
    let payload = [0, 1, 1, b'a', 1, b't', 0, 7];
    let message = mcquic_moq_encode_control_message(MCQUIC_MOQT_MESSAGE_SUBSCRIBE, &payload);
    assert!(mcquic_decode_moqt_control_message(&message.unwrap()).is_none());
}

#[test]
fn answers_decode() {
    let ok = mcquic_moq_encode_control_message(MCQUIC_MOQT_MESSAGE_SUBSCRIBE_OK, &[5, 0]).unwrap();
    let message = mcquic_decode_moqt_control_message(&ok).unwrap();
    assert_eq!(message.tag, McquicMoqControlMessageTag::SubscribeOk);
    assert_eq!(message.track_alias, 5);
    let ok = mcquic_moq_encode_control_message(MCQUIC_MOQT_MESSAGE_REQUEST_OK, &[0]).unwrap();
    let message = mcquic_decode_moqt_control_message(&ok).unwrap();
    assert_eq!(message.tag, McquicMoqControlMessageTag::RequestOk);
    assert!(mcquic_decode_moqt_control_message(&[0x3f, 0, 0]).is_none());
}

#[test]
fn reasons_need_not_be_text() {
    let payload = [6, 7, 3, b'n', 0xff, b'o', 1, 2];
    let error =
        mcquic_moq_encode_control_message(MCQUIC_MOQT_MESSAGE_REQUEST_ERROR, &payload).unwrap();
    let message = mcquic_decode_moqt_control_message(&error).unwrap();
    assert_eq!(message.tag, McquicMoqControlMessageTag::RequestError);
    assert_eq!(message.error_code, 6);
    assert_eq!(message.retry_interval, 7);
    assert_eq!(message.reason.as_str(), "n\u{fffd}o");
}

#[test]
fn control_messages_reset_what_was_there() {
    let mut message = McquicMoqControlMessageExternal::default();
    let setup: ThinVec<u8> = mcquic_moq_encode_setup(b"a").unwrap().into();
    assert!(neqo_mcquic_moq_decode_control_message(&setup, &mut message));
    assert_eq!(message.tag, McquicMoqControlMessageTag::Setup);
    let nothing: ThinVec<u8> = ThinVec::new();
    assert!(!neqo_mcquic_moq_decode_control_message(&nothing, &mut message));
    assert_eq!(message.tag, McquicMoqControlMessageTag::Unknown);
    assert_eq!(message.consumed, 0);
}

#[test]
fn setup_and_subscribe_go_together() {
    let mut payload: ThinVec<u8> = vec![1, 2, 3].into();
    let result = neqo_mcquic_moq_encode_setup_subscribe(b"a.example", b"ns/x", b"t", &mut payload);
    assert_eq!(result, NsResult::NS_OK);
    let mut expected = mcquic_moq_encode_setup(b"a.example").unwrap();
    expected.extend_from_slice(&mcquic_moq_encode_subscribe("ns/x", b"t").unwrap());
    assert_eq!(payload.as_slice(), expected.as_slice());
    let result = neqo_mcquic_moq_encode_setup_subscribe(b"a", b"\xff", b"t", &mut payload);
    assert_eq!(result, NsResult::NS_ERROR_INVALID_ARG);
    assert!(payload.is_empty());
}

#[test]
fn object_statuses() {
    assert_eq!(mcquic_moqt_object_status(0), Some(McquicMoqObjectStatus::Normal));
    assert_eq!(mcquic_moqt_object_status(3), Some(McquicMoqObjectStatus::EndOfGroup));
    assert_eq!(mcquic_moqt_object_status(4), Some(McquicMoqObjectStatus::EndOfTrack));
    assert_eq!(mcquic_moqt_object_status(1), None);
}

#[test]
fn native_datagrams_with_status_and_properties() {
    let status = mcquic_decode_native_moqt_object_datagram(&[0x2d, 1, 2, 1, 0xaa, 3]).unwrap();
    assert_eq!(status.status, McquicMoqObjectStatus::EndOfGroup);
    assert!(status.end_of_group);
    assert_eq!(status.object_id, 0);
    assert!(!status.has_publisher_priority);
    assert_eq!(status.payload_len, 0);
    let plain = mcquic_decode_native_moqt_object_datagram(&[0, 1, 2, 3, 200, b'x']).unwrap();
    assert!(plain.has_publisher_priority);
    assert_eq!(plain.publisher_priority, 200);
    assert_eq!(plain.object_id, 3);
    assert_eq!(plain.payload.as_slice(), b"x");
    for bad in [
        &[0x10u8, 1, 2, 3, 4][..],
        &[0x22, 1, 2, 3, 4, 0],
        &[0x2c, 1, 2, 3, 9],
        &[0x2c, 1, 2, 9],
        &[0x0d, 1, 2, 0],
        &[0x0c, 1],
    ] {
        assert!(mcquic_decode_native_moqt_object_datagram(bad).is_none());
    }
}

#[test]
fn legacy_datagrams_have_to_fit() {
    let mut payload = b"MOQ1".to_vec();
    payload.extend_from_slice(&[1, 0, 0, 1, 0, 1, 0, 0, 0, 0, 0, 1]);
    payload.extend_from_slice(&[0; 32]);
    payload.extend_from_slice(&7u64.to_be_bytes());
    payload.extend_from_slice(b"ntp");
    let decoded = mcquic_decode_legacy_moq1_object_datagram(&payload).unwrap();
    assert_eq!(decoded.namespace.as_str(), "n");
    assert_eq!(decoded.track_name.as_str(), "t");
    assert_eq!(decoded.payload.as_slice(), b"p");
    assert!(!decoded.has_multicast_packet_number);
    assert_eq!(decoded.multicast_packet_number, 0);
    let mut longer = payload.clone();
    longer.push(0);
    assert!(mcquic_decode_legacy_moq1_object_datagram(&longer).is_none());
    let mut no_text = payload.clone();
    no_text[56] = 0xff;
    assert!(mcquic_decode_legacy_moq1_object_datagram(&no_text).is_none());
    let mut version = payload.clone();
    version[4] = 2;
    assert!(mcquic_decode_legacy_moq1_object_datagram(&version).is_none());
    assert!(mcquic_decode_legacy_moq1_object_datagram(&payload[..55]).is_none());
}
