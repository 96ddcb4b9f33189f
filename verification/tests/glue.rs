//! What the embedder is told: errors, events, header fields, and the outcome of requests.
use neqo_glue::address::{
    ipv6_loopback, netaddr_to_socket_addr, IpAddress, NetAddr, SocketAddress,
};
use neqo_glue::cert::{
    check_brotli, check_buffers, check_inflated, check_zstd, peer_certificate_info, tls_info,
    zlib_decode, BrotliDecoderResult, NeqoCertificateInfo, NeqoSecretInfo, PeerCertificates,
    SecretInfo,
};
use neqo_glue::errors::{
    close_reason_label, crypto_error_code, ech_retry_config, mcquic_http3_error_to_nsresult,
    mcquic_transport_error_to_nsresult, transport_error_to_glean_label, CloseError, CloseReason,
    CryptoError, Http3Error, TransportError, TransportFailure,
};
use neqo_glue::headers::{
    convert_h3_to_h1_headers, is_excluded_header, parse_headers, sanitize_header, Header,
};
use neqo_glue::nsresult::NsResult;
use thin_vec::ThinVec;

fn texts(headers: &[Header]) -> Vec<(String, String)> {
    headers
        .iter()
        .map(|h| (h.name.clone(), String::from_utf8_lossy(&h.value).into_owned()))
        .collect()
}

fn pair(name: &str, value: &str) -> (String, String) {
    (name.to_string(), value.to_string())
}

#[test]
fn header_lines_become_fields() {
    let input = b"GET / HTTP/1.1\r\nHost: a.example\r\nX-Test:  one \r\nCookie: a=b: c\r\nTE: x\r\n\r\n";
    let headers = parse_headers(input).unwrap();
    assert_eq!(texts(&headers), vec![pair("x-test", "one"), pair("cookie", "a=b: c")]);
}

#[test]
fn header_lines_that_give_nothing() {
    let headers = parse_headers(b"X-First: 1\r\n:path: /\r\nno colon\r\n\r\nUpgrade: h2\r\n").unwrap();
    assert!(headers.is_empty());
    assert!(parse_headers(b"").unwrap().is_empty());
    assert_eq!(
        parse_headers(b"\r\n\xff: x\r\n").unwrap_err(),
        NsResult::NS_ERROR_DOM_INVALID_HEADER_NAME
    );
}

#[test]
fn header_names_are_trimmed_and_lowered() {
    let headers = parse_headers(b"\n\t\xc3\x84B \xc2\xa0: v\xff\t\n").unwrap();
    assert_eq!(headers[0].name.as_str(), "\u{e4}b");
    assert_eq!(headers[0].value, b"v\xff".to_vec());
}

#[test]
fn connection_fields_are_excluded() {
    for name in [
        "connection",
        "host",
        "keep-alive",
        "proxy-connection",
        "te",
        "transfer-encoding",
        "upgrade",
        "sec-websocket-key",
    ] {
        assert!(is_excluded_header(name));
    }
    assert!(!is_excluded_header("Host"));
    assert!(!is_excluded_header("cookie"));
}

#[test]
fn control_characters_are_replaced() {
    assert_eq!(sanitize_header(b"a\r\nb\0c"), b"a  b c".to_vec());
    assert_eq!(sanitize_header(b"plain"), b"plain".to_vec());
}

#[test]
fn heads_are_written_for_http_1() {
    let headers = vec![
        Header::new("content-type", "text/plain"),
        Header::new(":status", "204"),
        Header::new("x-a", "b\nc"),
    ];
    let mut out: ThinVec<u8> = ThinVec::new();
    assert_eq!(convert_h3_to_h1_headers(&headers, &mut out), NsResult::NS_OK);
    assert_eq!(
        String::from_utf8(out.to_vec()).unwrap(),
        "HTTP/3 204\r\ncontent-type: text/plain\r\nx-a: b c\r\n\r\n"
    );
    let mut out: ThinVec<u8> = ThinVec::new();
    let none = vec![Header::new("x-a", "b")];
    assert_eq!(convert_h3_to_h1_headers(&none, &mut out), NsResult::NS_ERROR_ILLEGAL_VALUE);
    assert!(out.is_empty());
    let two = vec![Header::new(":status", "200"), Header::new(":status", "200")];
    assert_eq!(convert_h3_to_h1_headers(&two, &mut out), NsResult::NS_ERROR_ILLEGAL_VALUE);
}

fn failure(error: TransportError, code: u64) -> TransportFailure {
    TransportFailure { error, code }
}

#[test]
fn close_errors_are_classified() {
    let cases = [
        (failure(TransportError::Internal, 1), CloseError::TransportInternalError),
        (failure(TransportError::AckedUnsentPacket, 10), CloseError::TransportInternalErrorOther(0)),
        (failure(TransportError::Decrypt, 10), CloseError::TransportInternalErrorOther(5)),
        (
            failure(TransportError::UnknownTransportParameter, 10),
            CloseError::TransportInternalErrorOther(30),
        ),
        (failure(TransportError::IdleTimeout, 0), CloseError::TransportError(0)),
        (failure(TransportError::FlowControl, 3), CloseError::TransportError(3)),
        (failure(TransportError::CryptoAlert(42), 0x12a), CloseError::CryptoAlert(42)),
        (failure(TransportError::PeerApplication(7), 10), CloseError::PeerAppError(7)),
        (failure(TransportError::Peer(8), 8), CloseError::PeerError(8)),
        (failure(TransportError::EchRetry(vec![1]), 0x179), CloseError::EchRetry),
        (
            failure(TransportError::Crypto(CryptoError::EchRetry(vec![1])), 1),
            CloseError::EchRetry,
        ),
        (
            failure(TransportError::Crypto(CryptoError::InvalidState), 1),
            CloseError::CryptoError(27),
        ),
    ];
    for (given, expected) in cases {
        assert_eq!(CloseError::from(given), expected);
    }
    assert_eq!(CloseError::from(CloseReason::Application(9)), CloseError::AppError(9));
    assert_eq!(
        CloseError::from(CloseReason::Transport(failure(TransportError::Peer(8), 8))),
        CloseError::PeerError(8)
    );
}

#[test]
fn crypto_codes_skip_eleven() {
    assert_eq!(crypto_error_code(&CryptoError::Aead), 1);
    assert_eq!(crypto_error_code(&CryptoError::Nss), 10);
    assert_eq!(crypto_error_code(&CryptoError::SelfEncrypt), 12);
    assert_eq!(crypto_error_code(&CryptoError::CertificateDecoding), 19);
}

#[test]
fn labels_of_errors() {
    assert_eq!(transport_error_to_glean_label(&TransportError::NoError), "NoError");
    assert_eq!(transport_error_to_glean_label(&TransportError::Qlog), "QlogError");
    assert_eq!(
        transport_error_to_glean_label(&TransportError::Crypto(CryptoError::Nss)),
        "CryptoError"
    );
    assert_eq!(close_reason_label(&CloseReason::Application(1)), "Application");
    assert_eq!(
        close_reason_label(&CloseReason::Transport(failure(TransportError::IdleTimeout, 0))),
        "IdleTimeout"
    );
}

#[test]
fn retries_come_with_their_configuration() {
    let reason = CloseReason::Transport(failure(TransportError::EchRetry(vec![1, 2]), 1));
    assert_eq!(ech_retry_config(&reason), Some(&[1u8, 2][..]));
    let reason = CloseReason::Transport(failure(
        TransportError::Crypto(CryptoError::EchRetry(vec![3])),
        1,
    ));
    assert_eq!(ech_retry_config(&reason), Some(&[3u8][..]));
    assert_eq!(ech_retry_config(&CloseReason::Application(1)), None);
    let other = CloseReason::Transport(failure(TransportError::Internal, 1));
    assert_eq!(ech_retry_config(&other), None);
}

#[test]
fn multicast_errors_are_told() {
    for (error, result) in [
        (TransportError::NotAvailable, NsResult::NS_ERROR_NOT_AVAILABLE),
        (TransportError::FrameEncoding, NsResult::NS_ERROR_INVALID_ARG),
        (TransportError::UnknownFrameType, NsResult::NS_ERROR_INVALID_ARG),
        (TransportError::Decrypt, NsResult::NS_ERROR_NET_HTTP3_PROTOCOL_ERROR),
        (TransportError::IdleTimeout, NsResult::NS_ERROR_NET_HTTP3_PROTOCOL_ERROR),
    ] {
        assert_eq!(mcquic_transport_error_to_nsresult(&error), result);
        assert_eq!(mcquic_http3_error_to_nsresult(&Http3Error::Transport(error)), result);
    }
    assert_eq!(
        mcquic_http3_error_to_nsresult(&Http3Error::InvalidInput),
        NsResult::NS_ERROR_INVALID_ARG
    );
    assert_eq!(
        mcquic_http3_error_to_nsresult(&Http3Error::Unavailable),
        NsResult::NS_ERROR_NOT_AVAILABLE
    );
    assert_eq!(
        mcquic_http3_error_to_nsresult(&Http3Error::StreamLimit),
        NsResult::NS_ERROR_NET_HTTP3_PROTOCOL_ERROR
    );
}

fn net_addr(family: u16) -> NetAddr {
    let mut ipv6 = [0; 16];
    ipv6[15] = 1;
    NetAddr { family, port: [0x01, 0xbb], ipv4: [192, 0, 2, 1], ipv6 }
}

#[test]
fn addresses_are_converted() {
    let v4 = netaddr_to_socket_addr(Some(net_addr(2)), 2, 10).unwrap();
    assert_eq!(v4.port, 443);
    assert!(matches!(v4.ip, IpAddress::V4([192, 0, 2, 1])));
    assert!(!ipv6_loopback(&v4.ip));
    let v6: SocketAddress = netaddr_to_socket_addr(Some(net_addr(10)), 2, 10).unwrap();
    assert!(ipv6_loopback(&v6.ip));
    assert_eq!(
        netaddr_to_socket_addr(Some(net_addr(1)), 2, 10).unwrap_err(),
        NsResult::NS_ERROR_UNEXPECTED
    );
    assert_eq!(
        netaddr_to_socket_addr(None, 2, 10).unwrap_err(),
        NsResult::NS_ERROR_INVALID_ARG
    );
}

const ZLIB_ABC: &[u8] = &[
    0x78, 0x01, 0x01, 0x03, 0x00, 0xfc, 0xff, 0x61, 0x62, 0x63, 0x02, 0x4d, 0x01, 0x27,
];

#[test]
fn certificates_are_inflated() {
    assert_eq!(zlib_decode(ZLIB_ABC, 3).unwrap(), b"abc".to_vec());
    assert!(matches!(zlib_decode(ZLIB_ABC, 4), Err(CryptoError::CertificateDecoding)));
    assert!(matches!(zlib_decode(ZLIB_ABC, 2), Err(CryptoError::CertificateDecoding)));
    assert!(matches!(zlib_decode(b"abc", 3), Err(CryptoError::CertificateDecoding)));
}

#[test]
fn decompressors_have_to_fill_the_buffer() {
    assert_eq!(check_inflated(Some(vec![1, 2]), 2).unwrap(), vec![1, 2]);
    assert!(check_inflated(Some(vec![1]), 2).is_err());
    assert!(check_inflated(None, 2).is_err());
    assert!(check_buffers(1, 1).is_ok());
    assert!(check_buffers(0, 1).is_err());
    assert!(check_buffers(1, 0).is_err());
    assert!(check_zstd(false, 5, 5).is_ok());
    assert!(check_zstd(true, 5, 5).is_err());
    assert!(check_zstd(false, 4, 5).is_err());
    assert!(check_brotli(BrotliDecoderResult::Success, 5, 5).is_ok());
    assert!(check_brotli(BrotliDecoderResult::NeedsMoreInput, 5, 5).is_err());
    assert!(check_brotli(BrotliDecoderResult::Success, 4, 5).is_err());
}

#[test]
fn security_is_told_once_it_is_known() {
    let mut info = NeqoSecretInfo {
        set: false,
        version: 0,
        cipher: 0,
        group: 0,
        resumed: false,
        early_data: false,
        alpn: String::new(),
        signature_scheme: 0,
        ech_accepted: false,
    };
    assert_eq!(tls_info(&None, &mut info), NsResult::NS_ERROR_NOT_AVAILABLE);
    assert!(!info.set);
    let known = SecretInfo {
        version: 0x304,
        cipher_suite: 0x1301,
        key_exchange: 29,
        resumed: true,
        early_data_accepted: false,
        alpn: Some("h3".to_string()),
        signature_scheme: 0x403,
        ech_accepted: true,
    };
    assert_eq!(tls_info(&Some(known), &mut info), NsResult::NS_OK);
    assert!(info.set && info.resumed && info.ech_accepted && !info.early_data);
    assert_eq!((info.version, info.cipher, info.group), (0x304, 0x1301, 29));
    assert_eq!(info.alpn.as_str(), "h3");
    assert_eq!(info.signature_scheme, 0x403);
}

#[test]
fn certificates_of_the_peer_are_told() {
    let mut info = NeqoCertificateInfo {
        certs: ThinVec::new(),
        stapled_ocsp_responses_present: true,
        stapled_ocsp_responses: ThinVec::new(),
        signed_cert_timestamp_present: false,
        signed_cert_timestamp: vec![9].into(),
    };
    assert_eq!(peer_certificate_info(&None, &mut info), NsResult::NS_ERROR_NOT_AVAILABLE);
    let peer = PeerCertificates {
        certs: vec![vec![1], vec![2, 3]],
        stapled_ocsp_responses: None,
        signed_cert_timestamp: Some(vec![8]),
    };
    assert_eq!(peer_certificate_info(&Some(peer), &mut info), NsResult::NS_OK);
    assert_eq!(info.certs.len(), 2);
    assert_eq!(info.certs[1].as_slice(), &[2, 3]);
    assert!(!info.stapled_ocsp_responses_present);
    assert!(info.signed_cert_timestamp_present);
    assert_eq!(info.signed_cert_timestamp.as_slice(), &[9, 8]);
    let peer = PeerCertificates {
        certs: vec![],
        stapled_ocsp_responses: Some(vec![vec![4]]),
        signed_cert_timestamp: None,
    };
    assert_eq!(peer_certificate_info(&Some(peer), &mut info), NsResult::NS_OK);
    assert!(info.certs.is_empty());
    assert!(info.stapled_ocsp_responses_present);
    assert_eq!(info.stapled_ocsp_responses[0].as_slice(), &[4]);
    assert!(!info.signed_cert_timestamp_present);
}

#[test]
fn parsed_names_are_clean() {
    let headers =
        parse_headers("\r\n X-Na\u{212a}me\u{130} : a:B\r\nABC:1\n::path: /\n".as_bytes()).unwrap();
    assert_eq!(headers.len(), 2);
    assert_eq!(headers[0].name, "x-nakmei\u{307}");
    assert_eq!(headers[0].value, b"a:B");
    assert_eq!(headers[1].name, "abc");
}
