//! Errors of the QUIC and HTTP/3 stack, and what the embedder is told of them.
use crate::nsresult::NsResult;
use vstd::prelude::*;

verus! {

/// An error of the TLS library. Of the retry of an encrypted client hello it holds the new
/// configuration.
#[derive(Debug)]
pub enum CryptoError {
    Aead,
    CertificateLoading,
    CreateSslSocket,
    Hkdf,
    Internal,
    IntegerOverflow,
    InvalidEpoch,
    MixedHandshakeMethod,
    NoDataAvailable,
    Nss,
    SelfEncrypt,
    TimeTravel,
    UnsupportedCipher,
    UnsupportedVersion,
    String,
    EchRetry(Vec<u8>),
    CipherInit,
    CertificateDecoding,
    CertificateEncoding,
    InvalidCertificateCompressionID,
    InvalidAlpn,
    AeadTruncated,
    InvalidInput,
    UnsupportedCurve,
    UnsupportedHash,
    InvalidState,
}

/// An error of the QUIC transport.
#[derive(Debug)]
pub enum TransportError {
    NoError,
    Internal,
    ConnectionRefused,
    FlowControl,
    StreamLimit,
    StreamState,
    FinalSize,
    FrameEncoding,
    TransportParameter,
    ProtocolViolation,
    InvalidToken,
    Application,
    CryptoBufferExceeded,
    Crypto(CryptoError),
    Qlog,
    CryptoAlert(u8),
    EchRetry(Vec<u8>),
    AckedUnsentPacket,
    ConnectionIdLimitExceeded,
    ConnectionIdsExhausted,
    ConnectionState,
    Decrypt,
    DisabledVersion,
    IdleTimeout,
    IntegerOverflow,
    InvalidInput,
    InvalidMigration,
    InvalidPacket,
    InvalidResumptionToken,
    InvalidRetry,
    InvalidStreamId,
    KeysDiscarded,
    KeysExhausted,
    KeysPending,
    KeyUpdateBlocked,
    NoAvailablePath,
    NoMoreData,
    NotAvailable,
    NotConnected,
    PacketNumberOverlap,
    PeerApplication(u64),
    Peer(u64),
    StatelessReset,
    TooMuchData,
    UnexpectedMessage,
    UnknownConnectionId,
    UnknownFrameType,
    VersionNegotiation,
    WrongRole,
    UnknownTransportParameter,
}

/// An error of the QUIC transport, with the code that stands for it on the wire.
#[derive(Debug)]
pub struct TransportFailure {
    pub error: TransportError,
    pub code: u64,
}

/// An error of the HTTP/3 layer, as far as it is told apart.
#[derive(Debug)]
pub enum Http3Error {
    Transport(TransportError),
    InvalidInput,
    InvalidStreamId,
    NoMoreData,
    StreamLimit,
    Unavailable,
    Other,
}

/// Why a connection was closed.
#[derive(Debug)]
pub enum CloseReason {
    Transport(TransportFailure),
    Application(u64),
}

/// Why a connection was closed, as the embedder counts it: a class, and a number in it.
#[derive(Clone, Copy, Debug, PartialEq, Eq, Structural)]
pub enum CloseError {
    TransportInternalError,
    TransportInternalErrorOther(u16),
    TransportError(u64),
    CryptoError(u64),
    CryptoAlert(u8),
    PeerAppError(u64),
    PeerError(u64),
    AppError(u64),
    EchRetry,
}

/// The number by which an error of the TLS library is counted.
pub open spec fn crypto_code(error: CryptoError) -> u64 {
    match error {
        CryptoError::Aead => 1,
        CryptoError::CertificateLoading => 2,
        CryptoError::CreateSslSocket => 3,
        CryptoError::Hkdf => 4,
        CryptoError::Internal => 5,
        CryptoError::IntegerOverflow => 6,
        CryptoError::InvalidEpoch => 7,
        CryptoError::MixedHandshakeMethod => 8,
        CryptoError::NoDataAvailable => 9,
        CryptoError::Nss => 10,
        CryptoError::SelfEncrypt => 12,
        CryptoError::TimeTravel => 13,
        CryptoError::UnsupportedCipher => 14,
        CryptoError::UnsupportedVersion => 15,
        CryptoError::String => 16,
        CryptoError::EchRetry(_) => 17,
        CryptoError::CipherInit => 18,
        CryptoError::CertificateDecoding => 19,
        CryptoError::CertificateEncoding => 20,
        CryptoError::InvalidCertificateCompressionID => 21,
        CryptoError::InvalidAlpn => 22,
        CryptoError::AeadTruncated => 23,
        CryptoError::InvalidInput => 24,
        CryptoError::UnsupportedCurve => 25,
        CryptoError::UnsupportedHash => 26,
        CryptoError::InvalidState => 27,
    }
}

/// The number by which an error of the TLS library is counted.
pub fn crypto_error_code(error: &CryptoError) -> (code: u64)
    ensures
        code == crypto_code(*error),
{
    match error {
        CryptoError::Aead => 1,
        CryptoError::CertificateLoading => 2,
        CryptoError::CreateSslSocket => 3,
        CryptoError::Hkdf => 4,
        CryptoError::Internal => 5,
        CryptoError::IntegerOverflow => 6,
        CryptoError::InvalidEpoch => 7,
        CryptoError::MixedHandshakeMethod => 8,
        CryptoError::NoDataAvailable => 9,
        CryptoError::Nss => 10,
        CryptoError::SelfEncrypt => 12,
        CryptoError::TimeTravel => 13,
        CryptoError::UnsupportedCipher => 14,
        CryptoError::UnsupportedVersion => 15,
        CryptoError::String => 16,
        CryptoError::EchRetry(_) => 17,
        CryptoError::CipherInit => 18,
        CryptoError::CertificateDecoding => 19,
        CryptoError::CertificateEncoding => 20,
        CryptoError::InvalidCertificateCompressionID => 21,
        CryptoError::InvalidAlpn => 22,
        CryptoError::AeadTruncated => 23,
        CryptoError::InvalidInput => 24,
        CryptoError::UnsupportedCurve => 25,
        CryptoError::UnsupportedHash => 26,
        CryptoError::InvalidState => 27,
    }
}

/// The number by which an internal error of the transport is counted, where it has one.
pub open spec fn internal_number(error: TransportError) -> Option<u16> {
    match error {
        TransportError::AckedUnsentPacket => Some(0),
        TransportError::ConnectionIdLimitExceeded => Some(1),
        TransportError::ConnectionIdsExhausted => Some(2),
        TransportError::ConnectionState => Some(3),
        TransportError::Decrypt => Some(5),
        TransportError::IntegerOverflow => Some(7),
        TransportError::InvalidInput => Some(8),
        TransportError::InvalidMigration => Some(9),
        TransportError::InvalidPacket => Some(10),
        TransportError::InvalidResumptionToken => Some(11),
        TransportError::InvalidRetry => Some(12),
        TransportError::InvalidStreamId => Some(13),
        TransportError::KeysDiscarded => Some(14),
        TransportError::KeysPending => Some(15),
        TransportError::KeyUpdateBlocked => Some(16),
        TransportError::NoMoreData => Some(17),
        TransportError::NotConnected => Some(18),
        TransportError::PacketNumberOverlap => Some(19),
        TransportError::StatelessReset => Some(20),
        TransportError::TooMuchData => Some(21),
        TransportError::UnexpectedMessage => Some(22),
        TransportError::UnknownConnectionId => Some(23),
        TransportError::UnknownFrameType => Some(24),
        TransportError::VersionNegotiation => Some(25),
        TransportError::WrongRole => Some(26),
        TransportError::Qlog => Some(27),
        TransportError::NotAvailable => Some(28),
        TransportError::DisabledVersion => Some(29),
        TransportError::UnknownTransportParameter => Some(30),
        _ => None,
    }
}

/// How the close of a connection by a transport error is counted. An internal error has a
/// number of its own, an error that QUIC defines the number that it has on the wire.
pub open spec fn close_error(failure: TransportFailure) -> CloseError {
    match failure.error {
        TransportError::Internal => CloseError::TransportInternalError,
        TransportError::Crypto(CryptoError::EchRetry(_)) => CloseError::EchRetry,
        TransportError::Crypto(c) => CloseError::CryptoError(crypto_code(c)),
        TransportError::CryptoAlert(c) => CloseError::CryptoAlert(c),
        TransportError::PeerApplication(c) => CloseError::PeerAppError(c),
        TransportError::Peer(c) => CloseError::PeerError(c),
        TransportError::EchRetry(_) => CloseError::EchRetry,
        _ => match internal_number(failure.error) {
            Some(n) => CloseError::TransportInternalErrorOther(n),
            None => CloseError::TransportError(failure.code),
        },
    }
}

impl From<TransportFailure> for CloseError {
    fn from(failure: TransportFailure) -> (error: Self) {
        match failure.error {
            TransportError::Internal => CloseError::TransportInternalError,
            TransportError::Crypto(c) => match c {
                CryptoError::EchRetry(_) => CloseError::EchRetry,
                _ => CloseError::CryptoError(crypto_error_code(&c)),
            },
            TransportError::CryptoAlert(c) => CloseError::CryptoAlert(c),
            TransportError::PeerApplication(c) => CloseError::PeerAppError(c),
            TransportError::Peer(c) => CloseError::PeerError(c),
            TransportError::NoError
            | TransportError::IdleTimeout
            | TransportError::ConnectionRefused
            | TransportError::FlowControl
            | TransportError::StreamLimit
            | TransportError::StreamState
            | TransportError::FinalSize
            | TransportError::FrameEncoding
            | TransportError::TransportParameter
            | TransportError::ProtocolViolation
            | TransportError::InvalidToken
            | TransportError::KeysExhausted
            | TransportError::Application
            | TransportError::NoAvailablePath
            | TransportError::CryptoBufferExceeded => CloseError::TransportError(failure.code),
            TransportError::EchRetry(_) => CloseError::EchRetry,
            TransportError::AckedUnsentPacket => CloseError::TransportInternalErrorOther(0),
            TransportError::ConnectionIdLimitExceeded => CloseError::TransportInternalErrorOther(1),
            TransportError::ConnectionIdsExhausted => CloseError::TransportInternalErrorOther(2),
            TransportError::ConnectionState => CloseError::TransportInternalErrorOther(3),
            TransportError::Decrypt => CloseError::TransportInternalErrorOther(5),
            TransportError::IntegerOverflow => CloseError::TransportInternalErrorOther(7),
            TransportError::InvalidInput => CloseError::TransportInternalErrorOther(8),
            TransportError::InvalidMigration => CloseError::TransportInternalErrorOther(9),
            TransportError::InvalidPacket => CloseError::TransportInternalErrorOther(10),
            TransportError::InvalidResumptionToken => CloseError::TransportInternalErrorOther(11),
            TransportError::InvalidRetry => CloseError::TransportInternalErrorOther(12),
            TransportError::InvalidStreamId => CloseError::TransportInternalErrorOther(13),
            TransportError::KeysDiscarded => CloseError::TransportInternalErrorOther(14),
            TransportError::KeysPending => CloseError::TransportInternalErrorOther(15),
            TransportError::KeyUpdateBlocked => CloseError::TransportInternalErrorOther(16),
            TransportError::NoMoreData => CloseError::TransportInternalErrorOther(17),
            TransportError::NotConnected => CloseError::TransportInternalErrorOther(18),
            TransportError::PacketNumberOverlap => CloseError::TransportInternalErrorOther(19),
            TransportError::StatelessReset => CloseError::TransportInternalErrorOther(20),
            TransportError::TooMuchData => CloseError::TransportInternalErrorOther(21),
            TransportError::UnexpectedMessage => CloseError::TransportInternalErrorOther(22),
            TransportError::UnknownConnectionId => CloseError::TransportInternalErrorOther(23),
            TransportError::UnknownFrameType => CloseError::TransportInternalErrorOther(24),
            TransportError::VersionNegotiation => CloseError::TransportInternalErrorOther(25),
            TransportError::WrongRole => CloseError::TransportInternalErrorOther(26),
            TransportError::Qlog => CloseError::TransportInternalErrorOther(27),
            TransportError::NotAvailable => CloseError::TransportInternalErrorOther(28),
            TransportError::DisabledVersion => CloseError::TransportInternalErrorOther(29),
            TransportError::UnknownTransportParameter => CloseError::TransportInternalErrorOther(30),
        }
    }
}

impl vstd::std_specs::convert::FromSpecImpl<TransportFailure> for CloseError {
    open spec fn obeys_from_spec() -> bool {
        true
    }

    open spec fn from_spec(failure: TransportFailure) -> Self {
        close_error(failure)
    }
}

impl From<CloseReason> for CloseError {
    fn from(reason: CloseReason) -> (error: Self) {
        match reason {
            CloseReason::Transport(failure) => CloseError::from(failure),
            CloseReason::Application(code) => CloseError::AppError(code),
        }
    }
}

/// How the close of a connection is counted.
pub open spec fn close_reason_error(reason: CloseReason) -> CloseError {
    match reason {
        CloseReason::Transport(failure) => close_error(failure),
        CloseReason::Application(code) => CloseError::AppError(code),
    }
}

impl vstd::std_specs::convert::FromSpecImpl<CloseReason> for CloseError {
    open spec fn obeys_from_spec() -> bool {
        true
    }

    open spec fn from_spec(reason: CloseReason) -> Self {
        close_reason_error(reason)
    }
}

/// The name under which a transport error is counted as the reason of a close.
pub open spec fn transport_label(error: TransportError) -> Seq<char> {
    match error {
        TransportError::NoError => "NoError"@,
        TransportError::Internal => "InternalError"@,
        TransportError::ConnectionRefused => "ConnectionRefused"@,
        TransportError::FlowControl => "FlowControlError"@,
        TransportError::StreamLimit => "StreamLimitError"@,
        TransportError::StreamState => "StreamStateError"@,
        TransportError::FinalSize => "FinalSizeError"@,
        TransportError::FrameEncoding => "FrameEncodingError"@,
        TransportError::TransportParameter => "TransportParameterError"@,
        TransportError::ProtocolViolation => "ProtocolViolation"@,
        TransportError::InvalidToken => "InvalidToken"@,
        TransportError::Application => "ApplicationError"@,
        TransportError::CryptoBufferExceeded => "CryptoBufferExceeded"@,
        TransportError::Crypto(_) => "CryptoError"@,
        TransportError::Qlog => "QlogError"@,
        TransportError::CryptoAlert(_) => "CryptoAlert"@,
        TransportError::EchRetry(_) => "EchRetry"@,
        TransportError::AckedUnsentPacket => "AckedUnsentPacket"@,
        TransportError::ConnectionIdLimitExceeded => "ConnectionIdLimitExceeded"@,
        TransportError::ConnectionIdsExhausted => "ConnectionIdsExhausted"@,
        TransportError::ConnectionState => "ConnectionState"@,
        TransportError::Decrypt => "DecryptError"@,
        TransportError::DisabledVersion => "DisabledVersion"@,
        TransportError::IdleTimeout => "IdleTimeout"@,
        TransportError::IntegerOverflow => "IntegerOverflow"@,
        TransportError::InvalidInput => "InvalidInput"@,
        TransportError::InvalidMigration => "InvalidMigration"@,
        TransportError::InvalidPacket => "InvalidPacket"@,
        TransportError::InvalidResumptionToken => "InvalidResumptionToken"@,
        TransportError::InvalidRetry => "InvalidRetry"@,
        TransportError::InvalidStreamId => "InvalidStreamId"@,
        TransportError::KeysDiscarded => "KeysDiscarded"@,
        TransportError::KeysExhausted => "KeysExhausted"@,
        TransportError::KeysPending => "KeysPending"@,
        TransportError::KeyUpdateBlocked => "KeyUpdateBlocked"@,
        TransportError::NoAvailablePath => "NoAvailablePath"@,
        TransportError::NoMoreData => "NoMoreData"@,
        TransportError::NotAvailable => "NotAvailable"@,
        TransportError::NotConnected => "NotConnected"@,
        TransportError::PacketNumberOverlap => "PacketNumberOverlap"@,
        TransportError::PeerApplication(_) => "PeerApplicationError"@,
        TransportError::Peer(_) => "PeerError"@,
        TransportError::StatelessReset => "StatelessReset"@,
        TransportError::TooMuchData => "TooMuchData"@,
        TransportError::UnexpectedMessage => "UnexpectedMessage"@,
        TransportError::UnknownConnectionId => "UnknownConnectionId"@,
        TransportError::UnknownFrameType => "UnknownFrameType"@,
        TransportError::VersionNegotiation => "VersionNegotiation"@,
        TransportError::WrongRole => "WrongRole"@,
        TransportError::UnknownTransportParameter => "UnknownTransportParameter"@,
    }
}

/// The name under which a transport error is counted as the reason of a close.
pub fn transport_error_to_glean_label(error: &TransportError) -> (label: &'static str)
    ensures
        label@ == transport_label(*error),
{
    match error {
        TransportError::NoError => "NoError",
        TransportError::Internal => "InternalError",
        TransportError::ConnectionRefused => "ConnectionRefused",
        TransportError::FlowControl => "FlowControlError",
        TransportError::StreamLimit => "StreamLimitError",
        TransportError::StreamState => "StreamStateError",
        TransportError::FinalSize => "FinalSizeError",
        TransportError::FrameEncoding => "FrameEncodingError",
        TransportError::TransportParameter => "TransportParameterError",
        TransportError::ProtocolViolation => "ProtocolViolation",
        TransportError::InvalidToken => "InvalidToken",
        TransportError::Application => "ApplicationError",
        TransportError::CryptoBufferExceeded => "CryptoBufferExceeded",
        TransportError::Crypto(_) => "CryptoError",
        TransportError::Qlog => "QlogError",
        TransportError::CryptoAlert(_) => "CryptoAlert",
        TransportError::EchRetry(_) => "EchRetry",
        TransportError::AckedUnsentPacket => "AckedUnsentPacket",
        TransportError::ConnectionIdLimitExceeded => "ConnectionIdLimitExceeded",
        TransportError::ConnectionIdsExhausted => "ConnectionIdsExhausted",
        TransportError::ConnectionState => "ConnectionState",
        TransportError::Decrypt => "DecryptError",
        TransportError::DisabledVersion => "DisabledVersion",
        TransportError::IdleTimeout => "IdleTimeout",
        TransportError::IntegerOverflow => "IntegerOverflow",
        TransportError::InvalidInput => "InvalidInput",
        TransportError::InvalidMigration => "InvalidMigration",
        TransportError::InvalidPacket => "InvalidPacket",
        TransportError::InvalidResumptionToken => "InvalidResumptionToken",
        TransportError::InvalidRetry => "InvalidRetry",
        TransportError::InvalidStreamId => "InvalidStreamId",
        TransportError::KeysDiscarded => "KeysDiscarded",
        TransportError::KeysExhausted => "KeysExhausted",
        TransportError::KeysPending => "KeysPending",
        TransportError::KeyUpdateBlocked => "KeyUpdateBlocked",
        TransportError::NoAvailablePath => "NoAvailablePath",
        TransportError::NoMoreData => "NoMoreData",
        TransportError::NotAvailable => "NotAvailable",
        TransportError::NotConnected => "NotConnected",
        TransportError::PacketNumberOverlap => "PacketNumberOverlap",
        TransportError::PeerApplication(_) => "PeerApplicationError",
        TransportError::Peer(_) => "PeerError",
        TransportError::StatelessReset => "StatelessReset",
        TransportError::TooMuchData => "TooMuchData",
        TransportError::UnexpectedMessage => "UnexpectedMessage",
        TransportError::UnknownConnectionId => "UnknownConnectionId",
        TransportError::UnknownFrameType => "UnknownFrameType",
        TransportError::VersionNegotiation => "VersionNegotiation",
        TransportError::WrongRole => "WrongRole",
        TransportError::UnknownTransportParameter => "UnknownTransportParameter",
    }
}

/// The name under which a reason of a close is counted.
pub open spec fn close_label(reason: CloseReason) -> Seq<char> {
    match reason {
        CloseReason::Application(_) => "Application"@,
        CloseReason::Transport(failure) => transport_label(failure.error),
    }
}

/// The name under which a reason of a close is counted.
pub fn close_reason_label(reason: &CloseReason) -> (label: &'static str)
    ensures
        label@ == close_label(*reason),
{
    match reason {
        CloseReason::Application(_) => "Application",
        CloseReason::Transport(failure) => transport_error_to_glean_label(&failure.error),
    }
}

/// The configuration with which the client hello is to be tried again, where that is why the
/// connection was closed.
pub open spec fn ech_retry(reason: CloseReason) -> Option<Seq<u8>> {
    match reason {
        CloseReason::Transport(failure) => match failure.error {
            TransportError::Crypto(CryptoError::EchRetry(config)) => Some(config@),
            TransportError::EchRetry(config) => Some(config@),
            _ => None,
        },
        CloseReason::Application(_) => None,
    }
}

/// The configuration with which the client hello is to be tried again, where that is why the
/// connection was closed.
pub fn ech_retry_config<'a>(reason: &'a CloseReason) -> (config: Option<&'a [u8]>)
    ensures
        config is Some <==> ech_retry(*reason) is Some,
        config matches Some(c) ==> ech_retry(*reason) == Some(c@),
{
    match reason {
        CloseReason::Transport(failure) => match &failure.error {
            TransportError::Crypto(c) => match c {
                CryptoError::EchRetry(config) => Some(config.as_slice()),
                _ => None,
            },
            TransportError::EchRetry(config) => Some(config.as_slice()),
            _ => None,
        },
        CloseReason::Application(_) => None,
    }
}

/// What the embedder is told of a transport error of a multicast operation.
pub open spec fn mcquic_transport_result(error: TransportError) -> NsResult {
    match error {
        TransportError::NotAvailable => NsResult::NS_ERROR_NOT_AVAILABLE,
        TransportError::FrameEncoding => NsResult::NS_ERROR_INVALID_ARG,
        TransportError::InvalidInput => NsResult::NS_ERROR_INVALID_ARG,
        TransportError::ProtocolViolation => NsResult::NS_ERROR_INVALID_ARG,
        TransportError::UnknownFrameType => NsResult::NS_ERROR_INVALID_ARG,
        _ => NsResult::NS_ERROR_NET_HTTP3_PROTOCOL_ERROR,
    }
}

/// What the embedder is told of a transport error of a multicast operation.
pub fn mcquic_transport_error_to_nsresult(error: &TransportError) -> (result: NsResult)
    ensures
        result == mcquic_transport_result(*error),
{
    match error {
        TransportError::NotAvailable => NsResult::NS_ERROR_NOT_AVAILABLE,
        TransportError::FrameEncoding
        | TransportError::InvalidInput
        | TransportError::ProtocolViolation
        | TransportError::UnknownFrameType => NsResult::NS_ERROR_INVALID_ARG,
        _ => NsResult::NS_ERROR_NET_HTTP3_PROTOCOL_ERROR,
    }
}

/// What the embedder is told of an HTTP/3 error of a multicast operation.
pub open spec fn mcquic_http3_result(error: Http3Error) -> NsResult {
    match error {
        Http3Error::Transport(e) => mcquic_transport_result(e),
        Http3Error::InvalidInput => NsResult::NS_ERROR_INVALID_ARG,
        Http3Error::Unavailable => NsResult::NS_ERROR_NOT_AVAILABLE,
        _ => NsResult::NS_ERROR_NET_HTTP3_PROTOCOL_ERROR,
    }
}

/// What the embedder is told of an HTTP/3 error of a multicast operation.
pub fn mcquic_http3_error_to_nsresult(error: &Http3Error) -> (result: NsResult)
    ensures
        result == mcquic_http3_result(*error),
{
    match error {
        Http3Error::Transport(e) => mcquic_transport_error_to_nsresult(e),
        Http3Error::InvalidInput => NsResult::NS_ERROR_INVALID_ARG,
        Http3Error::Unavailable => NsResult::NS_ERROR_NOT_AVAILABLE,
        _ => NsResult::NS_ERROR_NET_HTTP3_PROTOCOL_ERROR,
    }
}

/// Two internal errors of the transport that are counted under the same number are the same
/// error.
pub proof fn law_internal_numbers_differ(a: TransportError, b: TransportError)
    requires
        internal_number(a) is Some,
        internal_number(a) == internal_number(b),
    ensures
        a == b,
{
}

/// A connection is counted as closed for the retry of its client hello exactly where there is
/// a configuration to retry with.
pub proof fn law_ech_retry(reason: CloseReason)
    ensures
        close_reason_error(reason) == CloseError::EchRetry <==> ech_retry(reason) is Some,
{
}

/// Two errors of the TLS library that are counted under the same number are of the same kind:
/// only two configurations to retry with share theirs.
pub proof fn law_crypto_codes_differ(a: CryptoError, b: CryptoError)
    requires
        crypto_code(a) == crypto_code(b),
    ensures
        a == b || (a is EchRetry && b is EchRetry),
{
}

/// An error of the TLS library can be told by its number: each number stands for one, the first
/// for `Aead`; eleven stands for none.
pub proof fn law_crypto_numbers(error: CryptoError, code: u64)
    requires
        call_ensures(crypto_error_code, (&error,), code),
    ensures
        1 <= code <= 27,
        code != 11,
        code == 1 <==> error is Aead,
        code == 2 <==> error is CertificateLoading,
        code == 3 <==> error is CreateSslSocket,
        code == 4 <==> error is Hkdf,
        code == 5 <==> error is Internal,
        code == 6 <==> error is IntegerOverflow,
        code == 7 <==> error is InvalidEpoch,
        code == 8 <==> error is MixedHandshakeMethod,
        code == 9 <==> error is NoDataAvailable,
        code == 10 <==> error is Nss,
        code == 12 <==> error is SelfEncrypt,
        code == 13 <==> error is TimeTravel,
        code == 14 <==> error is UnsupportedCipher,
        code == 15 <==> error is UnsupportedVersion,
        code == 16 <==> error is String,
        code == 17 <==> error is EchRetry,
        code == 18 <==> error is CipherInit,
        code == 19 <==> error is CertificateDecoding,
        code == 20 <==> error is CertificateEncoding,
        code == 21 <==> error is InvalidCertificateCompressionID,
        code == 22 <==> error is InvalidAlpn,
        code == 23 <==> error is AeadTruncated,
        code == 24 <==> error is InvalidInput,
        code == 25 <==> error is UnsupportedCurve,
        code == 26 <==> error is UnsupportedHash,
        code == 27 <==> error is InvalidState,
{
}

/// An internal error of the transport can be told by the number under which a close by it is
/// counted. Four and six stand for none.
pub proof fn law_internal_errors_are_counted(failure: TransportFailure, error: CloseError)
    requires
        call_ensures(<CloseError as From<TransportFailure>>::from, (failure,), error),
    ensures
        error matches CloseError::TransportInternalErrorOther(n) ==> n <= 30 && n != 4 && n != 6,
        error == CloseError::TransportInternalErrorOther(0) <==> failure.error is AckedUnsentPacket,
        error == CloseError::TransportInternalErrorOther(1) <==>
            failure.error is ConnectionIdLimitExceeded,
        error == CloseError::TransportInternalErrorOther(2) <==>
            failure.error is ConnectionIdsExhausted,
        error == CloseError::TransportInternalErrorOther(3) <==> failure.error is ConnectionState,
        error == CloseError::TransportInternalErrorOther(5) <==> failure.error is Decrypt,
        error == CloseError::TransportInternalErrorOther(7) <==> failure.error is IntegerOverflow,
        error == CloseError::TransportInternalErrorOther(8) <==> failure.error is InvalidInput,
        error == CloseError::TransportInternalErrorOther(9) <==> failure.error is InvalidMigration,
        error == CloseError::TransportInternalErrorOther(10) <==> failure.error is InvalidPacket,
        error == CloseError::TransportInternalErrorOther(11) <==>
            failure.error is InvalidResumptionToken,
        error == CloseError::TransportInternalErrorOther(12) <==> failure.error is InvalidRetry,
        error == CloseError::TransportInternalErrorOther(13) <==> failure.error is InvalidStreamId,
        error == CloseError::TransportInternalErrorOther(14) <==> failure.error is KeysDiscarded,
        error == CloseError::TransportInternalErrorOther(15) <==> failure.error is KeysPending,
        error == CloseError::TransportInternalErrorOther(16) <==> failure.error is KeyUpdateBlocked,
        error == CloseError::TransportInternalErrorOther(17) <==> failure.error is NoMoreData,
        error == CloseError::TransportInternalErrorOther(18) <==> failure.error is NotConnected,
        error == CloseError::TransportInternalErrorOther(19) <==>
            failure.error is PacketNumberOverlap,
        error == CloseError::TransportInternalErrorOther(20) <==> failure.error is StatelessReset,
        error == CloseError::TransportInternalErrorOther(21) <==> failure.error is TooMuchData,
        error == CloseError::TransportInternalErrorOther(22) <==>
            failure.error is UnexpectedMessage,
        error == CloseError::TransportInternalErrorOther(23) <==>
            failure.error is UnknownConnectionId,
        error == CloseError::TransportInternalErrorOther(24) <==> failure.error is UnknownFrameType,
        error == CloseError::TransportInternalErrorOther(25) <==>
            failure.error is VersionNegotiation,
        error == CloseError::TransportInternalErrorOther(26) <==> failure.error is WrongRole,
        error == CloseError::TransportInternalErrorOther(27) <==> failure.error is Qlog,
        error == CloseError::TransportInternalErrorOther(28) <==> failure.error is NotAvailable,
        error == CloseError::TransportInternalErrorOther(29) <==> failure.error is DisabledVersion,
        error == CloseError::TransportInternalErrorOther(30) <==>
            failure.error is UnknownTransportParameter,
{
}

/// What QUIC defines is counted under its number on the wire, what the peer or an alert gave under
/// the number that they gave, and an error of the TLS library under the number of that error; a
/// configuration to retry with is no error of the TLS library here.
pub proof fn law_closes_are_counted(
    failure: TransportFailure,
    error: CloseError,
    reason: CloseReason,
    told: CloseError,
    code: u64,
    alert: u8,
)
    requires
        call_ensures(<CloseError as From<TransportFailure>>::from, (failure,), error),
        call_ensures(<CloseError as From<CloseReason>>::from, (reason,), told),
    ensures
        error == CloseError::TransportInternalError <==> failure.error is Internal,
        error is CryptoError <==> (failure.error matches TransportError::Crypto(c)
            && c !is EchRetry),
        failure.error matches TransportError::Crypto(c) ==> c !is EchRetry ==> error
            == CloseError::CryptoError(crypto_code(c)),
        error == CloseError::CryptoAlert(alert) <==> failure.error == TransportError::CryptoAlert(
            alert,
        ),
        error == CloseError::PeerAppError(code) <==> failure.error
            == TransportError::PeerApplication(code),
        error == CloseError::PeerError(code) <==> failure.error == TransportError::Peer(code),
        error is EchRetry <==> (failure.error is EchRetry || failure.error matches
            TransportError::Crypto(CryptoError::EchRetry(_))),
        error !is AppError,
        error matches CloseError::TransportError(n) ==> n == failure.code,
        error is TransportError <==> {
            ||| failure.error is NoError
            ||| failure.error is IdleTimeout
            ||| failure.error is ConnectionRefused
            ||| failure.error is FlowControl
            ||| failure.error is StreamLimit
            ||| failure.error is StreamState
            ||| failure.error is FinalSize
            ||| failure.error is FrameEncoding
            ||| failure.error is TransportParameter
            ||| failure.error is ProtocolViolation
            ||| failure.error is InvalidToken
            ||| failure.error is KeysExhausted
            ||| failure.error is Application
            ||| failure.error is NoAvailablePath
            ||| failure.error is CryptoBufferExceeded
        },
        told == CloseError::AppError(code) <==> reason == CloseReason::Application(code),
        reason == CloseReason::Transport(failure) ==> told == error,
{
}

/// The name under which a close by each error of the transport is counted.
pub proof fn law_close_names(reason: CloseReason, name: &'static str)
    requires
        call_ensures(close_reason_label, (&reason,), name),
    ensures
        reason is Application ==> name@ == "Application"@,
        reason matches CloseReason::Transport(failure) ==> {
            let error = failure.error;
            &&& error is NoError ==> name@ == "NoError"@
            &&& error is Internal ==> name@ == "InternalError"@
            &&& error is ConnectionRefused ==> name@ == "ConnectionRefused"@
            &&& error is FlowControl ==> name@ == "FlowControlError"@
            &&& error is StreamLimit ==> name@ == "StreamLimitError"@
            &&& error is StreamState ==> name@ == "StreamStateError"@
            &&& error is FinalSize ==> name@ == "FinalSizeError"@
            &&& error is FrameEncoding ==> name@ == "FrameEncodingError"@
            &&& error is TransportParameter ==> name@ == "TransportParameterError"@
            &&& error is ProtocolViolation ==> name@ == "ProtocolViolation"@
            &&& error is InvalidToken ==> name@ == "InvalidToken"@
            &&& error is Application ==> name@ == "ApplicationError"@
            &&& error is CryptoBufferExceeded ==> name@ == "CryptoBufferExceeded"@
            &&& error is Crypto ==> name@ == "CryptoError"@
            &&& error is Qlog ==> name@ == "QlogError"@
            &&& error is CryptoAlert ==> name@ == "CryptoAlert"@
            &&& error is EchRetry ==> name@ == "EchRetry"@
            &&& error is AckedUnsentPacket ==> name@ == "AckedUnsentPacket"@
            &&& error is ConnectionIdLimitExceeded ==> name@ == "ConnectionIdLimitExceeded"@
            &&& error is ConnectionIdsExhausted ==> name@ == "ConnectionIdsExhausted"@
            &&& error is ConnectionState ==> name@ == "ConnectionState"@
            &&& error is Decrypt ==> name@ == "DecryptError"@
            &&& error is DisabledVersion ==> name@ == "DisabledVersion"@
            &&& error is IdleTimeout ==> name@ == "IdleTimeout"@
            &&& error is IntegerOverflow ==> name@ == "IntegerOverflow"@
            &&& error is InvalidInput ==> name@ == "InvalidInput"@
            &&& error is InvalidMigration ==> name@ == "InvalidMigration"@
            &&& error is InvalidPacket ==> name@ == "InvalidPacket"@
            &&& error is InvalidResumptionToken ==> name@ == "InvalidResumptionToken"@
            &&& error is InvalidRetry ==> name@ == "InvalidRetry"@
            &&& error is InvalidStreamId ==> name@ == "InvalidStreamId"@
            &&& error is KeysDiscarded ==> name@ == "KeysDiscarded"@
            &&& error is KeysExhausted ==> name@ == "KeysExhausted"@
            &&& error is KeysPending ==> name@ == "KeysPending"@
            &&& error is KeyUpdateBlocked ==> name@ == "KeyUpdateBlocked"@
            &&& error is NoAvailablePath ==> name@ == "NoAvailablePath"@
            &&& error is NoMoreData ==> name@ == "NoMoreData"@
            &&& error is NotAvailable ==> name@ == "NotAvailable"@
            &&& error is NotConnected ==> name@ == "NotConnected"@
            &&& error is PacketNumberOverlap ==> name@ == "PacketNumberOverlap"@
            &&& error is PeerApplication ==> name@ == "PeerApplicationError"@
            &&& error is Peer ==> name@ == "PeerError"@
            &&& error is StatelessReset ==> name@ == "StatelessReset"@
            &&& error is TooMuchData ==> name@ == "TooMuchData"@
            &&& error is UnexpectedMessage ==> name@ == "UnexpectedMessage"@
            &&& error is UnknownConnectionId ==> name@ == "UnknownConnectionId"@
            &&& error is UnknownFrameType ==> name@ == "UnknownFrameType"@
            &&& error is VersionNegotiation ==> name@ == "VersionNegotiation"@
            &&& error is WrongRole ==> name@ == "WrongRole"@
            &&& error is UnknownTransportParameter ==> name@ == "UnknownTransportParameter"@
        },
{
}

/// The configuration to retry with is the one that came with the error, whichever of the two
/// errors carried it.
pub proof fn law_retry_configuration(reason: CloseReason, config: Option<&[u8]>, sent: Vec<u8>)
    requires
        call_ensures(ech_retry_config, (&reason,), config),
    ensures
        reason matches CloseReason::Transport(failure) ==> (failure.error
            == TransportError::EchRetry(sent) || failure.error == TransportError::Crypto(
            CryptoError::EchRetry(sent),
        )) ==> config is Some && config->0@ == sent@,
        reason is Application ==> config is None,
        config is Some ==> reason is Transport,
{
}

/// Of a multicast operation that failed, the embedder is told that it is not available where it
/// is not, that its input was bad where the input or a frame was, and of anything else that the
/// protocol was broken. It is never told that all was well.
pub proof fn law_multicast_failures(error: Http3Error, result: NsResult)
    requires
        call_ensures(mcquic_http3_error_to_nsresult, (&error,), result),
    ensures
        result == NsResult::NS_ERROR_NOT_AVAILABLE <==> (error is Unavailable || error matches
            Http3Error::Transport(TransportError::NotAvailable)),
        result == NsResult::NS_ERROR_INVALID_ARG <==> (error is InvalidInput || (error matches
            Http3Error::Transport(e) && (e is FrameEncoding || e is InvalidInput
            || e is ProtocolViolation || e is UnknownFrameType))),
        result == NsResult::NS_ERROR_NET_HTTP3_PROTOCOL_ERROR <==> !(result
            == NsResult::NS_ERROR_NOT_AVAILABLE || result == NsResult::NS_ERROR_INVALID_ARG),
{
}

}
