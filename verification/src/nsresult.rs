//! Result codes that the embedder understands.
use vstd::prelude::*;

verus! {

/// A result code of the embedder: success, or the reason of a failure.
#[derive(Clone, Copy, Debug, PartialEq, Eq, Structural)]
#[allow(non_camel_case_types)]
pub enum NsResult {
    NS_OK,
    NS_BASE_STREAM_WOULD_BLOCK,
    NS_ERROR_CONNECTION_REFUSED,
    NS_ERROR_DOM_INVALID_HEADER_NAME,
    NS_ERROR_FILE_ALREADY_EXISTS,
    NS_ERROR_FILE_DIR_NOT_EMPTY,
    NS_ERROR_FILE_IS_DIRECTORY,
    NS_ERROR_FILE_NOT_DIRECTORY,
    NS_ERROR_FILE_READ_ONLY,
    NS_ERROR_FILE_UNRESOLVABLE_SYMLINK,
    NS_ERROR_ILLEGAL_VALUE,
    NS_ERROR_INVALID_ARG,
    NS_ERROR_IN_PROGRESS,
    NS_ERROR_NET_HTTP3_PROTOCOL_ERROR,
    NS_ERROR_NET_INTERRUPT,
    NS_ERROR_NET_RESET,
    NS_ERROR_NET_TIMEOUT,
    NS_ERROR_NOT_AVAILABLE,
    NS_ERROR_NOT_CONNECTED,
    NS_ERROR_OUT_OF_MEMORY,
    NS_ERROR_SOCKET_ADDRESS_IN_USE,
    NS_ERROR_UNEXPECTED,
}

}
