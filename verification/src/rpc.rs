//! The failures of a call to the remote service, and what they say about an identity.

use vstd::prelude::*;
use vstd::string::*;
use crate::text::{contains_text, str_contains};

verus! {

/// The code by which the service says that an address or key is not valid: the identity
/// that was asked for does not exist.
pub const RPC_INVALID_ADDRESS_OR_KEY: i64 = -5;

/// The code by which the service says that a parameter is not valid.
pub const RPC_INVALID_PARAMETER: i64 = -8;

/// The code of a failure that the client states itself.
pub const RPC_CLIENT_FAILURE: i64 = -1;

/// Why a call to the remote service failed.
#[derive(Debug, PartialEq, Eq)]
pub enum VerusRpcError {
    /// The service answered with an error of its own.
    Rpc { code: i64, message: String },
    /// The answer could not be read.
    ParseError(String),
    /// The name that was given is not the name of an identity.
    InvalidFormat,
    /// There is no such identity, or it cannot be used.
    NotFoundOrIneligible,
    /// The service could not be reached.
    Transport(String),
}

/// What a `VerusRpcError` holds, as mathematical values.
pub enum VerusRpcErrorView {
    Rpc { code: i64, message: Seq<char> },
    ParseError(Seq<char>),
    InvalidFormat,
    NotFoundOrIneligible,
    Transport(Seq<char>),
}

impl View for VerusRpcError {
    type V = VerusRpcErrorView;

    open spec fn view(&self) -> VerusRpcErrorView {
        match self {
            VerusRpcError::Rpc { code, message } => VerusRpcErrorView::Rpc {
                code: *code,
                message: message@,
            },
            VerusRpcError::ParseError(text) => VerusRpcErrorView::ParseError(text@),
            VerusRpcError::InvalidFormat => VerusRpcErrorView::InvalidFormat,
            VerusRpcError::NotFoundOrIneligible => VerusRpcErrorView::NotFoundOrIneligible,
            VerusRpcError::Transport(text) => VerusRpcErrorView::Transport(text@),
        }
    }
}

/// Whether an answer that could not be read was the service's internal error, which it
/// gives for an identity that does not exist.
pub open spec fn is_internal_server_error(text: Seq<char>) -> bool {
    contains_text(text, "500 Internal Server Error"@)
}

/// Whether the failure of a lookup means that the identity does not exist: the service
/// calls the address or the parameter invalid, or answers with its internal error.
pub open spec fn means_not_found(error: VerusRpcErrorView) -> bool {
    match error {
        VerusRpcErrorView::Rpc { code, message } => code == RPC_INVALID_ADDRESS_OR_KEY || code
            == RPC_INVALID_PARAMETER,
        VerusRpcErrorView::ParseError(text) => is_internal_server_error(text),
        _ => false,
    }
}

/// Whether the failure of a lookup means that an identity under registration is not there
/// yet: the service calls the address invalid, or answers with its internal error.
pub open spec fn means_not_ready(error: VerusRpcErrorView) -> bool {
    match error {
        VerusRpcErrorView::Rpc { code, message } => code == RPC_INVALID_ADDRESS_OR_KEY,
        VerusRpcErrorView::ParseError(text) => is_internal_server_error(text),
        _ => false,
    }
}

/// Decides whether the failure of a lookup means that the identity does not exist.
pub fn indicates_not_found(error: &VerusRpcError) -> (not_found: bool)
    ensures
        not_found == means_not_found(error@),
{
    match error {
        VerusRpcError::Rpc { code, message } => *code == RPC_INVALID_ADDRESS_OR_KEY || *code
            == RPC_INVALID_PARAMETER,
        VerusRpcError::ParseError(text) => str_contains(text.as_str(), "500 Internal Server Error"),
        _ => false,
    }
}

/// Decides whether the failure of a lookup means that an identity is not there yet.
pub fn indicates_not_ready(error: &VerusRpcError) -> (not_ready: bool)
    ensures
        not_ready == means_not_ready(error@),
{
    match error {
        VerusRpcError::Rpc { code, message } => *code == RPC_INVALID_ADDRESS_OR_KEY,
        VerusRpcError::ParseError(text) => str_contains(text.as_str(), "500 Internal Server Error"),
        _ => false,
    }
}

} // verus!
