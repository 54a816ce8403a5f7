//! The errors that a request is answered with.
use vstd::prelude::*;

verus! {

/// What kind of error a reply carries, as JSON-RPC tells errors apart.
#[derive(Clone, Copy, Debug, PartialEq, Eq, Structural)]
pub enum ErrorCode {
    /// The parameters of the request are not acceptable.
    InvalidParams,
    /// An error of this server's own, with its number.
    ServerError(i64),
}

/// What a reply says about an error beside its message.
#[derive(Clone, Debug)]
pub enum ErrorData {
    /// How far the node is behind, if that is known.
    NodeUnhealthy { num_slots_behind: Option<u64> },
    /// The transaction that failed, its error and its logs.
    TransactionFailure { transaction_index: usize, error: String, logs: Vec<String> },
}

/// An error reply.
#[derive(Clone, Debug)]
pub struct Error {
    pub code: ErrorCode,
    pub message: String,
    pub data: Option<ErrorData>,
}

/// The lines of a log.
pub open spec fn lines(logs: Seq<String>) -> Seq<Seq<char>> {
    logs.map_values(|line: String| line@)
}

pub ghost enum ErrorDataView {
    NodeUnhealthy { num_slots_behind: Option<u64> },
    TransactionFailure { transaction_index: int, error: Seq<char>, logs: Seq<Seq<char>> },
}

pub ghost struct ErrorView {
    pub code: ErrorCode,
    pub message: Seq<char>,
    pub data: Option<ErrorDataView>,
}

impl View for ErrorData {
    type V = ErrorDataView;

    open spec fn view(&self) -> ErrorDataView {
        match self {
            ErrorData::NodeUnhealthy { num_slots_behind } => ErrorDataView::NodeUnhealthy {
                num_slots_behind: *num_slots_behind,
            },
            ErrorData::TransactionFailure { transaction_index, error, logs } => {
                ErrorDataView::TransactionFailure {
                    transaction_index: *transaction_index as int,
                    error: error@,
                    logs: lines(logs@),
                }
            },
        }
    }
}

impl View for Error {
    type V = ErrorView;

    open spec fn view(&self) -> ErrorView {
        ErrorView {
            code: self.code,
            message: self.message@,
            data: match self.data {
                Some(data) => Some(data@),
                None => None,
            },
        }
    }
}

/// The number of the reply of a node that cannot serve requests.
pub const NODE_UNHEALTHY: i64 = -32005;

/// The number of the reply to a bundle that a transaction of its own spoils.
pub const BUNDLE_REJECTED: i64 = -32000;

/// The number of the reply to a bundle that broke off while it was committed.
pub const COMMIT_FAILED: i64 = -32001;

/// A reply that blames the parameters.
pub open spec fn invalid_params_view(message: Seq<char>) -> ErrorView {
    ErrorView { code: ErrorCode::InvalidParams, message, data: None }
}

/// The reply of a node that has no ledger to serve.
pub open spec fn node_unhealthy_view() -> ErrorView {
    ErrorView {
        code: ErrorCode::ServerError(NODE_UNHEALTHY),
        message: "Node is unhealthy"@,
        data: Some(ErrorDataView::NodeUnhealthy { num_slots_behind: None }),
    }
}

/// What a kind of error is called.
pub open spec fn description_view(code: ErrorCode) -> Seq<char> {
    match code {
        ErrorCode::InvalidParams => "Invalid params"@,
        ErrorCode::ServerError(_) => "Server error"@,
    }
}

/// An error in one line: its kind, then its message.
pub open spec fn error_line(error: ErrorView) -> Seq<char> {
    description_view(error.code) + ": "@ + error.message
}

impl ErrorCode {
    /// What this kind of error is called.
    pub fn description(&self) -> (r: String)
        ensures
            r@ == description_view(*self),
    {
        match self {
            ErrorCode::InvalidParams => "Invalid params".to_string(),
            ErrorCode::ServerError(_) => "Server error".to_string(),
        }
    }
}

impl Error {
    /// A reply that blames the parameters, with nothing beside the message.
    pub fn invalid_params(message: String) -> (r: Self)
        ensures
            r@ == invalid_params_view(message@),
    {
        Error { code: ErrorCode::InvalidParams, message, data: None }
    }

    /// The reply of a node that has no ledger to serve and cannot say how far it is behind.
    pub fn node_unhealthy() -> (r: Self)
        ensures
            r@ == node_unhealthy_view(),
    {
        Error {
            code: ErrorCode::ServerError(NODE_UNHEALTHY),
            message: "Node is unhealthy".to_string(),
            data: Some(ErrorData::NodeUnhealthy { num_slots_behind: None }),
        }
    }

    /// The error in one line: its kind, then its message.
    pub fn line(&self) -> (r: String)
        ensures
            r@ == error_line(self@),
    {
        let mut text = self.code.description();
        text.append(": ");
        text.append(self.message.as_str());
        text
    }
}

} // verus!
