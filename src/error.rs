use vstd::prelude::*;

verus! {

/// Kinds of failure that the core reports to its callers.
#[derive(Clone, Copy, Debug, PartialEq, Eq, Structural)]
pub enum ErrorKind {
    /// A caller-supplied value violates a static constraint.
    Invalid,
    /// The referenced sandbox or snapshot is absent.
    NotFound,
    /// A state-machine guard was violated.
    FailedPrecondition,
    /// The backing provider does not offer the capability.
    Unsupported,
    /// A concurrent mutation was attempted.
    Conflict,
    /// A filesystem, catalog or provider failure.
    Internal,
}

/// Status codes of the remote-procedure boundary.
#[derive(Clone, Copy, Debug, PartialEq, Eq, Structural)]
pub enum RpcCode {
    NotFound,
    FailedPrecondition,
    InvalidArgument,
    Unimplemented,
    Internal,
}

/// An error kind together with a human-readable diagnostic.
#[derive(Clone, Debug)]
pub struct CoreError {
    pub kind: ErrorKind,
    pub message: String,
}

pub open spec fn spec_rpc_code(kind: ErrorKind) -> RpcCode {
    match kind {
        ErrorKind::NotFound => RpcCode::NotFound,
        ErrorKind::FailedPrecondition => RpcCode::FailedPrecondition,
        ErrorKind::Invalid => RpcCode::InvalidArgument,
        ErrorKind::Unsupported => RpcCode::Unimplemented,
        _ => RpcCode::Internal,
    }
}

/// Maps an internal error kind to the status code reported at the boundary.
pub fn rpc_code(kind: ErrorKind) -> (r: RpcCode)
    ensures
        r == spec_rpc_code(kind),
{
    match kind {
        ErrorKind::NotFound => RpcCode::NotFound,
        ErrorKind::FailedPrecondition => RpcCode::FailedPrecondition,
        ErrorKind::Invalid => RpcCode::InvalidArgument,
        ErrorKind::Unsupported => RpcCode::Unimplemented,
        ErrorKind::Conflict => RpcCode::Internal,
        ErrorKind::Internal => RpcCode::Internal,
    }
}

impl CoreError {
    /// Builds an error of the given kind from a message.
    pub fn new(kind: ErrorKind, message: &str) -> (r: CoreError)
        ensures
            r.kind == kind,
            r.message@ == message@,
    {
        CoreError { kind, message: String::from_str(message) }
    }

    /// Builds an error of the given kind whose message is `context` followed by `detail`.
    pub fn with_detail(kind: ErrorKind, context: &str, detail: &str) -> (r: CoreError)
        ensures
            r.kind == kind,
            r.message@ == context@ + detail@,
    {
        let mut message = String::from_str(context);
        message.append(detail);
        CoreError { kind, message }
    }

    /// The boundary status code of this error.
    pub fn code(&self) -> (r: RpcCode)
        ensures
            r == spec_rpc_code(self.kind),
    {
        rpc_code(self.kind)
    }
}

} // verus!
