//! The error kinds that the library reports, each with its message.
use vstd::prelude::*;

verus! {

/// An error, by kind, with its human-readable message.
#[derive(Debug, Clone)]
pub enum MosaicError {
    Config(String),
    Auth(String),
    Network(String),
    Io(String),
    Validation(String),
    GatewayUnavailable(String),
    GatewayProtocol(String),
    ChannelUnsupported(String),
    ApprovalRequired(String),
    SandboxDenied(String),
    Tool(String),
    Unknown(String),
}

/// `e` is a validation error with message `msg`.
pub open spec fn validation_error(e: MosaicError, msg: Seq<char>) -> bool {
    e matches MosaicError::Validation(m) && m@ == msg
}

/// `out` is a validation error with message `msg`.
pub open spec fn fails_with<T>(out: Result<T, MosaicError>, msg: Seq<char>) -> bool {
    out matches Err(MosaicError::Validation(m)) && m@ == msg
}

/// `e` is a configuration error with message `msg`.
pub open spec fn config_error(e: MosaicError, msg: Seq<char>) -> bool {
    e matches MosaicError::Config(m) && m@ == msg
}

/// `e` is an authentication error with message `msg`.
pub open spec fn auth_error(e: MosaicError, msg: Seq<char>) -> bool {
    e matches MosaicError::Auth(m) && m@ == msg
}

/// `e` is a tool error with message `msg`.
pub open spec fn tool_error(e: MosaicError, msg: Seq<char>) -> bool {
    e matches MosaicError::Tool(m) && m@ == msg
}

impl MosaicError {
    /// The message carried by the error.
    pub open spec fn message(&self) -> Seq<char> {
        match self {
            MosaicError::Config(m) => m@,
            MosaicError::Auth(m) => m@,
            MosaicError::Network(m) => m@,
            MosaicError::Io(m) => m@,
            MosaicError::Validation(m) => m@,
            MosaicError::GatewayUnavailable(m) => m@,
            MosaicError::GatewayProtocol(m) => m@,
            MosaicError::ChannelUnsupported(m) => m@,
            MosaicError::ApprovalRequired(m) => m@,
            MosaicError::SandboxDenied(m) => m@,
            MosaicError::Tool(m) => m@,
            MosaicError::Unknown(m) => m@,
        }
    }

    /// The code of the error's kind.
    pub open spec fn code_spec(&self) -> Seq<char> {
        match self {
            MosaicError::Config(_) => "config"@,
            MosaicError::Auth(_) => "auth"@,
            MosaicError::Network(_) => "network"@,
            MosaicError::Io(_) => "io"@,
            MosaicError::Validation(_) => "validation"@,
            MosaicError::GatewayUnavailable(_) => "gateway_unavailable"@,
            MosaicError::GatewayProtocol(_) => "gateway_protocol"@,
            MosaicError::ChannelUnsupported(_) => "channel_unsupported"@,
            MosaicError::ApprovalRequired(_) => "approval_required"@,
            MosaicError::SandboxDenied(_) => "sandbox_denied"@,
            MosaicError::Tool(_) => "tool"@,
            MosaicError::Unknown(_) => "unknown"@,
        }
    }

    /// The code of the error's kind.
    pub fn code(&self) -> (c: &'static str)
        ensures
            c@ == self.code_spec(),
    {
        match self {
            MosaicError::Config(_) => "config",
            MosaicError::Auth(_) => "auth",
            MosaicError::Network(_) => "network",
            MosaicError::Io(_) => "io",
            MosaicError::Validation(_) => "validation",
            MosaicError::GatewayUnavailable(_) => "gateway_unavailable",
            MosaicError::GatewayProtocol(_) => "gateway_protocol",
            MosaicError::ChannelUnsupported(_) => "channel_unsupported",
            MosaicError::ApprovalRequired(_) => "approval_required",
            MosaicError::SandboxDenied(_) => "sandbox_denied",
            MosaicError::Tool(_) => "tool",
            MosaicError::Unknown(_) => "unknown",
        }
    }

    /// The message carried by the error.
    pub fn message_text(&self) -> (out: String)
        ensures
            out@ == self.message(),
    {
        match self {
            MosaicError::Config(m) => m.clone(),
            MosaicError::Auth(m) => m.clone(),
            MosaicError::Network(m) => m.clone(),
            MosaicError::Io(m) => m.clone(),
            MosaicError::Validation(m) => m.clone(),
            MosaicError::GatewayUnavailable(m) => m.clone(),
            MosaicError::GatewayProtocol(m) => m.clone(),
            MosaicError::ChannelUnsupported(m) => m.clone(),
            MosaicError::ApprovalRequired(m) => m.clone(),
            MosaicError::SandboxDenied(m) => m.clone(),
            MosaicError::Tool(m) => m.clone(),
            MosaicError::Unknown(m) => m.clone(),
        }
    }
}

} // verus!
