//! Protocol errors and their RFC error codes.
use vstd::prelude::*;

verus! {

#[derive(Debug, Clone, Copy, PartialEq, Eq, Structural)]
pub enum MacpError {
    InvalidMacpVersion,
    InvalidEnvelope,
    DuplicateSession,
    UnknownSession,
    SessionNotOpen,
    TtlExpired,
    InvalidTtl,
    UnknownMode,
    InvalidModeState,
    InvalidPayload,
    Forbidden,
    Unauthenticated,
    /// Kept for RFC error-code completeness. Duplicate detection is reported as
    /// `ProcessResult { duplicate: true }` rather than as this error.
    DuplicateMessage,
    PayloadTooLarge,
    RateLimited,
    InvalidSessionId,
    SessionAlreadyExists,
    StorageFailed,
    PolicyDenied,
    UnknownPolicyVersion,
    InvalidPolicyDefinition,
}

/// The RFC error code of each variant.
pub open spec fn error_code_of(e: MacpError) -> Seq<char> {
    match e {
        MacpError::InvalidMacpVersion => "UNSUPPORTED_PROTOCOL_VERSION"@,
        MacpError::InvalidEnvelope => "INVALID_ENVELOPE"@,
        MacpError::DuplicateSession => "INVALID_ENVELOPE"@,
        MacpError::UnknownSession => "SESSION_NOT_FOUND"@,
        MacpError::SessionNotOpen => "SESSION_NOT_OPEN"@,
        MacpError::TtlExpired => "SESSION_NOT_OPEN"@,
        MacpError::InvalidTtl => "INVALID_ENVELOPE"@,
        MacpError::UnknownMode => "MODE_NOT_SUPPORTED"@,
        MacpError::InvalidModeState => "INVALID_ENVELOPE"@,
        MacpError::InvalidPayload => "INVALID_ENVELOPE"@,
        MacpError::Forbidden => "FORBIDDEN"@,
        MacpError::Unauthenticated => "UNAUTHENTICATED"@,
        MacpError::DuplicateMessage => "DUPLICATE_MESSAGE"@,
        MacpError::PayloadTooLarge => "PAYLOAD_TOO_LARGE"@,
        MacpError::RateLimited => "RATE_LIMITED"@,
        MacpError::InvalidSessionId => "INVALID_SESSION_ID"@,
        MacpError::SessionAlreadyExists => "SESSION_ALREADY_EXISTS"@,
        MacpError::StorageFailed => "INTERNAL_ERROR"@,
        MacpError::PolicyDenied => "POLICY_DENIED"@,
        MacpError::UnknownPolicyVersion => "UNKNOWN_POLICY_VERSION"@,
        MacpError::InvalidPolicyDefinition => "INVALID_POLICY_DEFINITION"@,
    }
}

/// The display text of each variant: its name.
pub open spec fn error_name_of(e: MacpError) -> Seq<char> {
    match e {
        MacpError::InvalidMacpVersion => "InvalidMacpVersion"@,
        MacpError::InvalidEnvelope => "InvalidEnvelope"@,
        MacpError::DuplicateSession => "DuplicateSession"@,
        MacpError::UnknownSession => "UnknownSession"@,
        MacpError::SessionNotOpen => "SessionNotOpen"@,
        MacpError::TtlExpired => "TtlExpired"@,
        MacpError::InvalidTtl => "InvalidTtl"@,
        MacpError::UnknownMode => "UnknownMode"@,
        MacpError::InvalidModeState => "InvalidModeState"@,
        MacpError::InvalidPayload => "InvalidPayload"@,
        MacpError::Forbidden => "Forbidden"@,
        MacpError::Unauthenticated => "Unauthenticated"@,
        MacpError::DuplicateMessage => "DuplicateMessage"@,
        MacpError::PayloadTooLarge => "PayloadTooLarge"@,
        MacpError::RateLimited => "RateLimited"@,
        MacpError::InvalidSessionId => "InvalidSessionId"@,
        MacpError::SessionAlreadyExists => "SessionAlreadyExists"@,
        MacpError::StorageFailed => "StorageFailed"@,
        MacpError::PolicyDenied => "PolicyDenied"@,
        MacpError::UnknownPolicyVersion => "UnknownPolicyVersion"@,
        MacpError::InvalidPolicyDefinition => "InvalidPolicyDefinition"@,
    }
}

impl MacpError {
    /// Returns the RFC error code string for this error variant.
    pub fn error_code(&self) -> (r: &'static str)
        ensures
            r@ == error_code_of(*self),
    {
        match self {
            MacpError::InvalidMacpVersion => "UNSUPPORTED_PROTOCOL_VERSION",
            MacpError::InvalidEnvelope => "INVALID_ENVELOPE",
            MacpError::DuplicateSession => "INVALID_ENVELOPE",
            MacpError::UnknownSession => "SESSION_NOT_FOUND",
            MacpError::SessionNotOpen => "SESSION_NOT_OPEN",
            MacpError::TtlExpired => "SESSION_NOT_OPEN",
            MacpError::InvalidTtl => "INVALID_ENVELOPE",
            MacpError::UnknownMode => "MODE_NOT_SUPPORTED",
            MacpError::InvalidModeState => "INVALID_ENVELOPE",
            MacpError::InvalidPayload => "INVALID_ENVELOPE",
            MacpError::Forbidden => "FORBIDDEN",
            MacpError::Unauthenticated => "UNAUTHENTICATED",
            MacpError::DuplicateMessage => "DUPLICATE_MESSAGE",
            MacpError::PayloadTooLarge => "PAYLOAD_TOO_LARGE",
            MacpError::RateLimited => "RATE_LIMITED",
            MacpError::InvalidSessionId => "INVALID_SESSION_ID",
            MacpError::SessionAlreadyExists => "SESSION_ALREADY_EXISTS",
            MacpError::StorageFailed => "INTERNAL_ERROR",
            MacpError::PolicyDenied => "POLICY_DENIED",
            MacpError::UnknownPolicyVersion => "UNKNOWN_POLICY_VERSION",
            MacpError::InvalidPolicyDefinition => "INVALID_POLICY_DEFINITION",
        }
    }

    /// The variant's name, which is its display text.
    pub fn name(&self) -> (r: &'static str)
        ensures
            r@ == error_name_of(*self),
    {
        match self {
            MacpError::InvalidMacpVersion => "InvalidMacpVersion",
            MacpError::InvalidEnvelope => "InvalidEnvelope",
            MacpError::DuplicateSession => "DuplicateSession",
            MacpError::UnknownSession => "UnknownSession",
            MacpError::SessionNotOpen => "SessionNotOpen",
            MacpError::TtlExpired => "TtlExpired",
            MacpError::InvalidTtl => "InvalidTtl",
            MacpError::UnknownMode => "UnknownMode",
            MacpError::InvalidModeState => "InvalidModeState",
            MacpError::InvalidPayload => "InvalidPayload",
            MacpError::Forbidden => "Forbidden",
            MacpError::Unauthenticated => "Unauthenticated",
            MacpError::DuplicateMessage => "DuplicateMessage",
            MacpError::PayloadTooLarge => "PayloadTooLarge",
            MacpError::RateLimited => "RateLimited",
            MacpError::InvalidSessionId => "InvalidSessionId",
            MacpError::SessionAlreadyExists => "SessionAlreadyExists",
            MacpError::StorageFailed => "StorageFailed",
            MacpError::PolicyDenied => "PolicyDenied",
            MacpError::UnknownPolicyVersion => "UnknownPolicyVersion",
            MacpError::InvalidPolicyDefinition => "InvalidPolicyDefinition",
        }
    }

    /// The display text of the error (its variant name) as an owned string.
    pub fn to_string(&self) -> (r: String)
        ensures
            r@ == error_name_of(*self),
    {
        crate::text::owned(self.name())
    }
}

} // verus!
