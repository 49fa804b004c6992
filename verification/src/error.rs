//! Error values of the policies.

use vstd::prelude::*;

verus! {

/// What a rate limiter, or the hook that consults rate limiters, can report.
#[derive(Clone, Copy, Debug, PartialEq, Eq, Structural)]
pub enum RateLimitError {
    /// Placeholder kept for compatibility of the numbering.
    CustomError,
    /// The signer is not the configured administrator.
    Unauthorized,
    /// The transfer would exceed the quota of the current period.
    RateLimitExceeded,
    /// A limiter was configured with a period of zero length.
    InvalidPeriodConfig,
    /// A per-authority limiter was consulted without an authority.
    InvalidCheckAndUpdate,
    /// The account handed to the hook is no rate limiter.
    InvalidRateLimitAccount,
    /// The number does not name a kind of rate limiter.
    InvalidRateLimitType,
    /// The list of extra accounts does not belong to the program.
    InvalidExtraAccountMetasList,
}

/// What a block list, or the hook that consults block lists, can report.
#[derive(Clone, Copy, Debug, PartialEq, Eq, Structural)]
pub enum ErrorCode {
    /// Placeholder kept for compatibility of the numbering.
    CustomError,
    /// The block list cannot hold the addresses to be added.
    BlockListFull,
    /// The signer is not the configured administrator.
    Unauthorized,
    /// A participant of the transfer is on a block list.
    Denied,
    /// The list of extra accounts does not belong to the program.
    InvalidExtraAccountMetasList,
}

/// Why the evaluation of a list of policies refused a transfer.
#[derive(Clone, Copy, Debug, PartialEq, Eq, Structural)]
pub enum PolicyError {
    /// A quota would be exceeded.
    RateLimitExceeded,
    /// A participant of the transfer is on a consulted block list.
    Denied,
    /// A limiter with a period of zero length.
    InvalidPeriodConfig,
    /// The account carries an unknown tag or its contents cannot be read.
    InvalidPolicyAccount,
    /// A per-authority limiter was consulted without an authority.
    InvalidCheckAndUpdate,
    /// A block list cannot hold the addresses to be added.
    ListFull,
    /// The signer is not the configured administrator.
    Unauthorized,
    /// The list of extra accounts does not belong to the program.
    InvalidExtraAccountMetasList,
    /// A token account of the transfer cannot be read.
    InvalidTokenAccount,
    /// The instruction is not the one that asks about a transfer.
    InvalidInstructionData,
}

impl RateLimitError {
    /// The reason as the evaluation of policies reports it.
    pub open spec fn as_policy_error(self) -> PolicyError {
        match self {
            RateLimitError::CustomError => PolicyError::InvalidPolicyAccount,
            RateLimitError::Unauthorized => PolicyError::Unauthorized,
            RateLimitError::RateLimitExceeded => PolicyError::RateLimitExceeded,
            RateLimitError::InvalidPeriodConfig => PolicyError::InvalidPeriodConfig,
            RateLimitError::InvalidCheckAndUpdate => PolicyError::InvalidCheckAndUpdate,
            RateLimitError::InvalidRateLimitAccount => PolicyError::InvalidPolicyAccount,
            RateLimitError::InvalidRateLimitType => PolicyError::InvalidPolicyAccount,
            RateLimitError::InvalidExtraAccountMetasList => PolicyError::InvalidExtraAccountMetasList,
        }
    }

    /// The error of the evaluation that stands for the error of a rate
    /// limiter.
    pub fn to_policy_error(self) -> (e: PolicyError)
        ensures
            e == self.as_policy_error(),
    {
        match self {
            RateLimitError::CustomError => PolicyError::InvalidPolicyAccount,
            RateLimitError::Unauthorized => PolicyError::Unauthorized,
            RateLimitError::RateLimitExceeded => PolicyError::RateLimitExceeded,
            RateLimitError::InvalidPeriodConfig => PolicyError::InvalidPeriodConfig,
            RateLimitError::InvalidCheckAndUpdate => PolicyError::InvalidCheckAndUpdate,
            RateLimitError::InvalidRateLimitAccount => PolicyError::InvalidPolicyAccount,
            RateLimitError::InvalidRateLimitType => PolicyError::InvalidPolicyAccount,
            RateLimitError::InvalidExtraAccountMetasList => PolicyError::InvalidExtraAccountMetasList,
        }
    }
}

impl ErrorCode {
    /// The reason as the evaluation of policies reports it.
    pub open spec fn as_policy_error(self) -> PolicyError {
        match self {
            ErrorCode::CustomError => PolicyError::InvalidPolicyAccount,
            ErrorCode::BlockListFull => PolicyError::ListFull,
            ErrorCode::Unauthorized => PolicyError::Unauthorized,
            ErrorCode::Denied => PolicyError::Denied,
            ErrorCode::InvalidExtraAccountMetasList => PolicyError::InvalidExtraAccountMetasList,
        }
    }

    /// The error of the evaluation that stands for the error of a block
    /// list.
    pub fn to_policy_error(self) -> (e: PolicyError)
        ensures
            e == self.as_policy_error(),
    {
        match self {
            ErrorCode::CustomError => PolicyError::InvalidPolicyAccount,
            ErrorCode::BlockListFull => PolicyError::ListFull,
            ErrorCode::Unauthorized => PolicyError::Unauthorized,
            ErrorCode::Denied => PolicyError::Denied,
            ErrorCode::InvalidExtraAccountMetasList => PolicyError::InvalidExtraAccountMetasList,
        }
    }
}

/// The number from which the errors of a program are counted.
pub const ERROR_CODE_OFFSET: u32 = 6000;

impl RateLimitError {
    /// The place of the error in the list of errors, counted from zero.
    pub open spec fn index(self) -> int {
        match self {
            RateLimitError::CustomError => 0,
            RateLimitError::Unauthorized => 1,
            RateLimitError::RateLimitExceeded => 2,
            RateLimitError::InvalidPeriodConfig => 3,
            RateLimitError::InvalidCheckAndUpdate => 4,
            RateLimitError::InvalidRateLimitAccount => 5,
            RateLimitError::InvalidRateLimitType => 6,
            RateLimitError::InvalidExtraAccountMetasList => 7,
        }
    }

    /// The text that goes with the error.
    pub open spec fn spec_message(self) -> Seq<char> {
        match self {
            RateLimitError::CustomError => "Custom error message"@,
            RateLimitError::Unauthorized => "Unauthorized signer"@,
            RateLimitError::RateLimitExceeded => "Transfer would exceed rate limit for this period"@,
            RateLimitError::InvalidPeriodConfig => "Invalid period configuration"@,
            RateLimitError::InvalidCheckAndUpdate => "Invalid check and update"@,
            RateLimitError::InvalidRateLimitAccount => "Invalid rate limit account provided"@,
            RateLimitError::InvalidRateLimitType => "Invalid rate limit type provided"@,
            RateLimitError::InvalidExtraAccountMetasList => "Provided account meta list account is invalid"@,
        }
    }

    /// The number that a program reports the error under: its place in the
    /// list of errors, counted from 6000.
    pub fn code(self) -> (code: u32)
        ensures
            code == ERROR_CODE_OFFSET + self.index(),
    {
        match self {
            RateLimitError::CustomError => 6000,
            RateLimitError::Unauthorized => 6001,
            RateLimitError::RateLimitExceeded => 6002,
            RateLimitError::InvalidPeriodConfig => 6003,
            RateLimitError::InvalidCheckAndUpdate => 6004,
            RateLimitError::InvalidRateLimitAccount => 6005,
            RateLimitError::InvalidRateLimitType => 6006,
            RateLimitError::InvalidExtraAccountMetasList => 6007,
        }
    }

    /// The text that goes with the error.
    pub fn message(self) -> (text: &'static str)
        ensures
            text@ == self.spec_message(),
    {
        match self {
            RateLimitError::CustomError => "Custom error message",
            RateLimitError::Unauthorized => "Unauthorized signer",
            RateLimitError::RateLimitExceeded => "Transfer would exceed rate limit for this period",
            RateLimitError::InvalidPeriodConfig => "Invalid period configuration",
            RateLimitError::InvalidCheckAndUpdate => "Invalid check and update",
            RateLimitError::InvalidRateLimitAccount => "Invalid rate limit account provided",
            RateLimitError::InvalidRateLimitType => "Invalid rate limit type provided",
            RateLimitError::InvalidExtraAccountMetasList => "Provided account meta list account is invalid",
        }
    }
}

impl ErrorCode {
    /// The place of the error in the list of errors, counted from zero.
    pub open spec fn index(self) -> int {
        match self {
            ErrorCode::CustomError => 0,
            ErrorCode::BlockListFull => 1,
            ErrorCode::Unauthorized => 2,
            ErrorCode::Denied => 3,
            ErrorCode::InvalidExtraAccountMetasList => 4,
        }
    }

    /// The text that goes with the error.
    pub open spec fn spec_message(self) -> Seq<char> {
        match self {
            ErrorCode::CustomError => "Custom error message"@,
            ErrorCode::BlockListFull => "Blocklist has no more room"@,
            ErrorCode::Unauthorized => "Unauthorized signer"@,
            ErrorCode::Denied => "Authority is denied"@,
            ErrorCode::InvalidExtraAccountMetasList => "Provided account meta list account is invalid"@,
        }
    }

    /// The number that a program reports the error under: its place in the
    /// list of errors, counted from 6000.
    pub fn code(self) -> (code: u32)
        ensures
            code == ERROR_CODE_OFFSET + self.index(),
    {
        match self {
            ErrorCode::CustomError => 6000,
            ErrorCode::BlockListFull => 6001,
            ErrorCode::Unauthorized => 6002,
            ErrorCode::Denied => 6003,
            ErrorCode::InvalidExtraAccountMetasList => 6004,
        }
    }

    /// The text that goes with the error.
    pub fn message(self) -> (text: &'static str)
        ensures
            text@ == self.spec_message(),
    {
        match self {
            ErrorCode::CustomError => "Custom error message",
            ErrorCode::BlockListFull => "Blocklist has no more room",
            ErrorCode::Unauthorized => "Unauthorized signer",
            ErrorCode::Denied => "Authority is denied",
            ErrorCode::InvalidExtraAccountMetasList => "Provided account meta list account is invalid",
        }
    }
}

impl PolicyError {
    /// The place of the error in the list of errors, counted from zero.
    pub open spec fn index(self) -> int {
        match self {
            PolicyError::RateLimitExceeded => 0,
            PolicyError::Denied => 1,
            PolicyError::InvalidPeriodConfig => 2,
            PolicyError::InvalidPolicyAccount => 3,
            PolicyError::InvalidCheckAndUpdate => 4,
            PolicyError::ListFull => 5,
            PolicyError::Unauthorized => 6,
            PolicyError::InvalidExtraAccountMetasList => 7,
            PolicyError::InvalidTokenAccount => 8,
            PolicyError::InvalidInstructionData => 9,
        }
    }

    /// The number that a program reports the error under: its place in the
    /// list of errors, counted from 6000.
    pub fn code(self) -> (code: u32)
        ensures
            code == ERROR_CODE_OFFSET + self.index(),
    {
        match self {
            PolicyError::RateLimitExceeded => 6000,
            PolicyError::Denied => 6001,
            PolicyError::InvalidPeriodConfig => 6002,
            PolicyError::InvalidPolicyAccount => 6003,
            PolicyError::InvalidCheckAndUpdate => 6004,
            PolicyError::ListFull => 6005,
            PolicyError::Unauthorized => 6006,
            PolicyError::InvalidExtraAccountMetasList => 6007,
            PolicyError::InvalidTokenAccount => 6008,
            PolicyError::InvalidInstructionData => 6009,
        }
    }
}

} // verus!
