use transfer_policy::error::{ErrorCode, PolicyError, RateLimitError};
use transfer_policy::limiters::RateLimitType;

#[test]
fn rate_limit_type_from_its_number() {
    assert_eq!(RateLimitType::try_from(0), Ok(RateLimitType::AuthorityBased));
    assert_eq!(RateLimitType::try_from(1), Ok(RateLimitType::MintBased));
    assert_eq!(RateLimitType::try_from(2), Err(RateLimitError::InvalidRateLimitType));
    assert_eq!(RateLimitType::try_from(255), Err(RateLimitError::InvalidRateLimitType));
    assert_eq!(RateLimitType::AuthorityBased.to_u8(), 0);
    assert_eq!(RateLimitType::MintBased.to_u8(), 1);
}

#[test]
fn errors_become_policy_errors() {
    assert_eq!(
        RateLimitError::RateLimitExceeded.to_policy_error(),
        PolicyError::RateLimitExceeded
    );
    assert_eq!(
        RateLimitError::InvalidCheckAndUpdate.to_policy_error(),
        PolicyError::InvalidCheckAndUpdate
    );
    assert_eq!(
        RateLimitError::InvalidPeriodConfig.to_policy_error(),
        PolicyError::InvalidPeriodConfig
    );
    assert_eq!(
        RateLimitError::InvalidRateLimitAccount.to_policy_error(),
        PolicyError::InvalidPolicyAccount
    );
    assert_eq!(RateLimitError::Unauthorized.to_policy_error(), PolicyError::Unauthorized);
    assert_eq!(ErrorCode::BlockListFull.to_policy_error(), PolicyError::ListFull);
    assert_eq!(ErrorCode::Denied.to_policy_error(), PolicyError::Denied);
    assert_eq!(ErrorCode::Unauthorized.to_policy_error(), PolicyError::Unauthorized);
    assert_eq!(
        ErrorCode::InvalidExtraAccountMetasList.to_policy_error(),
        PolicyError::InvalidExtraAccountMetasList
    );
}

#[test]
fn errors_have_their_numbers_and_texts() {
    assert_eq!(transfer_policy::error::ERROR_CODE_OFFSET, anchor_lang::error::ERROR_CODE_OFFSET);
    assert_eq!(RateLimitError::CustomError.code(), 6000);
    assert_eq!(RateLimitError::RateLimitExceeded.code(), 6002);
    assert_eq!(RateLimitError::InvalidPeriodConfig.code(), 6003);
    assert_eq!(RateLimitError::InvalidCheckAndUpdate.code(), 6004);
    assert_eq!(RateLimitError::InvalidExtraAccountMetasList.code(), 6007);
    assert_eq!(ErrorCode::BlockListFull.code(), 6001);
    assert_eq!(ErrorCode::Denied.code(), 6003);
    assert_eq!(ErrorCode::InvalidExtraAccountMetasList.code(), 6004);
    assert_eq!(
        RateLimitError::RateLimitExceeded.message(),
        "Transfer would exceed rate limit for this period"
    );
    assert_eq!(RateLimitError::InvalidPeriodConfig.message(), "Invalid period configuration");
    assert_eq!(ErrorCode::BlockListFull.message(), "Blocklist has no more room");
    assert_eq!(ErrorCode::Denied.message(), "Authority is denied");
    assert_eq!(ErrorCode::Unauthorized.message(), "Unauthorized signer");
    assert_eq!(PolicyError::RateLimitExceeded.code(), 6000);
    assert_eq!(PolicyError::Denied.code(), 6001);
    assert_eq!(PolicyError::ListFull.code(), 6005);
    assert_eq!(PolicyError::InvalidInstructionData.code(), 6009);
}
