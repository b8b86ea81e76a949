use vstd::prelude::*;

verus! {

/// Every way an operation can fail. An operation that fails leaves all records as they were.
#[derive(Clone, Copy, Debug, PartialEq, Eq, Structural)]
pub enum ErrorCode {
    Unknown,
    Unauthorized,
    Overflow,
    InvalidParameter,
    BondNotConfigured,
    BondAtMaxDebt,
    BondPayoutTooSmall,
    BondPayoutTooBig,
    BondPriceSlipped,
    UserNoSpaceForMoreBonds,
}

impl ErrorCode {
    /// The text of each error.
    pub open spec fn message_spec(self) -> Seq<char> {
        match self {
            ErrorCode::Unknown => "unknown error"@,
            ErrorCode::Unauthorized => "unauthorized"@,
            ErrorCode::Overflow => "overflow"@,
            ErrorCode::InvalidParameter => "invalid parameter"@,
            ErrorCode::BondNotConfigured => "bond not configured"@,
            ErrorCode::BondAtMaxDebt => "bond at max debt"@,
            ErrorCode::BondPayoutTooSmall => "bond payout too small"@,
            ErrorCode::BondPayoutTooBig => "bond payout too big"@,
            ErrorCode::BondPriceSlipped => "bond price slipped"@,
            ErrorCode::UserNoSpaceForMoreBonds => "no space for more bonds"@,
        }
    }

    /// The text to show for this error.
    pub fn message(&self) -> (text: &'static str)
        ensures
            text@ == self.message_spec(),
    {
        match self {
            ErrorCode::Unknown => "unknown error",
            ErrorCode::Unauthorized => "unauthorized",
            ErrorCode::Overflow => "overflow",
            ErrorCode::InvalidParameter => "invalid parameter",
            ErrorCode::BondNotConfigured => "bond not configured",
            ErrorCode::BondAtMaxDebt => "bond at max debt",
            ErrorCode::BondPayoutTooSmall => "bond payout too small",
            ErrorCode::BondPayoutTooBig => "bond payout too big",
            ErrorCode::BondPriceSlipped => "bond price slipped",
            ErrorCode::UserNoSpaceForMoreBonds => "no space for more bonds",
        }
    }
}

} // verus!
