//! Wire protocol layer: call identifiers, data records, and the
//! status-code-to-error translation.
//!
//! A call identifier is a stable numeric address of one host capability.
//! The numbers are part of the protocol agreed with the host runtime and
//! are defined in one place, never as inline literals at call sites.

use vstd::prelude::*;
use vstd::pervasive::unreached;

verus! {

/// The three capabilities of the staking chain extension, each routed to
/// the host by a fixed numeric address.
#[derive(PartialEq, Eq, Structural, Clone, Copy, Debug)]
pub enum CallId {
    /// Reads the current era. No input; output is an unsigned 32-bit
    /// integer; the status code is ignored entirely, since the host
    /// guarantees this call never fails.
    ReadCurrentEra,
    /// Reads the aggregate staking state of one era. Input is the era
    /// number; output is a `Result<EraInfo, DSErrorCode>` envelope; the
    /// status code is inspected.
    ReadEraInfo,
    /// Bonds funds and stakes them. Input is a `BondStakeInput`; output is
    /// a `Result<(), DSErrorCode>` envelope; the status code is inspected.
    BondAndStake,
}

impl CallId {
    /// The numeric address of this capability in the host's call table.
    pub open spec fn spec_id(self) -> u32 {
        match self {
            CallId::ReadCurrentEra => 3401,
            CallId::ReadEraInfo => 3402,
            CallId::BondAndStake => 3403,
        }
    }

    /// Returns the numeric address of this capability.
    pub fn id(self) -> (r: u32)
        ensures
            r == self.spec_id(),
    {
        match self {
            CallId::ReadCurrentEra => 3401,
            CallId::ReadEraInfo => 3402,
            CallId::BondAndStake => 3403,
        }
    }
}

/// A fixed-size account identifier, as the host runtime represents
/// accounts.
#[derive(PartialEq, Eq, Clone, Copy, Debug)]
pub struct AccountId {
    pub bytes: [u8; 32],
}

/// A record of the rewards allocated for stakers and dapps in one era.
/// Both amounts travel in the compact encoding.
#[derive(PartialEq, Eq, Structural, Clone, Copy, Debug, Default)]
pub struct RewardInfo {
    /// Total amount of rewards for stakers in an era.
    pub stakers: u128,
    /// Total amount of rewards for dapps in an era.
    pub dapps: u128,
}

/// A record of the total rewards and the total amounts staked and locked
/// in one era, as the host reports it.
#[derive(PartialEq, Eq, Structural, Clone, Copy, Debug, Default)]
pub struct EraInfo {
    /// Total amount of earned rewards for an era.
    pub rewards: RewardInfo,
    /// Total staked amount in an era.
    pub staked: u128,
    /// Total locked amount in an era.
    pub locked: u128,
}

/// The input of a bond-and-stake call: the account to stake for and the
/// amount. Constructed per call and consumed immediately.
#[derive(PartialEq, Eq, Clone, Copy, Debug)]
pub struct BondStakeInput {
    pub account_id: AccountId,
    pub value: u128,
}

/// A raw host-reported failure class. The known set is closed: status code
/// `1` is the only failure the protocol defines.
#[derive(PartialEq, Eq, Structural, Clone, Copy, Debug)]
pub enum DSErrorCode {
    Failed,
}

/// A caller-facing domain error of the extension layer: every failure is
/// tagged with the host error code it originated from.
#[derive(PartialEq, Eq, Structural, Clone, Copy, Debug)]
pub enum DSError {
    ErrorCode(DSErrorCode),
}

impl From<DSErrorCode> for DSError {
    fn from(error_code: DSErrorCode) -> (r: Self) {
        DSError::ErrorCode(error_code)
    }
}

impl vstd::std_specs::convert::FromSpecImpl<DSErrorCode> for DSError {
    open spec fn obeys_from_spec() -> bool {
        true
    }

    open spec fn from_spec(error_code: DSErrorCode) -> Self {
        DSError::ErrorCode(error_code)
    }
}

/// How a raw status code is classified: success, a known failure, or a
/// protocol violation (a code outside the set agreed with the host).
#[derive(PartialEq, Eq, Structural, Clone, Copy, Debug)]
pub enum StatusKind {
    /// Status code `0`: the call succeeded.
    Success,
    /// Status code `1`: the host reports the known failure class.
    Failure,
    /// Any other code: a host/contract version mismatch, not a
    /// recoverable domain error. The call path must abort.
    Unknown,
}

/// Classifies a raw status code. Total: every code falls in exactly one
/// class, and only `0` and `1` are known to the protocol.
pub fn classify_status(status_code: u32) -> (r: StatusKind)
    ensures
        r == (if status_code == 0 {
            StatusKind::Success
        } else if status_code == 1 {
            StatusKind::Failure
        } else {
            StatusKind::Unknown
        }),
{
    if status_code == 0 {
        StatusKind::Success
    } else if status_code == 1 {
        StatusKind::Failure
    } else {
        StatusKind::Unknown
    }
}

impl DSErrorCode {
    /// Translates a known status code: `0` means success and carries no
    /// error code, `1` means the host-reported failure. Any other code is
    /// a protocol violation: callers must rule it out (see
    /// [`classify_status`]) before translating, and the call path aborts
    /// on such a code instead of returning a value.
    pub fn from_status_code(status_code: u32) -> (r: Result<(), DSErrorCode>)
        requires
            status_code == 0 || status_code == 1,
        ensures
            r == (if status_code == 0 {
                Result::<(), DSErrorCode>::Ok(())
            } else {
                Result::<(), DSErrorCode>::Err(DSErrorCode::Failed)
            }),
    {
        match status_code {
            0 => Ok(()),
            1 => Err(DSErrorCode::Failed),
            _ => unreached(),
        }
    }
}

} // verus!
