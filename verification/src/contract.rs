//! Contract facade layer: contract-shaped wrappers over the typed calls.
//!
//! The facades hold no meaningful state of their own — all true staking
//! state lives in the host runtime behind the extension they are given.

use vstd::prelude::*;
use crate::codec;
use crate::host::ContractEnv;
use crate::host::CurrentEraUpdated;
use crate::host::DappsStakingExt;
use crate::staking::DappsStaking;
use crate::wire::AccountId;
use crate::wire::BondStakeInput;
use crate::wire::CallId;
use crate::wire::DSError;
use crate::wire::DSErrorCode;
use crate::wire::EraInfo;

verus! {

/// The extension facade: a one-to-one wrapper over the typed call layer
/// that additionally emits a `CurrentEraUpdated` event whenever the
/// current era is read through it.
pub struct DappsStakingExtension<X, V> {
    /// The staking extension the facade calls into.
    pub ext: X,
    /// The contract environment the facade emits events through.
    pub env: V,
}

impl<X: DappsStakingExt, V: ContractEnv> DappsStakingExtension<X, V> {
    /// Creates the facade over the given extension and environment; the
    /// facade itself carries no further state.
    pub fn new(ext: X, env: V) -> (r: Self)
        ensures
            r.ext == ext,
            r.env == env,
    {
        DappsStakingExtension { ext, env }
    }

    /// Calls the current-era read in the staking subsystem, and emits
    /// exactly one `CurrentEraUpdated` event whose field equals the value
    /// returned. This call has no error path.
    pub fn read_current_era(&mut self) -> (r: Result<u32, DSError>)
        ensures
            r == Ok::<u32, DSError>(old(self).ext.current_era()),
            final(self).env.emitted() == old(self).env.emitted().push(
                (CurrentEraUpdated { new: old(self).ext.current_era() }),
            ),
            final(self).env.own_account_id() == old(self).env.own_account_id(),
            final(self).ext.calls() == old(self).ext.calls().push(
                (CallId::ReadCurrentEra, Seq::<u8>::empty()),
            ),
    {
        let era = DappsStaking::read_current_era(&mut self.ext);
        self.env.emit_current_era_updated(CurrentEraUpdated { new: era });
        Ok(era)
    }

    /// Calls the era-info read in the staking subsystem; every failure
    /// surfaces as the tagged host error code.
    pub fn read_era_info(&mut self, era: u32) -> (r: Result<EraInfo, DSError>)
        ensures
            final(self).ext.calls() == old(self).ext.calls().push(
                (CallId::ReadEraInfo, codec::enc_u32(era)),
            ),
            final(self).env == old(self).env,
            r matches Err(e) ==> e == DSError::ErrorCode(DSErrorCode::Failed),
    {
        DappsStaking::read_era_info(&mut self.ext, era)
    }

    /// Calls bond-and-stake in the staking subsystem for the given
    /// account and amount.
    pub fn bond_and_stake(&mut self, account_id: AccountId, value: u128) -> (r: Result<
        (),
        DSError,
    >)
        ensures
            final(self).ext.calls() == old(self).ext.calls().push(
                (
                    CallId::BondAndStake,
                    codec::enc_bond_stake_input((BondStakeInput { account_id, value })),
                ),
            ),
            final(self).env == old(self).env,
            r matches Err(e) ==> e == DSError::ErrorCode(DSErrorCode::Failed),
    {
        DappsStaking::bond_and_stake(&mut self.ext, account_id, value)
    }
}

/// The higher-level facade's error: the inner domain error, wrapped one
/// level deeper rather than flattened, so provenance is preserved.
#[derive(PartialEq, Eq, Structural, Clone, Copy, Debug)]
pub enum StakingError {
    DsError(DSError),
}

/// The higher-level facade: staking with identity inference. When
/// staking, the contract's own account identifier is substituted
/// automatically as the account argument, so the public method only takes
/// the amount.
pub struct Staking<X, V> {
    /// The staking extension the facade calls into.
    pub ext: X,
    /// The contract environment the facade reads its own identity from.
    pub env: V,
}

impl<X: DappsStakingExt, V: ContractEnv> Staking<X, V> {
    /// Creates the facade over the given extension and environment; the
    /// facade itself carries no further state.
    pub fn new(ext: X, env: V) -> (r: Self)
        ensures
            r.ext == ext,
            r.env == env,
    {
        Staking { ext, env }
    }

    /// Reads the current era through the typed call layer.
    pub fn get_current_era(&mut self) -> (era: u32)
        ensures
            era == old(self).ext.current_era(),
            final(self).ext.calls() == old(self).ext.calls().push(
                (CallId::ReadCurrentEra, Seq::<u8>::empty()),
            ),
            final(self).env == old(self).env,
    {
        DappsStaking::read_current_era(&mut self.ext)
    }

    /// Reads the staking state of one era. A domain failure that
    /// originates as the host error code surfaces here wrapped, not
    /// flattened or altered.
    pub fn read_era_info(&mut self, era: u32) -> (r: Result<EraInfo, StakingError>)
        ensures
            final(self).ext.calls() == old(self).ext.calls().push(
                (CallId::ReadEraInfo, codec::enc_u32(era)),
            ),
            final(self).env == old(self).env,
            r matches Err(e) ==> e == StakingError::DsError(
                DSError::ErrorCode(DSErrorCode::Failed),
            ),
    {
        match DappsStaking::read_era_info(&mut self.ext, era) {
            Ok(info) => Ok(info),
            Err(e) => Err(StakingError::DsError(e)),
        }
    }

    /// Bonds and stakes the given amount for the contract's own account:
    /// the wire input carries exactly the contract's account identifier
    /// and the amount. A domain failure surfaces wrapped, with its
    /// provenance intact.
    pub fn bond_and_stake(&mut self, value: u128) -> (r: Result<(), StakingError>)
        ensures
            final(self).ext.calls() == old(self).ext.calls().push(
                (
                    CallId::BondAndStake,
                    codec::enc_bond_stake_input(
                        (BondStakeInput { account_id: old(self).env.own_account_id(), value }),
                    ),
                ),
            ),
            final(self).env == old(self).env,
            r matches Err(e) ==> e == StakingError::DsError(
                DSError::ErrorCode(DSErrorCode::Failed),
            ),
    {
        let contract = self.env.account_id();
        match DappsStaking::bond_and_stake(&mut self.ext, contract, value) {
            Ok(u) => Ok(()),
            Err(e) => Err(StakingError::DsError(e)),
        }
    }
}

} // verus!
