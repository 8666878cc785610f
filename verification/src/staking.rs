//! Typed call layer: one function per capability. Each performs one full
//! call — encode, invoke, decode, map the failure — so callers see only
//! idiomatic result types.

use vstd::prelude::*;
use vstd::pervasive::unreached;
use crate::codec;
use crate::host::DappsStakingExt;
use crate::wire::AccountId;
use crate::wire::BondStakeInput;
use crate::wire::CallId;
use crate::wire::DSError;
use crate::wire::DSErrorCode;
use crate::wire::EraInfo;

verus! {

/// What a checked era-info answer translates to, for a conforming answer:
/// status `1` is the host-reported failure; status `0` carries an
/// envelope whose `Err` is tagged into the domain error.
pub open spec fn spec_interpret_era_info(status: u32, out: Seq<u8>) -> Result<EraInfo, DSError>
    recommends
        status == 0 || status == 1,
        status == 0 ==> codec::dec_result_era_info(out) is Some,
{
    if status != 0 {
        Err(DSError::ErrorCode(DSErrorCode::Failed))
    } else {
        match codec::dec_result_era_info(out) {
            Some((Ok(info), l)) => Ok(info),
            Some((Err(c), l)) => Err(DSError::ErrorCode(c)),
            None => Err(DSError::ErrorCode(DSErrorCode::Failed)),
        }
    }
}

/// What a checked bond-and-stake answer translates to, for a conforming
/// answer.
pub open spec fn spec_interpret_unit(status: u32, out: Seq<u8>) -> Result<(), DSError>
    recommends
        status == 0 || status == 1,
        status == 0 ==> codec::dec_result_unit(out) is Some,
{
    if status != 0 {
        Err(DSError::ErrorCode(DSErrorCode::Failed))
    } else {
        match codec::dec_result_unit(out) {
            Some((Ok(u), l)) => Ok(()),
            Some((Err(c), l)) => Err(DSError::ErrorCode(c)),
            None => Err(DSError::ErrorCode(DSErrorCode::Failed)),
        }
    }
}

/// Translates one checked era-info answer. An unknown status code or a
/// malformed envelope is a protocol violation, not a domain error: the
/// precondition excludes both, and at run time the call path aborts on
/// them instead of returning a value.
pub fn interpret_era_info_response(status: u32, out: &Vec<u8>) -> (r: Result<EraInfo, DSError>)
    requires
        status == 0 || status == 1,
        status == 0 ==> codec::dec_result_era_info(out@) is Some,
    ensures
        r == spec_interpret_era_info(status, out@),
{
    match DSErrorCode::from_status_code(status) {
        Err(code) => Err(DSError::from(code)),
        Ok(u) => {
            proof {
                assert(out@.skip(0) =~= out@);
            }
            match codec::decode_result_era_info(out, 0) {
                Some((Ok(info), p)) => Ok(info),
                Some((Err(code), p)) => Err(DSError::from(code)),
                None => unreached(),
            }
        },
    }
}

/// Translates one checked bond-and-stake answer; see
/// [`interpret_era_info_response`].
pub fn interpret_bond_response(status: u32, out: &Vec<u8>) -> (r: Result<(), DSError>)
    requires
        status == 0 || status == 1,
        status == 0 ==> codec::dec_result_unit(out@) is Some,
    ensures
        r == spec_interpret_unit(status, out@),
{
    match DSErrorCode::from_status_code(status) {
        Err(code) => Err(DSError::from(code)),
        Ok(u) => {
            proof {
                assert(out@.skip(0) =~= out@);
            }
            match codec::decode_result_unit(out, 0) {
                Some((Ok(unit), p)) => Ok(()),
                Some((Err(code), p)) => Err(DSError::from(code)),
                None => unreached(),
            }
        },
    }
}

/// The typed call layer: one full call per capability, over any
/// implementation of the staking extension.
pub struct DappsStaking;

impl DappsStaking {
    /// Calls the current-era read in the staking subsystem. No error
    /// path: the status code is ignored by design, and the answer decodes
    /// as the era the host reports.
    pub fn read_current_era<X: DappsStakingExt>(ext: &mut X) -> (era: u32)
        ensures
            era == old(ext).current_era(),
            final(ext).calls() == old(ext).calls().push(
                (CallId::ReadCurrentEra, Seq::<u8>::empty()),
            ),
            final(ext).current_era() == old(ext).current_era(),
    {
        let out = ext.read_current_era();
        proof {
            codec::lemma_le_bytes_len(old(ext).current_era() as nat, 4);
            codec::lemma_u32_round_trip(old(ext).current_era());
        }
        codec::decode_u32(&out)
    }

    /// Calls the era-info read in the staking subsystem: encodes the era,
    /// invokes the capability, decodes the envelope and translates the
    /// failure. Every failure surfaces as the tagged host error code.
    pub fn read_era_info<X: DappsStakingExt>(ext: &mut X, era: u32) -> (r: Result<
        EraInfo,
        DSError,
    >)
        ensures
            final(ext).calls() == old(ext).calls().push(
                (CallId::ReadEraInfo, codec::enc_u32(era)),
            ),
            r matches Err(e) ==> e == DSError::ErrorCode(DSErrorCode::Failed),
    {
        let input = codec::encode_u32(era);
        let (status, out) = ext.read_era_info(&input);
        interpret_era_info_response(status, &out)
    }

    /// Calls bond-and-stake in the staking subsystem for the given
    /// account and amount: the wire input carries exactly the two,
    /// encoded in order.
    pub fn bond_and_stake<X: DappsStakingExt>(
        ext: &mut X,
        account_id: AccountId,
        value: u128,
    ) -> (r: Result<(), DSError>)
        ensures
            final(ext).calls() == old(ext).calls().push(
                (
                    CallId::BondAndStake,
                    codec::enc_bond_stake_input((BondStakeInput { account_id, value })),
                ),
            ),
            r matches Err(e) ==> e == DSError::ErrorCode(DSErrorCode::Failed),
    {
        let input_record = BondStakeInput { account_id, value };
        let input = codec::encode_bond_stake_input(&input_record);
        let (status, out) = ext.bond_and_stake(&input);
        interpret_bond_response(status, &out)
    }
}

} // verus!
