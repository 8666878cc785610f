//! Scenario tests of the typed call layer and the facades, against the
//! scripted host doubles.

use dapps_staking::codec::{encode_bond_stake_input, encode_u32};
use dapps_staking::contract::{DappsStakingExtension, Staking, StakingError};
use dapps_staking::host::{ScriptedEnv, ScriptedExtension, ScriptedOutcome};
use dapps_staking::staking::DappsStaking;
use dapps_staking::wire::{AccountId, BondStakeInput, CallId, DSError, DSErrorCode, EraInfo,
    RewardInfo};

fn scripted(
    era: u32,
    era_info_outcome: ScriptedOutcome<EraInfo>,
    bond_outcome: ScriptedOutcome<()>,
) -> ScriptedExtension {
    ScriptedExtension { era, era_info_outcome, bond_outcome, log: Vec::new() }
}

fn plain_env(byte: u8) -> ScriptedEnv {
    ScriptedEnv { account: AccountId { bytes: [byte; 32] }, events: Vec::new() }
}

fn sample_info() -> EraInfo {
    EraInfo { rewards: RewardInfo { stakers: 100, dapps: 50 }, staked: 1000, locked: 200 }
}

#[test]
fn typed_read_current_era_returns_host_era() {
    let mut ext = scripted(11, ScriptedOutcome::StatusFailed, ScriptedOutcome::StatusFailed);
    assert_eq!(DappsStaking::read_current_era(&mut ext), 11);
    assert_eq!(ext.log.len(), 1);
    assert!(ext.log[0].id == CallId::ReadCurrentEra);
    assert_eq!(ext.log[0].input, Vec::<u8>::new());
}

#[test]
fn read_era_info_success() {
    // A host that for era 5 answers status 0 with the sample record.
    let mut ext = scripted(
        5,
        ScriptedOutcome::Payload(Ok(sample_info())),
        ScriptedOutcome::StatusFailed,
    );
    let r = DappsStaking::read_era_info(&mut ext, 5);
    assert_eq!(r, Ok(sample_info()));
    assert_eq!(ext.log.len(), 1);
    assert!(ext.log[0].id == CallId::ReadEraInfo);
    assert_eq!(ext.log[0].input, encode_u32(5));
    assert_eq!(ext.log[0].input, vec![5, 0, 0, 0]);
}

#[test]
fn read_era_info_failure() {
    // A host that answers status 1 for era 7.
    let mut ext = scripted(5, ScriptedOutcome::StatusFailed, ScriptedOutcome::StatusFailed);
    let r = DappsStaking::read_era_info(&mut ext, 7);
    assert_eq!(r, Err(DSError::ErrorCode(DSErrorCode::Failed)));
    assert_eq!(ext.log[0].input, encode_u32(7));
}

#[test]
fn read_era_info_envelope_failure() {
    // A host that answers status 0 with an error envelope.
    let mut ext = scripted(
        5,
        ScriptedOutcome::Payload(Err(DSErrorCode::Failed)),
        ScriptedOutcome::StatusFailed,
    );
    let r = DappsStaking::read_era_info(&mut ext, 7);
    assert_eq!(r, Err(DSError::ErrorCode(DSErrorCode::Failed)));
}

#[test]
fn bond_and_stake_sends_account_and_value() {
    let mut ext = scripted(
        5,
        ScriptedOutcome::StatusFailed,
        ScriptedOutcome::Payload(Ok(())),
    );
    let account = AccountId { bytes: [9u8; 32] };
    let r = DappsStaking::bond_and_stake(&mut ext, account, 12345);
    assert_eq!(r, Ok(()));
    assert_eq!(ext.log.len(), 1);
    assert!(ext.log[0].id == CallId::BondAndStake);
    let expected = encode_bond_stake_input(&BondStakeInput { account_id: account, value: 12345 });
    assert_eq!(ext.log[0].input, expected);
}

#[test]
fn extension_facade_emits_one_event_per_current_era_read() {
    let ext = scripted(9, ScriptedOutcome::StatusFailed, ScriptedOutcome::StatusFailed);
    let mut facade = DappsStakingExtension::new(ext, plain_env(1));
    let r = facade.read_current_era();
    assert_eq!(r, Ok(9));
    assert_eq!(facade.env.events.len(), 1);
    assert_eq!(facade.env.events[0].new, 9);

    let r2 = facade.read_current_era();
    assert_eq!(r2, Ok(9));
    assert_eq!(facade.env.events.len(), 2);
    assert_eq!(facade.env.events[1].new, 9);
}

#[test]
fn extension_facade_forwards_era_info() {
    let ext = scripted(
        5,
        ScriptedOutcome::Payload(Ok(sample_info())),
        ScriptedOutcome::StatusFailed,
    );
    let mut facade = DappsStakingExtension::new(ext, plain_env(1));
    assert_eq!(facade.read_era_info(5), Ok(sample_info()));
    assert_eq!(facade.env.events.len(), 0);
}

#[test]
fn extension_facade_tags_every_failure() {
    let ext = scripted(5, ScriptedOutcome::StatusFailed, ScriptedOutcome::StatusFailed);
    let mut facade = DappsStakingExtension::new(ext, plain_env(1));
    assert_eq!(facade.read_era_info(7), Err(DSError::ErrorCode(DSErrorCode::Failed)));
    let account = AccountId { bytes: [2u8; 32] };
    assert_eq!(
        facade.bond_and_stake(account, 10),
        Err(DSError::ErrorCode(DSErrorCode::Failed))
    );
}

#[test]
fn staking_facade_substitutes_own_identity() {
    // The public method takes only the amount; the wire input must carry
    // the contract's own account identifier.
    let ext = scripted(
        5,
        ScriptedOutcome::StatusFailed,
        ScriptedOutcome::Payload(Ok(())),
    );
    let own = AccountId { bytes: [7u8; 32] };
    let mut staking = Staking::new(ext, ScriptedEnv { account: own, events: Vec::new() });
    let r = staking.bond_and_stake(500);
    assert_eq!(r, Ok(()));
    assert_eq!(staking.ext.log.len(), 1);
    assert!(staking.ext.log[0].id == CallId::BondAndStake);
    let expected = encode_bond_stake_input(&BondStakeInput { account_id: own, value: 500 });
    assert_eq!(staking.ext.log[0].input, expected);
}

#[test]
fn staking_facade_preserves_error_provenance() {
    // A failure born as the host error code surfaces wrapped, layer by
    // layer, not flattened.
    let ext = scripted(5, ScriptedOutcome::StatusFailed, ScriptedOutcome::StatusFailed);
    let mut staking = Staking::new(ext, plain_env(3));
    assert_eq!(
        staking.read_era_info(7),
        Err(StakingError::DsError(DSError::ErrorCode(DSErrorCode::Failed)))
    );
    assert_eq!(
        staking.bond_and_stake(1),
        Err(StakingError::DsError(DSError::ErrorCode(DSErrorCode::Failed)))
    );
}

#[test]
fn staking_facade_reads_current_era() {
    let ext = scripted(77, ScriptedOutcome::StatusFailed, ScriptedOutcome::StatusFailed);
    let mut staking = Staking::new(ext, plain_env(3));
    assert_eq!(staking.get_current_era(), 77);
}

#[test]
fn staking_facade_returns_era_info() {
    let ext = scripted(
        5,
        ScriptedOutcome::Payload(Ok(sample_info())),
        ScriptedOutcome::StatusFailed,
    );
    let mut staking = Staking::new(ext, plain_env(3));
    assert_eq!(staking.read_era_info(5), Ok(sample_info()));
}

#[test]
fn call_log_keeps_order_across_calls() {
    let ext = scripted(
        4,
        ScriptedOutcome::Payload(Ok(sample_info())),
        ScriptedOutcome::Payload(Ok(())),
    );
    let own = AccountId { bytes: [5u8; 32] };
    let mut staking = Staking::new(ext, ScriptedEnv { account: own, events: Vec::new() });
    assert_eq!(staking.get_current_era(), 4);
    assert_eq!(staking.read_era_info(4), Ok(sample_info()));
    assert_eq!(staking.bond_and_stake(20), Ok(()));
    assert_eq!(staking.ext.log.len(), 3);
    assert!(staking.ext.log[0].id == CallId::ReadCurrentEra);
    assert!(staking.ext.log[1].id == CallId::ReadEraInfo);
    assert!(staking.ext.log[2].id == CallId::BondAndStake);
    assert_eq!(staking.ext.log[1].input, encode_u32(4));
    let expected = encode_bond_stake_input(&BondStakeInput { account_id: own, value: 20 });
    assert_eq!(staking.ext.log[2].input, expected);
}
