//! The host boundary: the capability set of the staking extension, the
//! contract execution environment, and scripted implementations of both.
//!
//! The two traits are the only points where this library's control flow
//! crosses into the host runtime. An implementation of
//! [`DappsStakingExt`] stands for the host's side of the wire protocol;
//! the scripted types below stand in for a live host, answering each
//! capability from their configuration and recording every call, so that
//! the layers above can be exercised without a chain.

use vstd::prelude::*;
use crate::codec;
use crate::wire::AccountId;
use crate::wire::CallId;
use crate::wire::DSErrorCode;
use crate::wire::EraInfo;

verus! {

/// The observability event of the extension facade: the current era, as
/// just read from the host, carried as an indexed topic.
#[derive(PartialEq, Eq, Structural, Clone, Copy, Debug)]
pub struct CurrentEraUpdated {
    pub new: u32,
}

/// One extension call as issued on the wire: the capability it was routed
/// to and the encoded input it carried.
#[derive(Debug)]
pub struct HostCall {
    pub id: CallId,
    pub input: Vec<u8>,
}

/// The ghost view of one call record.
pub open spec fn call_view(c: HostCall) -> (CallId, Seq<u8>) {
    (c.id, c.input@)
}

/// The ghost view of a call log.
pub open spec fn call_views(s: Seq<HostCall>) -> Seq<(CallId, Seq<u8>)> {
    s.map_values(|c: HostCall| call_view(c))
}

pub proof fn lemma_call_views_push(s: Seq<HostCall>, c: HostCall)
    ensures
        call_views(s.push(c)) == call_views(s).push(call_view(c)),
{
    assert(call_views(s.push(c)) =~= call_views(s).push(call_view(c)));
}

/// The capability set of the staking chain extension, as the host runtime
/// provides it: three calls, each taking encoded input bytes and
/// answering with a status code and encoded output bytes.
///
/// An implementation stands for the host, and its contract is the wire
/// protocol the host is documented to keep: a checked call answers with a
/// status code in the known set and, on success, with output bytes in the
/// declared envelope shape; the unchecked current-era read always answers
/// with an encoded 32-bit era. `calls()` is the history of calls issued
/// through the implementation, and `current_era()` the era it reports.
/// An implementation that breaks this protocol is a host/contract version
/// mismatch, and the call paths above abort on it rather than return.
pub trait DappsStakingExt: Sized {
    /// The calls issued so far: capability and encoded input, in order.
    spec fn calls(&self) -> Seq<(CallId, Seq<u8>)>;

    /// The era the host reports.
    spec fn current_era(&self) -> u32;

    /// Reads the current era. No input; the status code is ignored by
    /// design, since the host guarantees this call never fails.
    fn read_current_era(&mut self) -> (out: Vec<u8>)
        ensures
            final(self).calls() == old(self).calls().push(
                (CallId::ReadCurrentEra, Seq::<u8>::empty()),
            ),
            out@ == codec::enc_u32(old(self).current_era()),
            final(self).current_era() == old(self).current_era(),
    ;

    /// Reads the staking state of one era. The status code is inspected;
    /// on status `0` the output carries an era-info envelope.
    fn read_era_info(&mut self, input: &Vec<u8>) -> (r: (u32, Vec<u8>))
        ensures
            final(self).calls() == old(self).calls().push((CallId::ReadEraInfo, input@)),
            r.0 == 0 || r.0 == 1,
            r.0 == 0 ==> codec::dec_result_era_info(r.1@) is Some,
    ;

    /// Bonds funds and stakes them. The status code is inspected; on
    /// status `0` the output carries a bond-and-stake envelope.
    fn bond_and_stake(&mut self, input: &Vec<u8>) -> (r: (u32, Vec<u8>))
        ensures
            final(self).calls() == old(self).calls().push((CallId::BondAndStake, input@)),
            r.0 == 0 || r.0 == 1,
            r.0 == 0 ==> codec::dec_result_unit(r.1@) is Some,
    ;
}

/// The contract execution environment: event emission and the contract's
/// own account identity, the two primitives the facades need from the
/// runtime around them. `emitted()` is the log of events emitted so far.
pub trait ContractEnv: Sized {
    /// The events emitted so far, in order.
    spec fn emitted(&self) -> Seq<CurrentEraUpdated>;

    /// The contract's own account identifier.
    spec fn own_account_id(&self) -> AccountId;

    /// Emits one `CurrentEraUpdated` event to the host's event log.
    fn emit_current_era_updated(&mut self, event: CurrentEraUpdated)
        ensures
            final(self).emitted() == old(self).emitted().push(event),
            final(self).own_account_id() == old(self).own_account_id(),
    ;

    /// Reads the contract's own account identifier.
    fn account_id(&self) -> (r: AccountId)
        ensures
            r == self.own_account_id(),
    ;
}

/// What a scripted extension answers to one checked call: a failing
/// status code, or status `0` with an envelope holding the given result.
#[derive(Debug)]
pub enum ScriptedOutcome<T> {
    /// Status code `1` and no payload.
    StatusFailed,
    /// Status code `0` and an envelope with `Ok` or `Err(Failed)`.
    Payload(Result<T, DSErrorCode>),
}

/// A scripted stand-in for the host's staking extension: answers each
/// capability from its configuration and records every call it receives.
pub struct ScriptedExtension {
    /// The era reported by the unchecked current-era read.
    pub era: u32,
    /// The outcome of any era-info call.
    pub era_info_outcome: ScriptedOutcome<EraInfo>,
    /// The outcome of any bond-and-stake call.
    pub bond_outcome: ScriptedOutcome<()>,
    /// Every call received, in order.
    pub log: Vec<HostCall>,
}

impl DappsStakingExt for ScriptedExtension {
    open spec fn calls(&self) -> Seq<(CallId, Seq<u8>)> {
        call_views(self.log@)
    }

    open spec fn current_era(&self) -> u32 {
        self.era
    }

    fn read_current_era(&mut self) -> (out: Vec<u8>) {
        let ghost prev = self.log@;
        let record = HostCall { id: CallId::ReadCurrentEra, input: Vec::new() };
        let ghost grecord = record;
        self.log.push(record);
        proof {
            lemma_call_views_push(prev, grecord);
        }
        codec::encode_u32(self.era)
    }

    fn read_era_info(&mut self, input: &Vec<u8>) -> (r: (u32, Vec<u8>)) {
        let ghost prev = self.log@;
        let record = HostCall { id: CallId::ReadEraInfo, input: codec::clone_bytes(input) };
        let ghost grecord = record;
        self.log.push(record);
        proof {
            lemma_call_views_push(prev, grecord);
        }
        match &self.era_info_outcome {
            ScriptedOutcome::StatusFailed => (1, Vec::new()),
            ScriptedOutcome::Payload(res) => {
                let mut out: Vec<u8> = Vec::new();
                codec::encode_result_era_info(res, &mut out);
                proof {
                    codec::lemma_result_era_info_round_trip(*res, Seq::empty());
                    assert(codec::enc_result_era_info(*res) + Seq::<u8>::empty() =~= out@);
                }
                (0, out)
            },
        }
    }

    fn bond_and_stake(&mut self, input: &Vec<u8>) -> (r: (u32, Vec<u8>)) {
        let ghost prev = self.log@;
        let record = HostCall { id: CallId::BondAndStake, input: codec::clone_bytes(input) };
        let ghost grecord = record;
        self.log.push(record);
        proof {
            lemma_call_views_push(prev, grecord);
        }
        match &self.bond_outcome {
            ScriptedOutcome::StatusFailed => (1, Vec::new()),
            ScriptedOutcome::Payload(res) => {
                let mut out: Vec<u8> = Vec::new();
                codec::encode_result_unit(res, &mut out);
                proof {
                    codec::lemma_result_unit_round_trip(*res, Seq::empty());
                    assert(codec::enc_result_unit(*res) + Seq::<u8>::empty() =~= out@);
                }
                (0, out)
            },
        }
    }
}

/// A scripted contract environment: a fixed own-account identity and a
/// real event log.
pub struct ScriptedEnv {
    /// The account identifier the environment reports as the contract's
    /// own.
    pub account: AccountId,
    /// Every event emitted, in order.
    pub events: Vec<CurrentEraUpdated>,
}

impl ContractEnv for ScriptedEnv {
    open spec fn emitted(&self) -> Seq<CurrentEraUpdated> {
        self.events@
    }

    open spec fn own_account_id(&self) -> AccountId {
        self.account
    }

    fn emit_current_era_updated(&mut self, event: CurrentEraUpdated) {
        self.events.push(event);
    }

    fn account_id(&self) -> (r: AccountId) {
        self.account
    }
}

} // verus!
