use vstd::prelude::*;

use crate::errors::StakingError;
use crate::power::{classify, spec_classify, spec_voting_weight, voting_weight};

verus! {

/// Per-principal durable record of a stake. Created on a principal's first
/// deposit and updated on every later one; the derived `power_level` and
/// `voting_power` fields are always recomputed from the current cumulative
/// `stake_amount`, never patched incrementally.
#[derive(Clone, Copy, Debug, PartialEq, Eq, Structural)]
pub struct StakeRecord {
    /// Identity of the depositing principal.
    pub owner: u64,
    /// Current locked value, cumulative over all deposits.
    pub stake_amount: u64,
    /// When the first deposit was made (external clock units).
    pub stake_start_time: i64,
    /// When a deposit last settled this record (external clock units).
    pub last_claim_time: i64,
    /// Accrual rate in fixed-point base units per time unit.
    pub reward_rate: u64,
    /// Discrete tier for the current `stake_amount`.
    pub power_level: u8,
    /// Derived weight: `stake_amount * power_level`, saturating.
    pub voting_power: u64,
    /// Optional multiplier from externally-owned collateral; zero until a
    /// capability outside this core sets it.
    pub boost: u8,
}

/// Aggregate totals across all stake records of one pool. Mutated only in
/// lockstep with a record change inside the deposit protocol.
#[derive(Clone, Copy, Debug, PartialEq, Eq, Structural)]
pub struct PoolAggregate {
    /// Sum of all records' `stake_amount`.
    pub total_staked: u64,
    /// Sum of all records' current `power_level` values, widened.
    pub total_power: u64,
}

impl StakeRecord {
    /// The derived fields agree with the classifier applied to the current
    /// stake amount.
    pub open spec fn wf(self) -> bool {
        &&& self.power_level == spec_classify(self.stake_amount)
        &&& self.voting_power == spec_voting_weight(self.stake_amount, self.power_level)
    }

    /// Builds the record that a deposit of `amount_delta` at time `now`
    /// leaves behind: from scratch when `prior` is `None` (first deposit, at
    /// the pool's configured `base_rate`), otherwise by accumulating onto the
    /// prior record. The cumulative amount uses checked addition; overflow is
    /// fatal for the call and nothing is built.
    pub fn upsert(
        prior: Option<StakeRecord>,
        owner: u64,
        amount_delta: u64,
        now: i64,
        base_rate: u64,
    ) -> (r: Result<StakeRecord, StakingError>)
        requires
            prior matches Some(p) ==> p.owner == owner,
        ensures
            r is Err <==> (prior matches Some(p) && p.stake_amount + amount_delta > u64::MAX),
            r is Err ==> r == Err::<StakeRecord, StakingError>(StakingError::ArithmeticOverflow),
            r matches Ok(rec) ==> {
                &&& rec.owner == owner
                &&& rec.power_level == spec_classify(rec.stake_amount)
                &&& rec.voting_power == spec_voting_weight(rec.stake_amount, rec.power_level)
                &&& rec.last_claim_time == now
                &&& match prior {
                    Some(p) => {
                        &&& rec.stake_amount == p.stake_amount + amount_delta
                        &&& rec.stake_start_time == p.stake_start_time
                        &&& rec.reward_rate == p.reward_rate
                        &&& rec.boost == p.boost
                    },
                    None => {
                        &&& rec.stake_amount == amount_delta
                        &&& rec.stake_start_time == now
                        &&& rec.reward_rate == base_rate
                        &&& rec.boost == 0
                    },
                }
            },
    {
        match prior {
            Some(p) => {
                let new_total = match p.stake_amount.checked_add(amount_delta) {
                    Some(t) => t,
                    None => {
                        return Err(StakingError::ArithmeticOverflow);
                    },
                };
                let level = classify(new_total);
                Ok(StakeRecord {
                    owner,
                    stake_amount: new_total,
                    stake_start_time: p.stake_start_time,
                    last_claim_time: now,
                    reward_rate: p.reward_rate,
                    power_level: level,
                    voting_power: voting_weight(new_total, level),
                    boost: p.boost,
                })
            },
            None => {
                let level = classify(amount_delta);
                Ok(StakeRecord {
                    owner,
                    stake_amount: amount_delta,
                    stake_start_time: now,
                    last_claim_time: now,
                    reward_rate: base_rate,
                    power_level: level,
                    voting_power: voting_weight(amount_delta, level),
                    boost: 0,
                })
            },
        }
    }
}

} // verus!
