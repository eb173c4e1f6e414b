use vstd::prelude::*;

use crate::errors::StakingError;
use crate::power::{spec_classify, spec_voting_weight};
use crate::state::{PoolAggregate, StakeRecord};

verus! {

/// Sum of the `stake_amount` fields over a sequence of records.
pub open spec fn sum_staked(s: Seq<StakeRecord>) -> int
    decreases s.len(),
{
    if s.len() == 0 {
        0
    } else {
        sum_staked(s.drop_last()) + s.last().stake_amount
    }
}

/// Sum of the `power_level` fields over a sequence of records.
pub open spec fn sum_power(s: Seq<StakeRecord>) -> int
    decreases s.len(),
{
    if s.len() == 0 {
        0
    } else {
        sum_power(s.drop_last()) + s.last().power_level
    }
}

/// No two records belong to the same principal.
pub open spec fn unique_owners(s: Seq<StakeRecord>) -> bool {
    forall|i: int, j: int|
        0 <= i < s.len() && 0 <= j < s.len() && i != j ==> s[i].owner != s[j].owner
}

/// Some record in `s` belongs to `owner`.
pub open spec fn contains_owner(s: Seq<StakeRecord>, owner: u64) -> bool {
    exists|i: int| 0 <= i < s.len() && s[i].owner == owner
}

/// The index of `owner`'s record; meaningful only when `contains_owner`
/// holds, and unique when the owners are unique.
pub open spec fn owner_index(s: Seq<StakeRecord>, owner: u64) -> int {
    choose|i: int| 0 <= i < s.len() && s[i].owner == owner
}

/// The record that `owner` holds in `s`, if any.
pub open spec fn record_of(s: Seq<StakeRecord>, owner: u64) -> Option<StakeRecord> {
    if contains_owner(s, owner) {
        Some(s[owner_index(s, owner)])
    } else {
        None
    }
}

proof fn lemma_sum_power_nonneg(s: Seq<StakeRecord>)
    ensures
        sum_power(s) >= 0,
    decreases s.len(),
{
    if s.len() > 0 {
        lemma_sum_power_nonneg(s.drop_last());
    }
}

/// Every record's power level is at most the power sum over the whole
/// sequence: each term of the sum is non-negative.
proof fn lemma_sum_power_element(s: Seq<StakeRecord>, i: int)
    requires
        0 <= i < s.len(),
    ensures
        sum_power(s) >= s[i].power_level,
    decreases s.len(),
{
    if i == s.len() - 1 {
        lemma_sum_power_nonneg(s.drop_last());
    } else {
        lemma_sum_power_element(s.drop_last(), i);
        assert(s.drop_last()[i] == s[i]);
    }
}

proof fn lemma_sum_staked_update(s: Seq<StakeRecord>, i: int, r: StakeRecord)
    requires
        0 <= i < s.len(),
    ensures
        sum_staked(s.update(i, r)) == sum_staked(s) - s[i].stake_amount + r.stake_amount,
    decreases s.len(),
{
    let t = s.update(i, r);
    if i == s.len() - 1 {
        assert(t.drop_last() =~= s.drop_last());
        assert(t.last() == r);
    } else {
        assert(t.drop_last() =~= s.drop_last().update(i, r));
        assert(t.last() == s.last());
        lemma_sum_staked_update(s.drop_last(), i, r);
        assert(s.drop_last()[i] == s[i]);
    }
}

proof fn lemma_sum_power_update(s: Seq<StakeRecord>, i: int, r: StakeRecord)
    requires
        0 <= i < s.len(),
    ensures
        sum_power(s.update(i, r)) == sum_power(s) - s[i].power_level + r.power_level,
    decreases s.len(),
{
    let t = s.update(i, r);
    if i == s.len() - 1 {
        assert(t.drop_last() =~= s.drop_last());
        assert(t.last() == r);
    } else {
        assert(t.drop_last() =~= s.drop_last().update(i, r));
        assert(t.last() == s.last());
        lemma_sum_power_update(s.drop_last(), i, r);
        assert(s.drop_last()[i] == s[i]);
    }
}

/// Whether a deposit of `amount` by `principal` stays inside the
/// representable range everywhere checked addition guards it: the record's
/// cumulative stake, the pool's staked total, and the pool's power total
/// after the re-tiering delta.
pub open spec fn deposit_fits(
    s: Seq<StakeRecord>,
    pool: PoolAggregate,
    principal: u64,
    amount: u64,
) -> bool {
    let prior_amount: int = match record_of(s, principal) {
        Some(p) => p.stake_amount as int,
        None => 0,
    };
    let prior_level: int = match record_of(s, principal) {
        Some(p) => p.power_level as int,
        None => 0,
    };
    let new_total = prior_amount + amount;
    &&& new_total <= u64::MAX
    &&& pool.total_staked + amount <= u64::MAX
    &&& pool.total_power - prior_level + spec_classify(new_total as u64) <= u64::MAX
}

/// What a successful deposit leaves behind: the balance shrank by exactly
/// `amount`; the returned record carries the new cumulative stake with its
/// derived fields recomputed from that total; the returned aggregate moved
/// by exactly the record's delta (`total_power` by the tier difference on an
/// update, by the whole tier on a first deposit); and the ledger holds
/// precisely that record and that aggregate, all other records untouched.
pub open spec fn deposit_ok_post(
    pre: StakingLedger,
    post: StakingLedger,
    principal: u64,
    amount: u64,
    now: i64,
    bal_pre: u64,
    bal_post: u64,
    out: (StakeRecord, PoolAggregate),
) -> bool {
    let s = pre.records_seq();
    let rec = out.0;
    let agg = out.1;
    &&& bal_post == bal_pre - amount
    &&& rec.owner == principal
    &&& rec.power_level == spec_classify(rec.stake_amount)
    &&& rec.voting_power == spec_voting_weight(rec.stake_amount, rec.power_level)
    &&& rec.last_claim_time == now
    &&& match record_of(s, principal) {
        Some(p) => {
            &&& rec.stake_amount == p.stake_amount + amount
            &&& rec.stake_start_time == p.stake_start_time
            &&& rec.reward_rate == p.reward_rate
            &&& rec.boost == p.boost
            &&& agg.total_power == pre.pool_agg().total_power - p.power_level + rec.power_level
            &&& post.records_seq() == s.update(owner_index(s, principal), rec)
        },
        None => {
            &&& rec.stake_amount == amount
            &&& rec.stake_start_time == now
            &&& rec.reward_rate == pre.base_rate()
            &&& rec.boost == 0
            &&& agg.total_power == pre.pool_agg().total_power + rec.power_level
            &&& post.records_seq() == s.push(rec)
        },
    }
    &&& agg.total_staked == pre.pool_agg().total_staked + amount
    &&& post.pool_agg() == agg
    &&& post.base_rate() == pre.base_rate()
}

/// One pool's ledger: the stake records together with the aggregate whose
/// totals always reconcile with them. The fields are private: all writes
/// funnel through the deposit protocol, so the reconciliation invariant can
/// never drift.
pub struct StakingLedger {
    records: Vec<StakeRecord>,
    pool: PoolAggregate,
    base_reward_rate: u64,
}

impl StakingLedger {
    /// The stake records, in order of first deposit.
    pub closed spec fn records_seq(self) -> Seq<StakeRecord> {
        self.records@
    }

    /// The pool aggregate.
    pub closed spec fn pool_agg(self) -> PoolAggregate {
        self.pool
    }

    /// The accrual rate given to a record on its first deposit.
    pub closed spec fn base_rate(self) -> u64 {
        self.base_reward_rate
    }

    /// The ledger's invariant: every record's derived fields agree with the
    /// classifier, each principal holds at most one record, and the pool
    /// totals equal the exact sums over the records. Drift between the
    /// aggregate and the records is a correctness bug, not a recoverable
    /// condition.
    pub open spec fn inv(self) -> bool {
        &&& forall|i: int|
            0 <= i < self.records_seq().len() ==> (#[trigger] self.records_seq()[i]).wf()
        &&& unique_owners(self.records_seq())
        &&& self.pool_agg().total_staked == sum_staked(self.records_seq())
        &&& self.pool_agg().total_power == sum_power(self.records_seq())
    }

    /// A fresh pool: no records, zero totals, the given base accrual rate.
    pub fn new(base_reward_rate: u64) -> (ledger: StakingLedger)
        ensures
            ledger.inv(),
            ledger.records_seq().len() == 0,
            ledger.pool_agg() == (PoolAggregate { total_staked: 0, total_power: 0 }),
            ledger.base_rate() == base_reward_rate,
    {
        StakingLedger {
            records: Vec::new(),
            pool: PoolAggregate { total_staked: 0, total_power: 0 },
            base_reward_rate,
        }
    }

    /// Where `principal`'s record sits in the vector, if anywhere.
    fn find_index(&self, principal: u64) -> (res: Option<usize>)
        requires
            unique_owners(self.records_seq()),
        ensures
            match res {
                Some(i) => {
                    &&& i < self.records_seq().len()
                    &&& self.records_seq()[i as int].owner == principal
                    &&& contains_owner(self.records_seq(), principal)
                    &&& owner_index(self.records_seq(), principal) == i
                },
                None => !contains_owner(self.records_seq(), principal),
            },
    {
        let ghost s = self.records_seq();
        let n = self.records.len();
        let mut i: usize = 0;
        while i < n
            invariant
                n == s.len(),
                s == self.records_seq(),
                unique_owners(s),
                i <= n,
                forall|j: int| 0 <= j < i ==> s[j].owner != principal,
            decreases n - i,
        {
            if self.records[i].owner == principal {
                proof {
                    assert(contains_owner(s, principal));
                    let k = owner_index(s, principal);
                    assert(0 <= k < s.len() && s[k].owner == principal);
                    if k != i as int {
                        assert(s[k].owner != s[i as int].owner);
                    }
                    assert(k == i as int);
                }
                return Some(i);
            }
            i += 1;
        }
        proof {
            assert(!contains_owner(s, principal));
        }
        None
    }

    /// The deposit protocol. Validates the amount, moves `amount` from the
    /// principal's transferable balance into the pool's custody, classifies
    /// the new cumulative stake, upserts the principal's record and moves the
    /// pool aggregate by exactly the record's delta. All steps apply as one
    /// atomic unit: on any failure — zero amount, short balance, or a checked
    /// addition out of range — the ledger and the balance are left exactly as
    /// they were before the call began.
    pub fn deposit(
        &mut self,
        principal: u64,
        amount: u64,
        balance: &mut u64,
        now: i64,
    ) -> (r: Result<(StakeRecord, PoolAggregate), StakingError>)
        requires
            old(self).inv(),
        ensures
            final(self).inv(),
            r is Err ==> *final(self) == *old(self) && *final(balance) == *old(balance),
            (r == Err::<(StakeRecord, PoolAggregate), StakingError>(StakingError::InvalidAmount))
                <==> amount == 0,
            (r == Err::<(StakeRecord, PoolAggregate), StakingError>(
                StakingError::InsufficientBalance,
            )) <==> (amount > 0 && *old(balance) < amount),
            (r == Err::<(StakeRecord, PoolAggregate), StakingError>(
                StakingError::ArithmeticOverflow,
            )) <==> (amount > 0 && *old(balance) >= amount && !deposit_fits(
                old(self).records_seq(),
                old(self).pool_agg(),
                principal,
                amount,
            )),
            (r is Ok) <==> (amount > 0 && *old(balance) >= amount && deposit_fits(
                old(self).records_seq(),
                old(self).pool_agg(),
                principal,
                amount,
            )),
            r matches Ok(out) ==> deposit_ok_post(
                *old(self),
                *final(self),
                principal,
                amount,
                now,
                *old(balance),
                *final(balance),
                out,
            ),
    {
        if amount == 0 {
            return Err(StakingError::InvalidAmount);
        }
        if *balance < amount {
            return Err(StakingError::InsufficientBalance);
        }
        let ghost s = self.records_seq();

        let opt_idx = self.find_index(principal);
        let prior: Option<StakeRecord> = match opt_idx {
            Some(i) => Some(self.records[i]),
            None => None,
        };
        proof {
            assert(record_of(s, principal) == prior);
        }

        let rec = match StakeRecord::upsert(prior, principal, amount, now, self.base_reward_rate) {
            Ok(rec) => rec,
            Err(e) => {
                return Err(e);
            },
        };

        let new_staked = match self.pool.total_staked.checked_add(amount) {
            Some(v) => v,
            None => {
                return Err(StakingError::ArithmeticOverflow);
            },
        };

        let prior_level: u64 = match prior {
            Some(p) => p.power_level as u64,
            None => 0,
        };
        proof {
            if prior is Some {
                lemma_sum_power_element(s, owner_index(s, principal));
            } else {
                lemma_sum_power_nonneg(s);
            }
        }
        let reduced: u64 = self.pool.total_power - prior_level;
        let new_power = match reduced.checked_add(rec.power_level as u64) {
            Some(v) => v,
            None => {
                return Err(StakingError::ArithmeticOverflow);
            },
        };

        // Every checked step passed: apply all effects together.
        *balance = *balance - amount;
        match opt_idx {
            Some(i) => {
                self.records[i] = rec;
                proof {
                    let t = self.records_seq();
                    let k = owner_index(s, principal);
                    lemma_sum_staked_update(s, k, rec);
                    lemma_sum_power_update(s, k, rec);
                    assert forall|m: int| 0 <= m < t.len() implies (#[trigger] t[m]).wf() by {
                        if m != k {
                            assert(t[m] == s[m]);
                        }
                    }
                    assert(unique_owners(t)) by {
                        assert forall|m: int, l: int|
                            0 <= m < t.len() && 0 <= l < t.len() && m != l implies t[m].owner
                            != t[l].owner by {
                            assert(t[m] == if m == k {
                                rec
                            } else {
                                s[m]
                            });
                            assert(t[l] == if l == k {
                                rec
                            } else {
                                s[l]
                            });
                        }
                    }
                }
            },
            None => {
                self.records.push(rec);
                proof {
                    let t = self.records_seq();
                    assert(t.drop_last() =~= s);
                    assert(t.last() == rec);
                    assert forall|m: int| 0 <= m < t.len() implies (#[trigger] t[m]).wf() by {
                        if m < s.len() {
                            assert(t[m] == s[m]);
                        }
                    }
                    assert(unique_owners(t)) by {
                        assert forall|m: int, l: int|
                            0 <= m < t.len() && 0 <= l < t.len() && m != l implies t[m].owner
                            != t[l].owner by {
                            if m < s.len() && l < s.len() {
                                assert(t[m] == s[m] && t[l] == s[l]);
                            } else if m < s.len() {
                                assert(t[l] == rec && t[m] == s[m]);
                            } else {
                                assert(t[m] == rec && t[l] == s[l]);
                            }
                        }
                    }
                }
            },
        }
        self.pool = PoolAggregate { total_staked: new_staked, total_power: new_power };
        Ok((rec, self.pool))
    }

    /// The aggregate totals, for governance and treasury consumers. Reads
    /// only: every write funnels through `deposit`.
    pub fn pool_totals(&self) -> (agg: PoolAggregate)
        ensures
            agg == self.pool_agg(),
    {
        self.pool
    }

    /// How many principals hold a record in this pool.
    pub fn record_count(&self) -> (n: usize)
        ensures
            n == self.records_seq().len(),
    {
        self.records.len()
    }

    /// The record at position `i`, in order of first deposit.
    pub fn record_at(&self, i: usize) -> (rec: StakeRecord)
        requires
            i < self.records_seq().len(),
        ensures
            rec == self.records_seq()[i as int],
    {
        self.records[i]
    }

    /// The record that `principal` holds in this pool, if any.
    pub fn record_for(&self, principal: u64) -> (r: Option<StakeRecord>)
        requires
            self.inv(),
        ensures
            r == record_of(self.records_seq(), principal),
    {
        match self.find_index(principal) {
            Some(i) => Some(self.records[i]),
            None => None,
        }
    }
}

} // verus!
