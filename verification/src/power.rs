use vstd::prelude::*;

verus! {

/// The tier that a stake amount falls into. Total over all amounts: every
/// amount, zero included, maps to exactly one tier.
pub open spec fn spec_classify(amount: u64) -> u8 {
    if amount <= 1000 {
        1u8
    } else if amount <= 5000 {
        5u8
    } else if amount <= 10000 {
        10u8
    } else if amount <= 50000 {
        15u8
    } else if amount <= 100000 {
        20u8
    } else {
        30u8
    }
}

/// The voting weight derived from a stake amount and its power level:
/// the product, saturating at the largest representable value.
pub open spec fn spec_voting_weight(amount: u64, level: u8) -> u64 {
    if amount * (level as u64) <= u64::MAX {
        (amount * (level as u64)) as u64
    } else {
        u64::MAX
    }
}

/// Maps a stake amount to its discrete power tier. Deterministic and total;
/// rejecting a zero amount is the depositing caller's concern, not this one's.
pub fn classify(amount: u64) -> (level: u8)
    ensures
        level == spec_classify(amount),
        level == 1 || level == 5 || level == 10 || level == 15 || level == 20 || level == 30,
{
    if amount <= 1000 {
        1
    } else if amount <= 5000 {
        5
    } else if amount <= 10000 {
        10
    } else if amount <= 50000 {
        15
    } else if amount <= 100000 {
        20
    } else {
        30
    }
}

/// Computes `amount * level`, saturating at `u64::MAX` on overflow: a voting
/// weight degrading to a ceiling is preferred to an aborted deposit.
pub fn voting_weight(amount: u64, level: u8) -> (weight: u64)
    ensures
        weight == spec_voting_weight(amount, level),
{
    match amount.checked_mul(level as u64) {
        Some(w) => w,
        None => u64::MAX,
    }
}

/// The classifier is monotone: a larger stake never yields a smaller tier.
pub proof fn lemma_classify_monotonic(a1: u64, a2: u64)
    requires
        a1 <= a2,
    ensures
        spec_classify(a1) <= spec_classify(a2),
{
}

} // verus!
