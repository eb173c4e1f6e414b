use dmt_staking::errors::StakingError;
use dmt_staking::state::StakeRecord;

#[test]
fn upsert_first_deposit_initializes_everything() {
    let rec = StakeRecord::upsert(None, 42, 1500, 9, 100).unwrap();
    assert_eq!(
        rec,
        StakeRecord {
            owner: 42,
            stake_amount: 1500,
            stake_start_time: 9,
            last_claim_time: 9,
            reward_rate: 100,
            power_level: 5,
            voting_power: 7500,
            boost: 0,
        }
    );
}

#[test]
fn upsert_accumulates_and_recomputes() {
    let first = StakeRecord::upsert(None, 42, 1500, 9, 100).unwrap();
    let second = StakeRecord::upsert(Some(first), 42, 9000, 12, 777).unwrap();
    // The stake accumulates; the derived fields come from the new total of
    // 10500, not from the 9000 delta; the start time and the rate of the
    // first deposit stay as they were, and the configured rate handed to a
    // repeat call is ignored.
    assert_eq!(second.stake_amount, 10500);
    assert_eq!(second.power_level, 15);
    assert_eq!(second.voting_power, 157500);
    assert_eq!(second.stake_start_time, 9);
    assert_eq!(second.last_claim_time, 12);
    assert_eq!(second.reward_rate, 100);
    assert_eq!(second.boost, 0);
}

#[test]
fn upsert_overflow_is_fatal() {
    let first = StakeRecord::upsert(None, 42, u64::MAX - 1, 9, 100).unwrap();
    assert_eq!(
        StakeRecord::upsert(Some(first), 42, 2, 10, 100),
        Err(StakingError::ArithmeticOverflow)
    );
    // Exactly reaching the ceiling still succeeds.
    let full = StakeRecord::upsert(Some(first), 42, 1, 10, 100).unwrap();
    assert_eq!(full.stake_amount, u64::MAX);
    assert_eq!(full.power_level, 30);
    assert_eq!(full.voting_power, u64::MAX);
}
