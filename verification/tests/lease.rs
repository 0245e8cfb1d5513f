use workflow_coordinator::error::WorkflowError;
use workflow_coordinator::lease::{
    decide_lease, generate_leased_checkpoint_key, is_lease_live, lease_cache_ttl,
    remaining_lease_timeout, replay_checkpoint, LeaseDecision, MINIMUM_CACHE_TTL,
};
use workflow_coordinator::schema::{CheckpointValue, LeasedCheckpointValue};

fn lease(lease_timeout: i64, created_at: i64) -> LeasedCheckpointValue {
    LeasedCheckpointValue { lease_timeout, created_at }
}

#[test]
fn remaining_time_is_expiry_less_now() {
    assert_eq!(remaining_lease_timeout(&lease(1000, 5000), 5400), 600);
    assert_eq!(remaining_lease_timeout(&lease(1000, 5000), 5000), 1000);
    assert_eq!(remaining_lease_timeout(&lease(1000, 5000), 6000), 0);
}

#[test]
fn remaining_time_is_negative_after_expiry() {
    assert_eq!(remaining_lease_timeout(&lease(1000, 5000), 7000), -1000);
}

#[test]
fn remaining_time_saturates() {
    assert_eq!(remaining_lease_timeout(&lease(10, i64::MAX), 0), i64::MAX);
    assert_eq!(remaining_lease_timeout(&lease(10, i64::MAX), 5), i64::MAX - 5);
    assert_eq!(remaining_lease_timeout(&lease(-10, i64::MIN), 0), i64::MIN);
    assert_eq!(remaining_lease_timeout(&lease(0, i64::MAX), i64::MIN), i64::MAX);
    assert_eq!(remaining_lease_timeout(&lease(0, i64::MIN), i64::MAX), i64::MIN);
}

#[test]
fn remaining_time_matches_saturating_arithmetic() {
    let samples = [i64::MIN, i64::MIN + 1, -1_000, -1, 0, 1, 1_000, i64::MAX - 1, i64::MAX];
    for &created_at in samples.iter() {
        for &timeout in samples.iter() {
            for &now in samples.iter() {
                assert_eq!(
                    remaining_lease_timeout(&lease(timeout, created_at), now),
                    created_at.saturating_add(timeout).saturating_sub(now)
                );
            }
        }
    }
}

#[test]
fn a_lease_is_live_up_to_its_expiry() {
    assert!(is_lease_live(&lease(1000, 5000), 5999));
    assert!(is_lease_live(&lease(1000, 5000), 6000));
    assert!(!is_lease_live(&lease(1000, 5000), 6001));
}

#[test]
fn liveness_does_not_overflow() {
    assert!(is_lease_live(&lease(i64::MAX, i64::MAX), i64::MAX));
    assert!(!is_lease_live(&lease(i64::MIN, i64::MIN), i64::MIN));
    assert!(!is_lease_live(&lease(-1, i64::MIN), i64::MIN));
    assert!(is_lease_live(&lease(0, i64::MIN), i64::MIN));
}

#[test]
fn liveness_matches_wide_arithmetic() {
    let samples = [i64::MIN, i64::MIN + 1, -1_000, -1, 0, 1, 1_000, i64::MAX - 1, i64::MAX];
    for &created_at in samples.iter() {
        for &timeout in samples.iter() {
            for &now in samples.iter() {
                let expiry = created_at as i128 + timeout as i128;
                assert_eq!(is_lease_live(&lease(timeout, created_at), now), now as i128 <= expiry);
            }
        }
    }
}

#[test]
fn replay_of_an_uncommitted_step_is_nothing() {
    assert_eq!(replay_checkpoint(None, 7), Ok(None));
}

#[test]
fn replay_returns_the_committed_value() {
    let committed =
        CheckpointValue { position_checksum: 3, idempotency_checksum: 7, value: vec![1, 2, 3] };
    assert_eq!(replay_checkpoint(Some(committed), 7), Ok(Some(vec![1, 2, 3])));
}

#[test]
fn replay_detects_other_inputs() {
    let committed =
        CheckpointValue { position_checksum: 3, idempotency_checksum: 7, value: vec![1, 2, 3] };
    assert_eq!(
        replay_checkpoint(Some(committed), 8),
        Err(WorkflowError::NonDeterministicCheckpoint {
            position_checksum: 3,
            stored: 7,
            provided: 8
        })
    );
}

#[test]
fn a_live_lease_makes_the_step_busy() {
    assert_eq!(
        decide_lease(Some(lease(1000, 5000)), Some(2), 2, 300, 5400),
        Ok(LeaseDecision::Busy(600))
    );
}

#[test]
fn a_live_lease_is_busy_whatever_the_token() {
    assert_eq!(
        decide_lease(Some(lease(1000, 5000)), None, 2, 300, 5400),
        Ok(LeaseDecision::Busy(600))
    );
    assert_eq!(
        decide_lease(Some(lease(1000, 5000)), Some(9), 2, 300, 5400),
        Ok(LeaseDecision::Busy(600))
    );
    assert_eq!(
        decide_lease(Some(lease(1000, 5000)), Some(2), 2, 300, 6000),
        Ok(LeaseDecision::Busy(0))
    );
}

#[test]
fn the_current_token_acquires_a_free_step() {
    assert_eq!(
        decide_lease(None, Some(2), 2, 300, 5400),
        Ok(LeaseDecision::Acquire(lease(300, 5400)))
    );
}

#[test]
fn the_current_token_acquires_after_expiry() {
    assert_eq!(
        decide_lease(Some(lease(1000, 5000)), Some(2), 2, 300, 6001),
        Ok(LeaseDecision::Acquire(lease(300, 6001)))
    );
}

#[test]
fn a_lease_needs_a_recorded_token() {
    assert_eq!(decide_lease(None, None, 2, 300, 5400), Err(WorkflowError::FencingTokenNotFound));
}

#[test]
fn a_stale_token_cannot_lease() {
    assert_eq!(
        decide_lease(None, Some(3), 2, 300, 5400),
        Err(WorkflowError::FencingTokenExpired { stored: 3, provided: 2 })
    );
}

#[test]
fn a_token_ahead_of_the_record_is_unexpected() {
    assert_eq!(
        decide_lease(None, Some(2), 3, 300, 5400),
        Err(WorkflowError::UnexpectedState { stored: 2, provided: 3 })
    );
}

#[test]
fn cache_ttl_is_whole_seconds_with_a_floor() {
    assert_eq!(MINIMUM_CACHE_TTL, 30);
    assert_eq!(lease_cache_ttl(60_000), 60);
    assert_eq!(lease_cache_ttl(30_000), 30);
    assert_eq!(lease_cache_ttl(1_000), 30);
    assert_eq!(lease_cache_ttl(0), 30);
    assert_eq!(lease_cache_ttl(-5_000_000), 30);
    assert_eq!(lease_cache_ttl(i64::MIN), 30);
}

#[test]
fn cache_ttl_is_rounded_up() {
    assert_eq!(lease_cache_ttl(30_001), 31);
    assert_eq!(lease_cache_ttl(30_500), 31);
    assert_eq!(lease_cache_ttl(31_000), 31);
    assert_eq!(lease_cache_ttl(31_999), 32);
    assert_eq!(lease_cache_ttl(60_001), 61);
    assert_eq!(lease_cache_ttl(i64::MAX), i64::MAX / 1000 + 1);
}

#[test]
fn cache_ttl_covers_the_lease() {
    let samples = [
        i64::MIN, -60_001, -1, 0, 1, 999, 29_999, 30_000, 30_001, 30_500, 59_999, 60_000,
        123_456_789, i64::MAX - 1, i64::MAX,
    ];
    for &timeout in samples.iter() {
        let seconds = lease_cache_ttl(timeout);
        assert!(seconds >= 30);
        assert!(seconds as i128 * 1000 >= timeout as i128, "{} does not cover {}", seconds, timeout);
        if seconds > 30 {
            assert!((seconds as i128 - 1) * 1000 < timeout as i128);
        }
    }
}

#[test]
fn lease_key_joins_id_and_position() {
    assert_eq!(generate_leased_checkpoint_key("wf", 42), "wf:42");
    assert_eq!(generate_leased_checkpoint_key("order-17", 0), "order-17:0");
    assert_eq!(generate_leased_checkpoint_key("wf", -7), "wf:-7");
    assert_eq!(generate_leased_checkpoint_key("", 5), ":5");
}

#[test]
fn lease_key_matches_formatting() {
    let samples = [i64::MIN, i64::MIN + 1, -100, -10, -9, -1, 0, 1, 9, 10, 99, 100, 101, 1_000_000, i64::MAX];
    for &position in samples.iter() {
        assert_eq!(
            generate_leased_checkpoint_key("a:b c", position),
            format!("{}:{}", "a:b c", position)
        );
    }
}
