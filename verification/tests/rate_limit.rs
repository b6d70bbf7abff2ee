use agent_gateway::rate_limit::{
    copy_with_rate_limit, get_or_create, new_registry, on_check, on_ready, rate_limited_write,
    CheckOutcome, CopyAction, CopyEvent, CopyTotals, LimiterQuota, WriteStart, WriteStep,
};

#[test]
fn test_get_or_create_returns_same_limiter() {
    let mut registry = new_registry();
    let l1 = get_or_create(&mut registry, "agent-1", 1000, 1000);
    let l2 = get_or_create(&mut registry, "agent-1", 1000, 1000);
    assert_eq!(l1, l2);
}

#[test]
fn test_different_identities_have_different_limiters() {
    let mut registry = new_registry();
    let l1 = get_or_create(&mut registry, "agent-1", 1000, 1000);
    let l2 = get_or_create(&mut registry, "agent-2", 1000, 1000);
    assert_ne!(l1, l2);
}

#[test]
fn first_request_decides_the_quota() {
    let mut registry = new_registry();
    assert_eq!(registry.quota(0), None);
    let a = get_or_create(&mut registry, "a", 1000, 100);
    let again = get_or_create(&mut registry, "a", 5, 7);
    let b = get_or_create(&mut registry, "b", 3, 0);
    assert_eq!(a, again);
    assert_eq!(
        registry.quota(a),
        Some(LimiterQuota { bytes_per_second: 1000, burst: 100, replenish_nanos: 1_000_000 })
    );
    assert_eq!(
        registry.quota(b),
        Some(LimiterQuota { bytes_per_second: 3, burst: 1, replenish_nanos: 333_333_333 })
    );
    let c = get_or_create(&mut registry, "c", u32::MAX, u32::MAX);
    assert_eq!(
        registry.quota(c),
        Some(LimiterQuota { bytes_per_second: u32::MAX, burst: u32::MAX, replenish_nanos: 0 })
    );
}

#[test]
fn writes_wait_for_tokens() {
    assert_eq!(rate_limited_write(0), WriteStart::Skip);
    assert_eq!(rate_limited_write(2000), WriteStart::Check(2000));
    assert_eq!(rate_limited_write(usize::MAX), WriteStart::Check(u32::MAX));
    assert_eq!(on_check(5, CheckOutcome::Conforms), WriteStep::Write);
    assert_eq!(on_check(5, CheckOutcome::NotYet), WriteStep::AwaitReady(5));
    assert_eq!(on_check(5, CheckOutcome::InsufficientCapacity), WriteStep::AwaitReady(5));
    assert_eq!(on_ready(5, true), WriteStep::Write);
    assert_eq!(on_ready(5, false), WriteStep::Sleep(1000));
    assert_eq!(on_ready(u32::MAX, false), WriteStep::Sleep(1000));
}

#[test]
fn bytes_are_counted_on_either_side() {
    let mut totals = CopyTotals { from_client: 0, from_dest: 0 };
    let events = [
        (CopyEvent::Client(10), CopyAction::LimitedToDest),
        (CopyEvent::Dest(3), CopyAction::ToClient),
        (CopyEvent::Client(65536), CopyAction::LimitedToDest),
        (CopyEvent::Dest(0), CopyAction::Stop),
    ];
    for (event, action) in events {
        assert_eq!(copy_with_rate_limit(&mut totals, event), action);
    }
    assert_eq!(totals, CopyTotals { from_client: 65546, from_dest: 3 });
    assert_eq!(copy_with_rate_limit(&mut totals, CopyEvent::Client(0)), CopyAction::Stop);
    assert_eq!(totals, CopyTotals { from_client: 65546, from_dest: 3 });
}
