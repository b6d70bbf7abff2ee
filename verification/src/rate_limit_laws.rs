//! What every registry of limiters, and every tunnel, keeps to.

use vstd::prelude::*;

use crate::rate_limit::{
    after_check, after_wait, client_bytes, copy_action, copy_with_rate_limit, dest_bytes, get_or_create,
    new_registry, on_check, on_ready, quota, rate_limited_write, write_start,
    CheckOutcome, CopyAction, CopyEvent, CopyTotals, LimiterQuota, RateLimiterRegistry, RegistryView, WriteStart, WriteStep,
};

verus! {

// ---------------------------------------------------------------------
// Limiters
// ---------------------------------------------------------------------

/// An identity gets the same limiter every time, whatever it or others ask
/// for in between, and the quota of a limiter never changes.
pub proof fn law_limiter_is_kept(
    registry: RegistryView,
    identity: Seq<char>,
    other: Seq<char>,
    bytes_per_second: u32,
    burst_bytes: u32,
)
    requires
        registry.valid(),
        registry.limiters.contains_key(identity),
    ensures
        ({
            let later = registry.after_request(other, bytes_per_second, burst_bytes);
            let limiter = registry.limiters[identity];
            &&& later.limiters.contains_key(identity)
            &&& later.limiters[identity] == limiter
            &&& later.quotas[limiter as int] == registry.quotas[limiter as int]
        }),
{
}

/// Different identities have different limiters.
pub proof fn law_limiters_are_not_shared(
    registry: RegistryView,
    first: Seq<char>,
    second: Seq<char>,
    bytes_per_second: u32,
    burst_bytes: u32,
)
    requires
        registry.valid(),
        registry.quotas.len() < usize::MAX,
        first != second,
    ensures
        ({
            let later = registry.after_request(
                first,
                bytes_per_second,
                burst_bytes,
            ).after_request(second, bytes_per_second, burst_bytes);
            &&& later.valid()
            &&& later.limiters.contains_key(first)
            &&& later.limiters.contains_key(second)
            &&& later.limiters[first] != later.limiters[second]
        }),
{
    lemma_request_keeps_validity(registry, first, bytes_per_second, burst_bytes);
    lemma_request_keeps_validity(
        registry.after_request(first, bytes_per_second, burst_bytes),
        second,
        bytes_per_second,
        burst_bytes,
    );
}

proof fn lemma_request_keeps_validity(
    registry: RegistryView,
    identity: Seq<char>,
    bytes_per_second: u32,
    burst_bytes: u32,
)
    requires
        registry.valid(),
        registry.quotas.len() <= usize::MAX,
    ensures
        registry.after_request(identity, bytes_per_second, burst_bytes).valid(),
{
}

/// The first request of an identity decides its quota.
pub proof fn law_first_request_sets_quota(
    registry: RegistryView,
    identity: Seq<char>,
    bytes_per_second: u32,
    burst_bytes: u32,
)
    requires
        registry.valid(),
        registry.quotas.len() <= usize::MAX,
        !registry.limiters.contains_key(identity),
    ensures
        ({
            let later = registry.after_request(identity, bytes_per_second, burst_bytes);
            later.quotas[later.limiters[identity] as int] == quota(bytes_per_second, burst_bytes)
        }),
{
}

// ---------------------------------------------------------------------
// Writes
// ---------------------------------------------------------------------

/// The steps of a write, given what the bucket says at once and after a wait.
/// After a sleep comes the write.
pub open spec fn write_steps(len: int, outcome: CheckOutcome, ready: bool) -> Seq<WriteStep> {
    match write_start(len) {
        WriteStart::Skip => Seq::empty(),
        WriteStart::Check(cells) => match after_check(cells, outcome) {
            WriteStep::AwaitReady(n) => match after_wait(ready) {
                WriteStep::Sleep(millis) => seq![
                    WriteStep::AwaitReady(n),
                    WriteStep::Sleep(millis),
                    WriteStep::Write,
                ],
                _ => seq![WriteStep::AwaitReady(n), WriteStep::Write],
            },
            _ => seq![WriteStep::Write],
        },
    }
}

/// A chunk is written exactly once, and last; nothing is written for an empty
/// one. It is written at once only where the bucket gives a token for each of
/// its bytes, as far as they can be counted; otherwise the write waits for
/// them first, and for a second more where the bucket never holds that many.
pub proof fn law_write_waits_for_tokens(len: int, outcome: CheckOutcome, ready: bool)
    requires
        0 <= len,
    ensures
        ({
            let steps = write_steps(len, outcome, ready);
            let tokens = if len > u32::MAX {
                u32::MAX
            } else {
                len as u32
            };
            &&& steps.len() == 0 <==> len == 0
            &&& len > 0 ==> steps.last() == WriteStep::Write
            &&& forall|i: int|
                0 <= i < steps.len() - 1 ==> #[trigger] steps[i] != WriteStep::Write
            &&& len > 0 && outcome != CheckOutcome::Conforms ==> steps[0] == WriteStep::AwaitReady(
                tokens,
            )
            &&& len > 0 && outcome != CheckOutcome::Conforms && !ready ==> steps[1]
                == WriteStep::Sleep(1000)
            &&& len > 0 && outcome == CheckOutcome::Conforms ==> steps.len() == 1
        }),
{
}

// ---------------------------------------------------------------------
// Tunnels
// ---------------------------------------------------------------------

/// How many bytes a tunnel counts from its client and from its destination,
/// on the reads that happen before it stops.
pub open spec fn counted(events: Seq<CopyEvent>) -> (int, int)
    decreases events.len(),
{
    if events.len() == 0 || copy_action(events[0]) == CopyAction::Stop {
        (0, 0)
    } else {
        let (from_client, from_dest) = counted(events.drop_first());
        (from_client + client_bytes(events[0]), from_dest + dest_bytes(events[0]))
    }
}

/// All bytes that events brought from the client.
pub open spec fn sum_client(events: Seq<CopyEvent>) -> int
    decreases events.len(),
{
    if events.len() == 0 {
        0
    } else {
        client_bytes(events[0]) + sum_client(events.drop_first())
    }
}

/// All bytes that events brought from the destination.
pub open spec fn sum_dest(events: Seq<CopyEvent>) -> int
    decreases events.len(),
{
    if events.len() == 0 {
        0
    } else {
        dest_bytes(events[0]) + sum_dest(events.drop_first())
    }
}

/// Every byte that is read before the tunnel stops is counted, on the side
/// that it came from, and none after it.
pub proof fn law_every_byte_is_counted(before: Seq<CopyEvent>, stop: CopyEvent, after: Seq<CopyEvent>)
    requires
        forall|i: int|
            0 <= i < before.len() ==> copy_action(#[trigger] before[i]) != CopyAction::Stop,
        copy_action(stop) == CopyAction::Stop,
    ensures
        counted(before + seq![stop] + after) == (sum_client(before), sum_dest(before)),
    decreases before.len(),
{
    let events = before + seq![stop] + after;
    if before.len() == 0 {
        assert(events[0] == stop);
    } else {
        assert(events[0] == before[0]);
        assert(events.drop_first() == before.drop_first() + seq![stop] + after);
        law_every_byte_is_counted(before.drop_first(), stop, after);
    }
}

// ---------------------------------------------------------------------
// What is set up, step by step
// ---------------------------------------------------------------------

/// A quota is for the rate and the burst that were asked for, at least one
/// byte, and gives a token back in the whole nanoseconds that a second has for
/// each byte.
pub proof fn law_quota(bytes_per_second: u32, burst_bytes: u32)
    requires
        bytes_per_second > 0,
    ensures
        ({
            let q = quota(bytes_per_second, burst_bytes);
            &&& q.bytes_per_second == bytes_per_second
            &&& burst_bytes > 0 ==> q.burst == burst_bytes
            &&& burst_bytes == 0 ==> q.burst == 1
            &&& q.replenish_nanos * bytes_per_second <= 1_000_000_000
            &&& 1_000_000_000 < (q.replenish_nanos + 1) * bytes_per_second
        }),
{
    let b = bytes_per_second as int;
    let n = 1_000_000_000int / b;
    assert(n * b <= 1_000_000_000 && 1_000_000_000 < (n + 1) * b && 0 <= n <= 1_000_000_000)
        by (nonlinear_arith)
        requires
            b > 0,
            n == 1_000_000_000int / b,
    ;
}

/// A request adds a limiter for its identity, and only where that has none;
/// every other identity keeps its limiter, and every limiter its quota.
pub proof fn law_request_adds_at_most_its_limiter(
    registry: RegistryView,
    identity: Seq<char>,
    bytes_per_second: u32,
    burst_bytes: u32,
)
    requires
        registry.quotas.len() < usize::MAX,
    ensures
        ({
            let later = registry.after_request(identity, bytes_per_second, burst_bytes);
            &&& registry.limiters.contains_key(identity) ==> later == registry
            &&& later.limiters.contains_key(identity)
            &&& forall|other: Seq<char>|
                other != identity ==> (#[trigger] later.limiters.contains_key(other)
                    <==> registry.limiters.contains_key(other))
            &&& forall|other: Seq<char>|
                other != identity && registry.limiters.contains_key(other) ==> #[trigger]
                    later.limiters[other] == registry.limiters[other]
            &&& forall|i: int|
                0 <= i < registry.quotas.len() ==> #[trigger] later.quotas[i] == registry.quotas[i]
            &&& !registry.limiters.contains_key(identity) ==> later.limiters[identity]
                == registry.quotas.len() && later.quotas.len() == registry.quotas.len() + 1
        }),
{
}

/// Nothing is asked of the bucket for an empty write; otherwise a token for
/// each byte, as far as they can be counted.
pub proof fn law_write_asks_for_tokens(len: usize, r: WriteStart)
    requires
        call_ensures(rate_limited_write, (len,), r),
    ensures
        r == WriteStart::Skip <==> len == 0,
        0 < len <= u32::MAX ==> (r matches WriteStart::Check(n) && n == len),
        len > u32::MAX ==> r == WriteStart::Check(u32::MAX),
{
}

/// A write goes ahead exactly where the bucket gave its tokens, and waits for
/// as many otherwise.
pub proof fn law_write_goes_ahead_with_tokens(cells: u32, outcome: CheckOutcome, r: WriteStep)
    requires
        call_ensures(on_check, (cells, outcome), r),
    ensures
        r == WriteStep::Write <==> outcome == CheckOutcome::Conforms,
        outcome != CheckOutcome::Conforms ==> r == WriteStep::AwaitReady(cells),
{
}

/// After the wait a write goes ahead, or sleeps for a second where the bucket
/// never holds its tokens.
pub proof fn law_write_after_wait(cells: u32, ready: bool, r: WriteStep)
    requires
        call_ensures(on_ready, (cells, ready), r),
    ensures
        ready ==> r == WriteStep::Write,
        !ready ==> r == WriteStep::Sleep(1000),
{
}

/// The bytes of a read count for the side that it came from, and go to the
/// other one: within the limit to the destination, at once to the client. A
/// read of nothing ends the tunnel.
pub proof fn law_bytes_go_to_the_other_side(n: usize)
    ensures
        client_bytes(CopyEvent::Client(n)) == n && dest_bytes(CopyEvent::Client(n)) == 0,
        client_bytes(CopyEvent::Dest(n)) == 0 && dest_bytes(CopyEvent::Dest(n)) == n,
        copy_action(CopyEvent::Client(n)) == CopyAction::Stop <==> n == 0,
        copy_action(CopyEvent::Dest(n)) == CopyAction::Stop <==> n == 0,
        n > 0 ==> copy_action(CopyEvent::Client(n)) == CopyAction::LimitedToDest,
        n > 0 ==> copy_action(CopyEvent::Dest(n)) == CopyAction::ToClient,
{
}

/// The quota of a limiter is the one that it was set up with.
pub proof fn law_quota_is_found(
    registry: RateLimiterRegistry,
    limiter: usize,
    r: Option<LimiterQuota>,
)
    requires
        call_ensures(RateLimiterRegistry::quota, (&registry, limiter), r),
    ensures
        r is Some <==> limiter < registry@.quotas.len(),
        r matches Some(q) ==> q == registry@.quotas[limiter as int],
{
}

/// A new registry holds nothing.
pub proof fn law_registry_starts_empty(registry: RateLimiterRegistry)
    requires
        call_ensures(new_registry, (), registry),
    ensures
        forall|identity: Seq<char>| !#[trigger] registry@.limiters.contains_key(identity),
        registry@.quotas.len() == 0,
{
}

/// An identity that has a limiter gets that limiter, and nothing changes. Any
/// other identity gets a new one, for the rate and the burst that it asks for,
/// and nothing else changes.
pub proof fn law_limiter_of_identity(
    registry: &mut RateLimiterRegistry,
    identity: &str,
    bytes_per_second: u32,
    burst_bytes: u32,
    r: usize,
)
    requires
        call_ensures(get_or_create, (registry, identity, bytes_per_second, burst_bytes), r),
        old(registry)@.quotas.len() < usize::MAX,
        bytes_per_second > 0,
    ensures
        old(registry)@.limiters.contains_key(identity@) ==> r == old(
            registry,
        )@.limiters[identity@] && final(registry)@ == old(registry)@,
        !old(registry)@.limiters.contains_key(identity@) ==> {
            &&& r == old(registry)@.quotas.len()
            &&& final(registry)@.limiters == old(registry)@.limiters.insert(identity@, r)
            &&& final(registry)@.quotas.len() == old(registry)@.quotas.len() + 1
            &&& forall|i: int|
                0 <= i < old(registry)@.quotas.len() ==> #[trigger] final(registry)@.quotas[i]
                    == old(registry)@.quotas[i]
            &&& final(registry)@.quotas[r as int].bytes_per_second == bytes_per_second
            &&& final(registry)@.quotas[r as int].burst == (if burst_bytes == 0 {
                1u32
            } else {
                burst_bytes
            })
        },
{
}

/// A read is counted on the side that it came from, and nowhere else; its
/// bytes go to the other side.
pub proof fn law_read_is_counted(totals: &mut CopyTotals, event: CopyEvent, r: CopyAction)
    requires
        call_ensures(copy_with_rate_limit, (totals, event), r),
    ensures
        match event {
            CopyEvent::Client(n) => {
                &&& final(totals).from_client == old(totals).from_client + n
                &&& final(totals).from_dest == old(totals).from_dest
                &&& r == (if n == 0 {
                    CopyAction::Stop
                } else {
                    CopyAction::LimitedToDest
                })
            },
            CopyEvent::Dest(n) => {
                &&& final(totals).from_client == old(totals).from_client
                &&& final(totals).from_dest == old(totals).from_dest + n
                &&& r == (if n == 0 {
                    CopyAction::Stop
                } else {
                    CopyAction::ToClient
                })
            },
        },
{
}

} // verus!
