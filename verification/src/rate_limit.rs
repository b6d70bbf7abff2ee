//! Byte rate limits per identity.
//!
//! Each identity has a token bucket of its own. The buckets themselves, which
//! need a clock, are the caller's; this module says which bucket an identity
//! has, how it is set up, when a write has to wait, and what is counted.

use vstd::prelude::*;

use dashmap::DashMap;
use std::collections::hash_map::RandomState;
use std::num::NonZeroU32;

verus! {

// ---------------------------------------------------------------------
// The map of limiters
// ---------------------------------------------------------------------

/// `dashmap::DashMap`.
#[verifier::external_type_specification]
#[verifier::external_body]
#[verifier::reject_recursive_types(K)]
#[verifier::reject_recursive_types(V)]
#[verifier::reject_recursive_types(S)]
pub struct ExDashMap<K, V, S>(dashmap::DashMap<K, V, S>);

/// The number of the limiter that the map holds for each identity.
pub uninterp spec fn map_entries(map: DashMap<String, usize, RandomState>) -> Map<Seq<char>, usize>;

/// No limiters at all.
pub open spec fn no_entries() -> Map<Seq<char>, usize> {
    Map::empty()
}

/// `dashmap::DashMap::new`.
///
/// Trusted: the map is empty.
#[verifier::external_body]
fn new_map() -> (r: DashMap<String, usize, RandomState>)
    ensures
        map_entries(r) == no_entries(),
{
    DashMap::new()
}

/// `dashmap::DashMap::get`.
///
/// Trusted: the value is the one that the map holds for the key, if it holds
/// one.
#[verifier::external_body]
fn map_get(map: &DashMap<String, usize, RandomState>, identity: &str) -> (r: Option<usize>)
    ensures
        match r {
            Some(id) => map_entries(*map).contains_key(identity@) && map_entries(*map)[identity@]
                == id,
            None => !map_entries(*map).contains_key(identity@),
        },
{
    map.get(identity).map(|entry| *entry.value())
}

/// `dashmap::DashMap::insert`.
///
/// Trusted: the map then holds the value for the key, and is otherwise as it
/// was.
#[verifier::external_body]
fn map_insert(map: &mut DashMap<String, usize, RandomState>, identity: String, id: usize)
    ensures
        map_entries(*final(map)) == map_entries(*old(map)).insert(identity@, id),
{
    map.insert(identity, id);
}

// ---------------------------------------------------------------------
// Quotas
// ---------------------------------------------------------------------

/// How a token bucket is set up.
#[derive(Clone, Copy, Debug, PartialEq, Eq, Structural)]
pub struct LimiterQuota {
    /// The bytes per second that it was set up for.
    pub bytes_per_second: u32,
    /// The size of the bucket.
    pub burst: u32,
    /// The nanoseconds in which a token comes back.
    pub replenish_nanos: u64,
}

/// The quota for a rate and a burst. A burst of nothing is a burst of one
/// byte.
pub open spec fn quota(bytes_per_second: u32, burst_bytes: u32) -> LimiterQuota {
    LimiterQuota {
        bytes_per_second,
        burst: if burst_bytes == 0 {
            1
        } else {
            burst_bytes
        },
        replenish_nanos: (1_000_000_000int / bytes_per_second as int) as u64,
    }
}

/// `governor::Quota::per_second`, then `Quota::allow_burst`, and what
/// `burst_size` and `replenish_interval` say of the quota.
///
/// Trusted: the bucket has the size of the burst, and a token comes back in
/// the whole nanoseconds that a second has for each byte.
#[verifier::external_body]
fn governor_quota(bytes_per_second: u32, burst: u32) -> (r: LimiterQuota)
    requires
        bytes_per_second > 0,
        burst > 0,
    ensures
        r.bytes_per_second == bytes_per_second,
        r.burst == burst,
        r.replenish_nanos == 1_000_000_000int / bytes_per_second as int,
{
    let rate = NonZeroU32::new(bytes_per_second).expect("bytes_per_second must be > 0");
    let size = NonZeroU32::new(burst).expect("burst must be > 0");
    let quota = governor::Quota::per_second(rate).allow_burst(size);
    LimiterQuota {
        bytes_per_second,
        burst: quota.burst_size().get(),
        replenish_nanos: quota.replenish_interval().as_nanos() as u64,
    }
}

// ---------------------------------------------------------------------
// The registry
// ---------------------------------------------------------------------

/// The limiters of all identities. A limiter is known by its number.
pub struct RateLimiterRegistry {
    limiters: DashMap<String, usize, RandomState>,
    quotas: Vec<LimiterQuota>,
}

/// The content of a [`RateLimiterRegistry`].
#[verifier::ext_equal]
pub struct RegistryView {
    /// The limiter of each identity.
    pub limiters: Map<Seq<char>, usize>,
    /// The quota of each limiter.
    pub quotas: Seq<LimiterQuota>,
}

impl View for RateLimiterRegistry {
    type V = RegistryView;

    closed spec fn view(&self) -> RegistryView {
        RegistryView { limiters: map_entries(self.limiters), quotas: self.quotas@ }
    }
}

impl RegistryView {
    /// Whether every identity has a limiter that exists, and that no other
    /// identity has.
    pub open spec fn valid(self) -> bool {
        &&& forall|a: Seq<char>| #[trigger]
            self.limiters.contains_key(a) ==> self.limiters[a] < self.quotas.len()
        &&& forall|a: Seq<char>, b: Seq<char>|
            #![trigger self.limiters[a], self.limiters[b]]
            self.limiters.contains_key(a) && self.limiters.contains_key(b) && a != b
                ==> self.limiters[a] != self.limiters[b]
    }

    /// The registry after an identity asked for its limiter: a limiter is
    /// made the first time only.
    pub open spec fn after_request(
        self,
        identity: Seq<char>,
        bytes_per_second: u32,
        burst_bytes: u32,
    ) -> RegistryView {
        if self.limiters.contains_key(identity) {
            self
        } else {
            RegistryView {
                limiters: self.limiters.insert(identity, self.quotas.len() as usize),
                quotas: self.quotas.push(quota(bytes_per_second, burst_bytes)),
            }
        }
    }
}

/// A registry without limiters.
pub fn new_registry() -> (r: RateLimiterRegistry)
    ensures
        r@.valid(),
        r@.limiters == no_entries(),
        r@.quotas == Seq::<LimiterQuota>::empty(),
{
    RateLimiterRegistry { limiters: new_map(), quotas: Vec::new() }
}

/// The limiter of an identity, which is made the first time. A rate of zero is
/// no rate at all: who wants no limit does not ask for a limiter.
pub fn get_or_create(
    registry: &mut RateLimiterRegistry,
    identity: &str,
    bytes_per_second: u32,
    burst_bytes: u32,
) -> (r: usize)
    requires
        old(registry)@.valid(),
        bytes_per_second > 0,
    ensures
        final(registry)@ == old(registry)@.after_request(identity@, bytes_per_second, burst_bytes),
        final(registry)@.valid(),
        final(registry)@.limiters.contains_key(identity@),
        r == final(registry)@.limiters[identity@],
{
    match map_get(&registry.limiters, identity) {
        Some(id) => return id,
        None => {},
    }
    let burst: u32 = if burst_bytes == 0 {
        1
    } else {
        burst_bytes
    };
    let quota = governor_quota(bytes_per_second, burst);
    let id: usize = registry.quotas.len();
    registry.quotas.push(quota);
    map_insert(&mut registry.limiters, identity.to_owned(), id);
    id
}

impl RateLimiterRegistry {
    /// The quota of a limiter, if there is such a limiter.
    pub fn quota(&self, limiter: usize) -> (r: Option<LimiterQuota>)
        ensures
            r == (if limiter < self@.quotas.len() {
                Some(self@.quotas[limiter as int])
            } else {
                None
            }),
    {
        if limiter < self.quotas.len() {
            Some(self.quotas[limiter])
        } else {
            None
        }
    }
}

// ---------------------------------------------------------------------
// Writes
// ---------------------------------------------------------------------

/// How a limited write starts.
#[derive(Clone, Copy, Debug, PartialEq, Eq, Structural)]
pub enum WriteStart {
    /// There is nothing to write.
    Skip,
    /// The bucket is asked for this many tokens.
    Check(u32),
}

/// What the bucket said.
#[derive(Clone, Copy, Debug, PartialEq, Eq, Structural)]
pub enum CheckOutcome {
    /// It gave the tokens.
    Conforms,
    /// It will have the tokens later.
    NotYet,
    /// It never holds that many.
    InsufficientCapacity,
}

/// What a limited write does next.
#[derive(Clone, Copy, Debug, PartialEq, Eq, Structural)]
pub enum WriteStep {
    /// It writes.
    Write,
    /// It waits until the bucket has this many tokens.
    AwaitReady(u32),
    /// It sleeps for this many milliseconds, then writes.
    Sleep(u64),
}

/// How a write of `len` bytes starts: each byte takes a token, as far as they
/// can be counted.
pub open spec fn write_start(len: int) -> WriteStart {
    if len == 0 {
        WriteStart::Skip
    } else if len > u32::MAX {
        WriteStart::Check(u32::MAX)
    } else {
        WriteStart::Check(len as u32)
    }
}

/// What follows the first answer of the bucket: without the tokens the write
/// waits for them.
pub open spec fn after_check(cells: u32, outcome: CheckOutcome) -> WriteStep {
    if outcome == CheckOutcome::Conforms {
        WriteStep::Write
    } else {
        WriteStep::AwaitReady(cells)
    }
}

/// What follows the wait: where the bucket never holds that many tokens, the
/// write sleeps for a second.
pub open spec fn after_wait(ready: bool) -> WriteStep {
    if ready {
        WriteStep::Write
    } else {
        WriteStep::Sleep(1000)
    }
}

/// Starts a write of `len` bytes.
pub fn rate_limited_write(len: usize) -> (r: WriteStart)
    ensures
        r == write_start(len as int),
{
    if len == 0 {
        WriteStart::Skip
    } else if len > u32::MAX as usize {
        WriteStart::Check(u32::MAX)
    } else {
        WriteStart::Check(len as u32)
    }
}

/// Takes what the bucket said.
pub fn on_check(cells: u32, outcome: CheckOutcome) -> (r: WriteStep)
    ensures
        r == after_check(cells, outcome),
{
    match outcome {
        CheckOutcome::Conforms => WriteStep::Write,
        _ => WriteStep::AwaitReady(cells),
    }
}

/// Takes whether the bucket came to have the tokens.
pub fn on_ready(cells: u32, ready: bool) -> (r: WriteStep)
    requires
        cells > 0,
    ensures
        r == after_wait(ready),
{
    if ready {
        WriteStep::Write
    } else {
        assert(cells * 1000 / cells as int == 1000) by (nonlinear_arith)
            requires
                cells > 0,
        ;
        WriteStep::Sleep(cells as u64 * 1000 / cells as u64)
    }
}

// ---------------------------------------------------------------------
// Copying
// ---------------------------------------------------------------------

/// How many bytes were read from either side.
#[derive(Clone, Copy, Debug, PartialEq, Eq, Structural)]
pub struct CopyTotals {
    pub from_client: u64,
    pub from_dest: u64,
}

/// A read from one side: how many bytes came, or none at its end.
#[derive(Clone, Copy, Debug, PartialEq, Eq, Structural)]
pub enum CopyEvent {
    Client(usize),
    Dest(usize),
}

/// What becomes of the bytes that were read.
#[derive(Clone, Copy, Debug, PartialEq, Eq, Structural)]
pub enum CopyAction {
    /// One side has ended, and copying with it.
    Stop,
    /// They go to the destination, within the limit.
    LimitedToDest,
    /// They go to the client.
    ToClient,
}

/// How many bytes came from the client.
pub open spec fn client_bytes(event: CopyEvent) -> int {
    match event {
        CopyEvent::Client(n) => n as int,
        CopyEvent::Dest(_) => 0,
    }
}

/// How many bytes came from the destination.
pub open spec fn dest_bytes(event: CopyEvent) -> int {
    match event {
        CopyEvent::Client(_) => 0,
        CopyEvent::Dest(n) => n as int,
    }
}

/// What becomes of the bytes of a read. Only what goes out is limited.
pub open spec fn copy_action(event: CopyEvent) -> CopyAction {
    match event {
        CopyEvent::Client(n) => if n == 0 {
            CopyAction::Stop
        } else {
            CopyAction::LimitedToDest
        },
        CopyEvent::Dest(n) => if n == 0 {
            CopyAction::Stop
        } else {
            CopyAction::ToClient
        },
    }
}

/// Takes a read: counts its bytes and says where they go.
pub fn copy_with_rate_limit(totals: &mut CopyTotals, event: CopyEvent) -> (r: CopyAction)
    requires
        old(totals).from_client + client_bytes(event) <= u64::MAX,
        old(totals).from_dest + dest_bytes(event) <= u64::MAX,
    ensures
        r == copy_action(event),
        final(totals).from_client == old(totals).from_client + client_bytes(event),
        final(totals).from_dest == old(totals).from_dest + dest_bytes(event),
{
    match event {
        CopyEvent::Client(n) => {
            if n == 0 {
                return CopyAction::Stop;
            }
            totals.from_client = totals.from_client + n as u64;
            CopyAction::LimitedToDest
        },
        CopyEvent::Dest(n) => {
            if n == 0 {
                return CopyAction::Stop;
            }
            totals.from_dest = totals.from_dest + n as u64;
            CopyAction::ToClient
        },
    }
}

} // verus!
