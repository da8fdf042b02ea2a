//! The dispatcher's bookkeeping of running function instances: which
//! instance may take a request, how many requests each one serves, and
//! which ones are to be stopped.
//!
//! Each instance admits at most `max_users` concurrent requests; a request
//! holds one of its permits from the moment it is routed to the instance
//! until its response has been sent. A single-use instance is closed after
//! its first permit, so it never takes another request, and is stopped once
//! that request is done; any other idle instance is stopped when its
//! keepalive has run out since its last request ended.
//!
//! Starting a new instance for a request is a sequence of outside steps
//! (loading the configuration, leasing an interface, booting, waiting for
//! the callback); `start_step` decides after each one what comes next.

use vstd::prelude::*;

use crate::ipv4::{ipv4_text, ipv4_to_string};
use crate::registry::config::FunctionConfig;
use crate::text::{decimal, push_char};

verus! {

/// Largest number of permits an instance may have (tokio's semaphore limit).
pub const MAX_PERMITS: usize = usize::MAX >> 3;

/// Lifecycle of an instance.
#[allow(non_camel_case_types)]
#[derive(Clone, Copy, PartialEq, Eq, Structural, Debug)]
pub enum InstanceState {
    /// Started, has not yet called back.
    BOOTING,
    /// Called back; takes requests.
    READY,
    /// Did not call back in time; to be stopped.
    ERROR,
}

/// A running instance of a function and its admission state.
#[derive(Debug)]
pub struct FunctionInstance<T> {
    /// Function the instance runs.
    pub function_name: String,
    /// Unique id of the instance.
    pub instance_id: String,
    /// The machine or container itself.
    pub instance: T,
    /// Address at which the instance serves requests.
    pub ip: u32,
    pub state: InstanceState,
    /// Permits not handed out.
    pub permits: usize,
    /// No permit is handed out any more (single-use instance).
    pub closed: bool,
    /// Concurrent requests the instance admits.
    pub max_users: usize,
    /// How long an idle instance is kept, in seconds.
    pub keepalive_secs: u64,
    /// When the instance was last handed a request, in milliseconds.
    pub last_used_ms: u64,
}

/// What a request routed to an instance needs to reach it.
#[derive(Debug)]
pub struct InstanceHandle {
    pub instance_id: String,
    pub ip: u32,
}

/// The instance serves no request.
pub open spec fn is_idle<T>(e: FunctionInstance<T>) -> bool {
    e.permits >= e.max_users
}

/// The keepalive of the instance ran out before `now`.
pub open spec fn is_expired<T>(e: FunctionInstance<T>, now_ms: u64) -> bool {
    e.last_used_ms + e.keepalive_secs * 1000 < now_ms
}

/// The instance is to be stopped: it serves no request, and it is broken,
/// it is single-use (so it has served its request), its keepalive ran out,
/// or the dispatcher shuts down.
pub open spec fn is_reapable<T>(e: FunctionInstance<T>, now_ms: u64, shutdown: bool) -> bool {
    is_idle(e) && (e.state == InstanceState::ERROR || e.closed || is_expired(e, now_ms) || shutdown)
}

/// Instances that a reap at `now_ms` keeps.
pub open spec fn kept_by_reap<T>(now_ms: u64, shutdown: bool) -> spec_fn(FunctionInstance<T>) -> bool {
    |e: FunctionInstance<T>| !is_reapable(e, now_ms, shutdown)
}

/// Instances that a reap at `now_ms` stops.
pub open spec fn stopped_by_reap<T>(now_ms: u64, shutdown: bool) -> spec_fn(FunctionInstance<T>) -> bool {
    |e: FunctionInstance<T>| is_reapable(e, now_ms, shutdown)
}

/// The instance can take a request for function `name` now.
pub open spec fn is_available_for<T>(e: FunctionInstance<T>, name: Seq<char>) -> bool {
    e.function_name@ == name && e.state == InstanceState::READY && !e.closed && e.permits > 0
}

/// The instance after handing out one permit at time `now_ms`.
pub open spec fn acquired<T>(e: FunctionInstance<T>, now_ms: u64) -> FunctionInstance<T> {
    FunctionInstance { permits: (e.permits - 1) as usize, last_used_ms: now_ms, ..e }
}

/// The instance after one permit came back at `now_ms`: its keepalive runs
/// from the end of its last request.
pub open spec fn released<T>(e: FunctionInstance<T>, now_ms: u64) -> FunctionInstance<T> {
    if e.permits < e.max_users {
        FunctionInstance { permits: (e.permits + 1) as usize, last_used_ms: now_ms, ..e }
    } else {
        FunctionInstance { last_used_ms: now_ms, ..e }
    }
}

/// Index of the first instance with the given id.
pub open spec fn first_with_id<T>(s: Seq<FunctionInstance<T>>, id: Seq<char>, k: int) -> bool {
    &&& 0 <= k < s.len()
    &&& s[k].instance_id@ == id
    &&& forall|j: int| 0 <= j < k ==> s[j].instance_id@ != id
}

/// The instances currently known to the dispatcher, in the order in which
/// they were started.
#[derive(Debug)]
pub struct InstanceTable<T> {
    entries: Vec<FunctionInstance<T>>,
}

impl<T> View for InstanceTable<T> {
    type V = Seq<FunctionInstance<T>>;

    closed spec fn view(&self) -> Seq<FunctionInstance<T>> {
        self.entries@
    }
}

/// Every instance has no more free permits than it admits users.
pub open spec fn table_wf<T>(s: Seq<FunctionInstance<T>>) -> bool {
    forall|k: int| 0 <= k < s.len() ==> #[trigger] s[k].permits <= s[k].max_users
}

proof fn lemma_filter_keeps_wf<T>(s: Seq<FunctionInstance<T>>, p: spec_fn(FunctionInstance<T>) -> bool)
    requires
        table_wf(s),
    ensures
        table_wf(s.filter(p)),
{
    broadcast use vstd::seq_lib::group_filter_ensures;
    assert forall|k: int| 0 <= k < s.filter(p).len() implies #[trigger] s.filter(p)[k].permits
        <= s.filter(p)[k].max_users by {
        assert(s.filter(p).contains(s.filter(p)[k]));
        s.lemma_filter_contains_rev(p, s.filter(p)[k]);
    }
}

proof fn lemma_filter_take_step<A>(s: Seq<A>, p: spec_fn(A) -> bool, i: int)
    requires
        0 <= i < s.len(),
    ensures
        s.take(i + 1).filter(p) == if p(s[i]) {
            s.take(i).filter(p).push(s[i])
        } else {
            s.take(i).filter(p)
        },
{
    reveal(Seq::filter);
    assert(s.take(i + 1).drop_last() =~= s.take(i));
    assert(s.take(i + 1).last() == s[i]);
}

impl<T> InstanceTable<T> {
    /// An empty table.
    pub fn new() -> (t: Self)
        ensures
            t@ == Seq::<FunctionInstance<T>>::empty(),
    {
        InstanceTable { entries: Vec::new() }
    }

    /// Number of instances.
    pub fn len(&self) -> (n: usize)
        ensures
            n == self@.len(),
    {
        self.entries.len()
    }

    /// Whether there are no instances.
    pub fn is_empty(&self) -> (b: bool)
        ensures
            b == (self@.len() == 0),
    {
        self.entries.len() == 0
    }

    /// The `i`-th instance, in start order.
    pub fn get(&self, i: usize) -> (e: &FunctionInstance<T>)
        requires
            i < self@.len(),
        ensures
            *e == self@[i as int],
    {
        &self.entries[i]
    }

    /// Hands a request for `function_name` to the first instance, in start
    /// order, that is ready, not closed and has a free permit; takes one
    /// of its permits and records `now_ms` as its last use. Nothing, and
    /// no change, when no instance can take it.
    pub fn get_available_instance(&mut self, function_name: &str, now_ms: u64) -> (r: Option<
        InstanceHandle,
    >)
        ensures
            table_wf(old(self)@) ==> table_wf(final(self)@),
            r is None ==> final(self)@ == old(self)@ && forall|k: int|
                0 <= k < old(self)@.len() ==> !is_available_for(
                    #[trigger] old(self)@[k],
                    function_name@,
                ),
            r matches Some(h) ==> exists|k: int|
                {
                    &&& 0 <= k < old(self)@.len()
                    &&& is_available_for(old(self)@[k], function_name@)
                    &&& forall|j: int|
                        0 <= j < k ==> !is_available_for(#[trigger] old(self)@[j], function_name@)
                    &&& h.instance_id@ == old(self)@[k].instance_id@
                    &&& h.ip == old(self)@[k].ip
                    &&& final(self)@ == old(self)@.update(k, acquired(old(self)@[k], now_ms))
                },
    {
        let name = function_name.to_owned();
        let mut i: usize = 0;
        while i < self.entries.len()
            invariant
                self.entries@ == old(self)@,
                name@ == function_name@,
                i <= self.entries.len(),
                forall|j: int| 0 <= j < i ==> !is_available_for(#[trigger] self.entries@[j], name@),
            decreases self.entries.len() - i,
        {
            let e = &self.entries[i];
            if e.function_name == name && e.state == InstanceState::READY && !e.closed
                && e.permits > 0 {
                let h = InstanceHandle { instance_id: e.instance_id.clone(), ip: e.ip };
                let p = e.permits - 1;
                self.entries[i].permits = p;
                self.entries[i].last_used_ms = now_ms;
                assert(self.entries@ =~= old(self)@.update(
                    i as int,
                    acquired(old(self)@[i as int], now_ms),
                ));
                return Some(h);
            }
            i += 1;
        }
        None
    }

    /// Records a freshly started instance. Its first permit is taken for
    /// the request that started it, at `now_ms`; a single-use instance is
    /// closed right away. Gives the handle for that first request.
    pub fn add_booting(
        &mut self,
        function_name: String,
        instance_id: String,
        instance: T,
        ip: u32,
        config: &FunctionConfig,
        now_ms: u64,
    ) -> (h: InstanceHandle)
        requires
            1 <= config.concurrent_requests <= MAX_PERMITS,
        ensures
            table_wf(old(self)@) ==> table_wf(final(self)@),
            h.instance_id@ == instance_id@,
            h.ip == ip,
            final(self)@ == old(self)@.push(
                FunctionInstance {
                    function_name,
                    instance_id,
                    instance,
                    ip,
                    state: InstanceState::BOOTING,
                    permits: (config.concurrent_requests - 1) as usize,
                    closed: config.single_use,
                    max_users: config.concurrent_requests,
                    keepalive_secs: config.keepalive,
                    last_used_ms: now_ms,
                },
            ),
    {
        let h = InstanceHandle { instance_id: instance_id.clone(), ip };
        let e = FunctionInstance {
            function_name,
            instance_id,
            instance,
            ip,
            state: InstanceState::BOOTING,
            permits: config.concurrent_requests - 1,
            closed: config.single_use,
            max_users: config.concurrent_requests,
            keepalive_secs: config.keepalive,
            last_used_ms: now_ms,
        };
        self.entries.push(e);
        h
    }

    fn position(&self, instance_id: &str) -> (r: Option<usize>)
        ensures
            r is None ==> forall|j: int|
                0 <= j < self@.len() ==> (#[trigger] self@[j]).instance_id@ != instance_id@,
            r matches Some(k) ==> first_with_id(self@, instance_id@, k as int),
    {
        let id = instance_id.to_owned();
        let mut i: usize = 0;
        while i < self.entries.len()
            invariant
                id@ == instance_id@,
                i <= self.entries.len(),
                forall|j: int| 0 <= j < i ==> (#[trigger] self.entries@[j]).instance_id@ != id@,
            decreases self.entries.len() - i,
        {
            if self.entries[i].instance_id == id {
                return Some(i);
            }
            i += 1;
        }
        None
    }

    /// Sets the state of the first instance with the given id; false, and
    /// no change, when there is none.
    pub fn set_state(&mut self, instance_id: &str, state: InstanceState) -> (found: bool)
        ensures
            found == exists|k: int| first_with_id(old(self)@, instance_id@, k),
            table_wf(old(self)@) ==> table_wf(final(self)@),
            !found ==> final(self)@ == old(self)@,
            forall|k: int|
                first_with_id(old(self)@, instance_id@, k) ==> final(self)@ == old(self)@.update(
                    k,
                    FunctionInstance { state, ..old(self)@[k] },
                ),
    {
        match self.position(instance_id) {
            None => false,
            Some(k) => {
                self.entries[k].state = state;
                assert(self.entries@ =~= old(self)@.update(
                    k as int,
                    FunctionInstance { state, ..old(self)@[k as int] },
                ));
                true
            },
        }
    }

    /// Whether an instance with the given id is known.
    pub fn contains_id(&self, instance_id: &str) -> (b: bool)
        ensures
            b == exists|k: int| first_with_id(self@, instance_id@, k),
    {
        self.position(instance_id).is_some()
    }

    /// Settles a booted instance: ready when it called back in time, broken
    /// otherwise.
    pub fn finish_boot(&mut self, instance_id: &str, called_back: bool)
        requires
            exists|k: int| first_with_id(old(self)@, instance_id@, k),
        ensures
            table_wf(old(self)@) ==> table_wf(final(self)@),
            forall|k: int|
                first_with_id(old(self)@, instance_id@, k) ==> final(self)@ == old(self)@.update(
                    k,
                    FunctionInstance {
                        state: if called_back {
                            InstanceState::READY
                        } else {
                            InstanceState::ERROR
                        },
                        ..old(self)@[k]
                    },
                ),
    {
        if called_back {
            self.set_state(instance_id, InstanceState::READY);
        } else {
            self.set_state(instance_id, InstanceState::ERROR);
        }
    }

    /// Gives back the permit that a request held on the first instance with
    /// the given id, when it finished at `now_ms`; false, and no change,
    /// when there is none.
    pub fn release_permit(&mut self, instance_id: &str, now_ms: u64) -> (found: bool)
        ensures
            found == exists|k: int| first_with_id(old(self)@, instance_id@, k),
            table_wf(old(self)@) ==> table_wf(final(self)@),
            !found ==> final(self)@ == old(self)@,
            forall|k: int|
                first_with_id(old(self)@, instance_id@, k) ==> final(self)@ == old(self)@.update(
                    k,
                    released(old(self)@[k], now_ms),
                ),
    {
        match self.position(instance_id) {
            None => false,
            Some(k) => {
                if self.entries[k].permits < self.entries[k].max_users {
                    let p = self.entries[k].permits + 1;
                    self.entries[k].permits = p;
                }
                self.entries[k].last_used_ms = now_ms;
                assert(self.entries@ =~= old(self)@.update(
                    k as int,
                    released(old(self)@[k as int], now_ms),
                ));
                true
            },
        }
    }

    /// Takes out every instance that is to be stopped (see `is_reapable`),
    /// keeping the others in their order, and gives the stopped ones back in
    /// their order.
    pub fn reap(&mut self, now_ms: u64, shutdown: bool) -> (removed: Vec<T>)
        ensures
            final(self)@ == old(self)@.filter(kept_by_reap(now_ms, shutdown)),
            table_wf(old(self)@) ==> table_wf(final(self)@),
            removed@ == old(self)@.filter(stopped_by_reap(now_ms, shutdown)).map_values(
                |e: FunctionInstance<T>| e.instance,
            ),
    {
        let ghost keep = kept_by_reap::<T>(now_ms, shutdown);
        let ghost drop = stopped_by_reap::<T>(now_ms, shutdown);
        let ghost orig = self.entries@;
        let mut rest: Vec<FunctionInstance<T>> = Vec::new();
        std::mem::swap(&mut rest, &mut self.entries);
        let mut kept: Vec<FunctionInstance<T>> = Vec::new();
        let mut removed: Vec<T> = Vec::new();
        let ghost mut i: int = 0;
        proof {
            reveal(Seq::filter);
            assert(orig.take(0) =~= Seq::<FunctionInstance<T>>::empty());
            assert(orig.skip(0) =~= orig);
        }
        while rest.len() > 0
            invariant
                0 <= i <= orig.len(),
                keep == kept_by_reap::<T>(now_ms, shutdown),
                drop == stopped_by_reap::<T>(now_ms, shutdown),
                rest@ == orig.skip(i),
                kept@ == orig.take(i).filter(keep),
                removed@ == orig.take(i).filter(drop).map_values(|e: FunctionInstance<T>| e.instance),
            decreases rest.len(),
        {
            let e = rest.remove(0);
            proof {
                assert(e == orig[i]);
                lemma_filter_take_step(orig, keep, i);
                lemma_filter_take_step(orig, drop, i);
                assert(orig.skip(i + 1) =~= orig.skip(i).drop_first());
            }
            let idle = e.permits >= e.max_users;
            let expired = (e.last_used_ms as u128) + (e.keepalive_secs as u128) * 1000 < (
            now_ms as u128);
            let is_error = e.state == InstanceState::ERROR;
            let stop = idle && (is_error || e.closed || expired || shutdown);
            assert(drop(orig[i]) == stop);
            assert(keep(orig[i]) == !stop);
            if stop {
                let ghost before = removed@;
                removed.push(e.instance);
                proof {
                    assert(orig.take(i).filter(drop).push(orig[i]).map_values(
                        |e: FunctionInstance<T>| e.instance,
                    ) =~= before.push(orig[i].instance));
                }
            } else {
                kept.push(e);
            }
            proof {
                i = i + 1;
            }
        }
        proof {
            assert(orig.take(i) =~= orig);
            if table_wf(orig) {
                lemma_filter_keeps_wf(orig, keep);
            }
        }
        self.entries = kept;
        removed
    }
}

/// How far the start of a new instance for a request has come.
#[derive(Clone, Copy, PartialEq, Eq, Structural, Debug)]
pub enum StartStage {
    /// Loading the function's configuration from the registry.
    LoadConfig,
    /// Waiting for a network lease.
    AllocateLease,
    /// Starting the machine or container.
    Boot,
    /// Waiting for the instance to call back.
    AwaitReady,
    /// The request has been answered or handed to the instance.
    Done,
}

/// What came of the last step of a start.
#[derive(Debug)]
pub enum StartEvent {
    /// The configuration was loaded; whether the instance needs a lease.
    ConfigLoaded(bool),
    ConfigFailed(String),
    LeaseGranted,
    /// No lease could be had.
    LeaseRefused,
    Booted,
    BootFailed(String),
    /// The instance called back in time.
    CalledBack,
    /// The instance did not call back in time.
    TimedOut,
}

/// What to do next.
#[derive(Debug)]
pub enum StartAction {
    AllocateLease,
    Boot,
    AwaitReady,
    /// Mark the instance ready and forward the request to it.
    Forward,
    /// Answer the request with this error (and, after a boot, mark the
    /// instance broken).
    Fail(String),
    /// The event does not belong to this stage; nothing to do.
    Ignore,
}

/// The stage after `e` at stage `s`.
pub open spec fn next_stage(s: StartStage, e: StartEvent) -> StartStage {
    match (s, e) {
        (StartStage::LoadConfig, StartEvent::ConfigLoaded(true)) => StartStage::AllocateLease,
        (StartStage::LoadConfig, StartEvent::ConfigLoaded(false)) => StartStage::Boot,
        (StartStage::LoadConfig, StartEvent::ConfigFailed(_)) => StartStage::Done,
        (StartStage::AllocateLease, StartEvent::LeaseGranted) => StartStage::Boot,
        (StartStage::AllocateLease, StartEvent::LeaseRefused) => StartStage::Done,
        (StartStage::Boot, StartEvent::Booted) => StartStage::AwaitReady,
        (StartStage::Boot, StartEvent::BootFailed(_)) => StartStage::Done,
        (StartStage::AwaitReady, StartEvent::CalledBack) => StartStage::Done,
        (StartStage::AwaitReady, StartEvent::TimedOut) => StartStage::Done,
        _ => s,
    }
}

/// The request gets its answer (an error or the forwarded response) when
/// `e` happens at stage `s`.
pub open spec fn answers_at(s: StartStage, e: StartEvent) -> bool {
    s != StartStage::Done && next_stage(s, e) == StartStage::Done
}

/// The action answers the request.
pub open spec fn is_answer(a: StartAction) -> bool {
    a is Forward || a is Fail
}

/// One step of starting an instance for a request: the next stage and what
/// to do. Registry and boot errors are passed on as they are; a missing
/// lease fails with "Network allocation error", a missing callback with
/// "Ready callback timeout".
pub fn start_step(s: StartStage, e: StartEvent) -> (r: (StartStage, StartAction))
    ensures
        r.0 == next_stage(s, e),
        is_answer(r.1) == answers_at(s, e),
        r.1 is Ignore <==> next_stage(s, e) == s,
        (s, e) matches (StartStage::LoadConfig, StartEvent::ConfigFailed(m)) ==> r.1 == StartAction::Fail(m),
        (s, e) matches (StartStage::Boot, StartEvent::BootFailed(m)) ==> r.1 == StartAction::Fail(m),
        (s, e) matches (StartStage::AllocateLease, StartEvent::LeaseRefused) ==> (r.1 matches StartAction::Fail(m) && m@ == "Network allocation error"@),
        (s, e) matches (StartStage::AwaitReady, StartEvent::TimedOut) ==> (r.1 matches StartAction::Fail(m) && m@ == "Ready callback timeout"@),
        (s, e) matches (StartStage::AwaitReady, StartEvent::CalledBack) ==> r.1 is Forward,
        next_stage(s, e) == StartStage::AllocateLease && s != StartStage::AllocateLease ==> r.1 is AllocateLease,
        next_stage(s, e) == StartStage::Boot && s != StartStage::Boot ==> r.1 is Boot,
        next_stage(s, e) == StartStage::AwaitReady && s != StartStage::AwaitReady ==> r.1 is AwaitReady,
{
    match (s, e) {
        (StartStage::LoadConfig, StartEvent::ConfigLoaded(true)) => (StartStage::AllocateLease, StartAction::AllocateLease),
        (StartStage::LoadConfig, StartEvent::ConfigLoaded(false)) => (StartStage::Boot, StartAction::Boot),
        (StartStage::LoadConfig, StartEvent::ConfigFailed(m)) => (StartStage::Done, StartAction::Fail(m)),
        (StartStage::AllocateLease, StartEvent::LeaseGranted) => (StartStage::Boot, StartAction::Boot),
        (StartStage::AllocateLease, StartEvent::LeaseRefused) => (
            StartStage::Done,
            StartAction::Fail(String::from_str("Network allocation error")),
        ),
        (StartStage::Boot, StartEvent::Booted) => (StartStage::AwaitReady, StartAction::AwaitReady),
        (StartStage::Boot, StartEvent::BootFailed(m)) => (StartStage::Done, StartAction::Fail(m)),
        (StartStage::AwaitReady, StartEvent::CalledBack) => (StartStage::Done, StartAction::Forward),
        (StartStage::AwaitReady, StartEvent::TimedOut) => (
            StartStage::Done,
            StartAction::Fail(String::from_str("Ready callback timeout")),
        ),
        (s, _) => (s, StartAction::Ignore),
    }
}

/// The stage reached after a sequence of events, and how many of them
/// answered the request.
pub open spec fn run_start(s: StartStage, events: Seq<StartEvent>) -> (StartStage, nat)
    decreases events.len(),
{
    if events.len() == 0 {
        (s, 0)
    } else {
        let rest = run_start(next_stage(s, events[0]), events.drop_first());
        (rest.0, rest.1 + if answers_at(s, events[0]) {
            1nat
        } else {
            0nat
        })
    }
}

/// Every request whose start begins is answered exactly once: whatever
/// happens, no request gets two answers, and the start is over exactly
/// when the request has had its one answer.
pub proof fn lemma_answered_exactly_once(events: Seq<StartEvent>, s: StartStage)
    ensures
        s == StartStage::Done ==> run_start(s, events) == (StartStage::Done, 0nat),
        s != StartStage::Done ==> run_start(s, events).1 <= 1,
        s != StartStage::Done ==> (run_start(s, events).0 == StartStage::Done <==> run_start(
            s,
            events,
        ).1 == 1),
    decreases events.len(),
{
    if events.len() > 0 {
        lemma_answered_exactly_once(events.drop_first(), next_stage(s, events[0]));
    }
}

/// How long the dispatch loop waits for a request before it looks for
/// instances to stop, in milliseconds.
pub const RECEIVE_TIMEOUT_MS: u64 = 1000;

/// How long the dispatch loop waits between two sweeps at shutdown, in
/// milliseconds.
pub const DRAIN_INTERVAL_MS: u64 = 20;

/// Where the dispatch loop stands.
#[derive(Clone, Copy, PartialEq, Eq, Structural, Debug)]
pub enum LoopStage {
    /// Taking requests.
    Serving,
    /// The request channel is closed; stopping every instance.
    Draining,
    /// Every instance is gone from the table; waiting for the reaper to
    /// finish stopping them.
    AwaitingReaper,
    /// Removing the network interfaces.
    DestroyingNetwork,
    /// Done.
    Stopped,
}

/// What the dispatch loop saw.
#[derive(Clone, Copy, PartialEq, Eq, Structural, Debug)]
pub enum LoopEvent {
    /// A request came in.
    Request,
    /// The request was handed on (to a running instance or to a new one).
    Dispatched,
    /// No request came within `RECEIVE_TIMEOUT_MS`.
    Timeout,
    /// The request channel was closed: the proxy has shut down.
    Closed,
    /// Whether the instance table is empty.
    TableEmpty(bool),
    /// The reaper stopped every instance handed to it.
    ReaperDone,
    /// The network interfaces are removed.
    NetworkGone,
}

/// What the dispatch loop does next.
#[derive(Clone, Copy, PartialEq, Eq, Structural, Debug)]
pub enum LoopAction {
    /// Dispatch the request that came in.
    Dispatch,
    /// Stop the instances that are to be stopped, then wait up to
    /// `RECEIVE_TIMEOUT_MS` for the next request.
    ReapExpired,
    /// Look whether the instance table is empty.
    CheckTable,
    /// Stop every idle instance, wait `DRAIN_INTERVAL_MS`, then look
    /// whether the table is empty.
    ReapAll,
    /// Wait until the reaper has stopped every instance.
    AwaitReaper,
    /// Remove the network interfaces.
    DestroyNetwork,
    /// Leave the loop.
    Stop,
    /// The event does not belong to this stage; nothing to do.
    Ignore,
}

/// The next stage of the dispatch loop after event `e` at stage `s`, and
/// the action to take.
pub open spec fn loop_transition(s: LoopStage, e: LoopEvent) -> (LoopStage, LoopAction) {
    match (s, e) {
        (LoopStage::Serving, LoopEvent::Request) => (LoopStage::Serving, LoopAction::Dispatch),
        (LoopStage::Serving, LoopEvent::Dispatched) => (LoopStage::Serving, LoopAction::ReapExpired),
        (LoopStage::Serving, LoopEvent::Timeout) => (LoopStage::Serving, LoopAction::ReapExpired),
        (LoopStage::Serving, LoopEvent::Closed) => (LoopStage::Draining, LoopAction::CheckTable),
        (LoopStage::Draining, LoopEvent::TableEmpty(false)) => (LoopStage::Draining, LoopAction::ReapAll),
        (LoopStage::Draining, LoopEvent::TableEmpty(true)) => (
            LoopStage::AwaitingReaper,
            LoopAction::AwaitReaper,
        ),
        (LoopStage::AwaitingReaper, LoopEvent::ReaperDone) => (
            LoopStage::DestroyingNetwork,
            LoopAction::DestroyNetwork,
        ),
        (LoopStage::DestroyingNetwork, LoopEvent::NetworkGone) => (LoopStage::Stopped, LoopAction::Stop),
        _ => (s, LoopAction::Ignore),
    }
}

/// One step of the dispatch loop: the next stage and what to do (see
/// `loop_transition`). While serving, each request is dispatched and then
/// the table reaped, and each timeout reaps; once the request channel closes, every instance is
/// stopped, `DRAIN_INTERVAL_MS` apart, until the table is empty; then the reaper is
/// awaited, then the network removed, then the loop ends.
pub fn dispatch_step(s: LoopStage, e: LoopEvent) -> (r: (LoopStage, LoopAction))
    ensures
        r == loop_transition(s, e),
{
    match (s, e) {
        (LoopStage::Serving, LoopEvent::Request) => (LoopStage::Serving, LoopAction::Dispatch),
        (LoopStage::Serving, LoopEvent::Dispatched) => (LoopStage::Serving, LoopAction::ReapExpired),
        (LoopStage::Serving, LoopEvent::Timeout) => (LoopStage::Serving, LoopAction::ReapExpired),
        (LoopStage::Serving, LoopEvent::Closed) => (LoopStage::Draining, LoopAction::CheckTable),
        (LoopStage::Draining, LoopEvent::TableEmpty(false)) => (LoopStage::Draining, LoopAction::ReapAll),
        (LoopStage::Draining, LoopEvent::TableEmpty(true)) => (
            LoopStage::AwaitingReaper,
            LoopAction::AwaitReaper,
        ),
        (LoopStage::AwaitingReaper, LoopEvent::ReaperDone) => (
            LoopStage::DestroyingNetwork,
            LoopAction::DestroyNetwork,
        ),
        (LoopStage::DestroyingNetwork, LoopEvent::NetworkGone) => (LoopStage::Stopped, LoopAction::Stop),
        (s, _) => (s, LoopAction::Ignore),
    }
}

/// The actions the dispatch loop takes, from stage `s`, for a sequence of
/// events.
pub open spec fn loop_actions(s: LoopStage, events: Seq<LoopEvent>) -> Seq<LoopAction>
    decreases events.len(),
{
    if events.len() == 0 {
        Seq::empty()
    } else {
        let t = loop_transition(s, events[0]);
        seq![t.1] + loop_actions(t.0, events.drop_first())
    }
}

proof fn lemma_loop_actions_index(s: LoopStage, events: Seq<LoopEvent>, k: int)
    requires
        0 < k < events.len(),
    ensures
        loop_actions(s, events).len() == events.len(),
        loop_actions(s, events)[0] == loop_transition(s, events[0]).1,
        loop_actions(s, events)[k] == loop_actions(
            loop_transition(s, events[0]).0,
            events.drop_first(),
        )[k - 1],
{
    lemma_loop_actions_len(s, events);
}

proof fn lemma_loop_actions_len(s: LoopStage, events: Seq<LoopEvent>)
    ensures
        loop_actions(s, events).len() == events.len(),
    decreases events.len(),
{
    if events.len() > 0 {
        lemma_loop_actions_len(loop_transition(s, events[0]).0, events.drop_first());
    }
}

/// Nothing is dispatched once the request channel has closed: a request
/// is dispatched only while serving, and only when no `Closed` came before.
pub proof fn lemma_no_dispatch_after_closed(s: LoopStage, events: Seq<LoopEvent>, k: int)
    requires
        0 <= k < events.len(),
        loop_actions(s, events)[k] == LoopAction::Dispatch,
    ensures
        s == LoopStage::Serving,
        forall|i: int| 0 <= i <= k ==> events[i] != LoopEvent::Closed,
    decreases k,
{
    lemma_loop_actions_len(s, events);
    if k > 0 {
        lemma_loop_actions_index(s, events, k);
        let rest = events.drop_first();
        lemma_no_dispatch_after_closed(loop_transition(s, events[0]).0, rest, k - 1);
        assert forall|i: int| 0 <= i <= k implies events[i] != LoopEvent::Closed by {
            if i > 0 {
                assert(events[i] == rest[i - 1]);
            }
        }
    }
}

/// Until the request channel closes, the loop keeps serving: each request
/// is dispatched, and each timeout and each finished dispatch is followed
/// by a reap.
pub proof fn lemma_serving_until_closed(events: Seq<LoopEvent>, k: int)
    requires
        0 <= k < events.len(),
        forall|i: int| 0 <= i <= k ==> events[i] != LoopEvent::Closed,
    ensures
        events[k] == LoopEvent::Request ==> loop_actions(LoopStage::Serving, events)[k]
            == LoopAction::Dispatch,
        events[k] == LoopEvent::Timeout || events[k] == LoopEvent::Dispatched ==> loop_actions(
            LoopStage::Serving,
            events,
        )[k] == LoopAction::ReapExpired,
    decreases k,
{
    lemma_loop_actions_len(LoopStage::Serving, events);
    if k > 0 {
        lemma_loop_actions_index(LoopStage::Serving, events, k);
        let rest = events.drop_first();
        assert(events[0] != LoopEvent::Closed);
        assert(loop_transition(LoopStage::Serving, events[0]).0 == LoopStage::Serving);
        assert forall|i: int| 0 <= i <= k - 1 implies rest[i] != LoopEvent::Closed by {
            assert(rest[i] == events[i + 1]);
        }
        lemma_serving_until_closed(rest, k - 1);
        assert(rest[k - 1] == events[k]);
    }
}

/// The network is removed only after the table was seen empty and then the
/// reaper finished: a `DestroyNetwork` answers a `ReaperDone`, and, from a
/// loop that was serving or draining, an empty table was seen before it.
pub proof fn lemma_network_destroyed_last(s: LoopStage, events: Seq<LoopEvent>, k: int)
    requires
        0 <= k < events.len(),
        loop_actions(s, events)[k] == LoopAction::DestroyNetwork,
    ensures
        events[k] == LoopEvent::ReaperDone,
        s == LoopStage::Serving || s == LoopStage::Draining || s == LoopStage::AwaitingReaper,
        s == LoopStage::Serving || s == LoopStage::Draining ==> exists|i: int|
            0 <= i < k && events[i] == LoopEvent::TableEmpty(true),
    decreases k,
{
    lemma_loop_actions_len(s, events);
    if k > 0 {
        lemma_loop_actions_index(s, events, k);
        let rest = events.drop_first();
        let s2 = loop_transition(s, events[0]).0;
        lemma_network_destroyed_last(s2, rest, k - 1);
        assert(events[k] == rest[k - 1]);
        if s2 == LoopStage::Serving || s2 == LoopStage::Draining {
            let i = choose|i: int| 0 <= i < k - 1 && rest[i] == LoopEvent::TableEmpty(true);
            assert(events[i + 1] == LoopEvent::TableEmpty(true));
        } else if s == LoopStage::Serving || s == LoopStage::Draining {
            assert(events[0] == LoopEvent::TableEmpty(true));
        }
    }
}

/// Body of the response to a request that could not be served.
pub open spec fn error_body_text(msg: Seq<char>) -> Seq<char> {
    "error: "@ + msg
}

/// Body of the response to a request that could not be served.
pub fn error_body(msg: &str) -> (b: String)
    ensures
        b@ == error_body_text(msg@),
{
    let mut b = String::from_str("error: ");
    b.append(msg);
    b
}

/// Port on which an instance serves the requests forwarded to it.
pub const INSTANCE_PORT: u16 = 8080;

/// The address to which a request for `path` (with an optional query) is
/// forwarded on an instance at `ip`.
pub open spec fn forward_uri_text(ip: u32, path: Seq<char>, query: Option<Seq<char>>) -> Seq<char> {
    "http://"@ + ipv4_text(ip) + ":8080/"@ + path + match query {
        Some(q) => seq!['?'] + q,
        None => Seq::empty(),
    }
}

/// Builds the address to which a request is forwarded on an instance.
pub fn forward_uri(ip: u32, path: &str, query: Option<&str>) -> (u: String)
    ensures
        u@ == forward_uri_text(
            ip,
            path@,
            match query {
                Some(q) => Some(q@),
                None => None,
            },
        ),
{
    let mut u = String::from_str("http://");
    let a = ipv4_to_string(ip);
    u.append(a.as_str());
    u.append(":8080/");
    u.append(path);
    match query {
        Some(q) => {
            push_char(&mut u, '?');
            u.append(q);
        },
        None => {},
    }
    u
}

/// A reap never cuts a request short: every instance that it stops serves
/// no request.
pub proof fn lemma_reap_stops_only_idle<T>(s: Seq<FunctionInstance<T>>, now_ms: u64, shutdown: bool)
    ensures
        forall|k: int|
            0 <= k < s.filter(stopped_by_reap(now_ms, shutdown)).len() ==> is_idle(
                #[trigger] s.filter(stopped_by_reap(now_ms, shutdown))[k],
            ),
{
    broadcast use vstd::seq_lib::group_filter_ensures;

}

/// At shutdown every idle instance is stopped: what a shutdown reap keeps
/// is still serving a request.
pub proof fn lemma_shutdown_reap_keeps_only_busy<T>(s: Seq<FunctionInstance<T>>, now_ms: u64)
    ensures
        forall|k: int|
            0 <= k < s.filter(kept_by_reap(now_ms, true)).len() ==> !is_idle(
                #[trigger] s.filter(kept_by_reap(now_ms, true))[k],
            ),
{
    broadcast use vstd::seq_lib::group_filter_ensures;

}

/// A reap loses no instance: each one is either kept or stopped.
pub proof fn lemma_reap_partitions<T>(s: Seq<FunctionInstance<T>>, now_ms: u64, shutdown: bool)
    ensures
        s.filter(kept_by_reap(now_ms, shutdown)).len() + s.filter(
            stopped_by_reap(now_ms, shutdown),
        ).len() == s.len(),
    decreases s.len(),
{
    reveal(Seq::filter);
    if s.len() > 0 {
        lemma_reap_partitions(s.drop_last(), now_ms, shutdown);
    }
}

/// An instance that is not ready (still booting or broken), that is closed
/// (single-use and already used) or that has no free permit is never
/// handed a request.
pub proof fn lemma_unready_or_closed_never_chosen<T>(e: FunctionInstance<T>, name: Seq<char>)
    requires
        e.state != InstanceState::READY || e.closed || e.permits == 0,
    ensures
        !is_available_for(e, name),
{
}

/// A broken instance is stopped at the first reap after its last request
/// finished, whatever the time.
pub proof fn lemma_broken_idle_is_stopped<T>(e: FunctionInstance<T>, now_ms: u64, shutdown: bool)
    requires
        is_idle(e),
        e.state == InstanceState::ERROR,
    ensures
        is_reapable(e, now_ms, shutdown),
{
}

/// A single-use instance is stopped at the first reap after its request
/// finished.
pub proof fn lemma_single_use_stopped_after_request<T>(e: FunctionInstance<T>, now_ms: u64, shutdown: bool)
    requires
        is_idle(e),
        e.closed,
    ensures
        is_reapable(e, now_ms, shutdown),
{
}

/// Outside shutdown, a healthy reusable instance is kept as long as its
/// keepalive has not run out since its last request.
pub proof fn lemma_kept_within_keepalive<T>(e: FunctionInstance<T>, now_ms: u64)
    requires
        e.state != InstanceState::ERROR,
        !e.closed,
        now_ms <= e.last_used_ms + e.keepalive_secs * 1000,
    ensures
        !is_reapable(e, now_ms, false),
{
}

/// Giving back the permit that a request took restores the instance's
/// free permits; only the time of last use changes, to the request's end.
pub proof fn lemma_release_undoes_acquire<T>(e: FunctionInstance<T>, start_ms: u64, end_ms: u64)
    requires
        0 < e.permits <= e.max_users,
    ensures
        released(acquired(e, start_ms), end_ms) == (FunctionInstance { last_used_ms: end_ms, ..e }),
{
}

/// Outside shutdown, an instance that serves no request is stopped as
/// soon as its keepalive has run out since its last request: at any time
/// later than its last use plus its keepalive.
pub proof fn lemma_expired_idle_is_stopped<T>(e: FunctionInstance<T>, now_ms: u64)
    requires
        e.permits >= e.max_users,
        e.last_used_ms + e.keepalive_secs * 1000 < now_ms,
    ensures
        is_reapable(e, now_ms, false),
        stopped_by_reap::<T>(now_ms, false)(e),
        !kept_by_reap::<T>(now_ms, false)(e),
{
}

/// An instance that serves a request (it has handed out a permit that has
/// not come back) is never stopped, at shutdown neither.
pub proof fn lemma_busy_never_stopped<T>(e: FunctionInstance<T>, now_ms: u64, shutdown: bool)
    requires
        e.permits < e.max_users,
    ensures
        !is_reapable(e, now_ms, shutdown),
        kept_by_reap::<T>(now_ms, shutdown)(e),
{
}

/// Whether a reap stops an instance outside shutdown depends on the time
/// only through its keepalive: a ready, reusable instance is stopped at
/// `now_ms` exactly when it serves no request and `now_ms` is past its
/// last use plus its keepalive; so once stopped at some time, it would be
/// stopped at any later time too.
pub proof fn lemma_reap_time_rule<T>(e: FunctionInstance<T>, now_ms: u64, later_ms: u64)
    requires
        e.state == InstanceState::READY,
        !e.closed,
    ensures
        is_reapable(e, now_ms, false) <==> (e.permits >= e.max_users && e.last_used_ms
            + e.keepalive_secs * 1000 < now_ms),
        now_ms <= later_ms && is_reapable(e, now_ms, false) ==> is_reapable(e, later_ms, false),
{
}

/// A request for function `name` goes only to an instance that runs
/// exactly that function, and every ready, open instance of that function
/// with a free permit can take it (it is reused before a new one starts).
pub proof fn lemma_routed_to_own_function<T>(e: FunctionInstance<T>, name: Seq<char>, other: Seq<char>)
    ensures
        is_available_for(e, name) ==> e.function_name@ == name,
        is_available_for(e, name) && is_available_for(e, other) ==> name == other,
        e.function_name@ != name ==> !is_available_for(e, name),
        e.function_name@ == name && e.state == InstanceState::READY && !e.closed && e.permits > 0
            ==> is_available_for(e, name),
{
}

/// The forwarded address carries the request's path unchanged after the
/// instance's address, and the query, if any, after a `?`: distinct paths
/// are forwarded to distinct addresses.
pub proof fn lemma_forward_keeps_path(ip: u32, path: Seq<char>, path2: Seq<char>, query: Seq<char>)
    ensures
        forward_uri_text(ip, path, None) == forward_uri_text(ip, Seq::empty(), None) + path,
        forward_uri_text(ip, path, Some(query)) == forward_uri_text(ip, path, None) + seq!['?']
            + query,
        forward_uri_text(ip, path, None) == forward_uri_text(ip, path2, None) ==> path == path2,
        forward_uri_text(ip, Seq::empty(), None) == "http://"@ + ipv4_text(ip) + seq![':'] + decimal(
            INSTANCE_PORT as nat,
        ) + seq!['/'],
{
    reveal_strlit(":8080/");
    reveal_with_fuel(decimal, 5);
    assert(decimal(8080) =~= seq!['8', '0', '8', '0']) by {
        assert(decimal(8) =~= seq!['8']);
        assert(decimal(80) =~= seq!['8', '0']);
        assert(decimal(808) =~= seq!['8', '0', '8']);
    }
    assert(forward_uri_text(ip, Seq::empty(), None) =~= "http://"@ + ipv4_text(ip) + seq![':']
        + decimal(INSTANCE_PORT as nat) + seq!['/']);
    let base = forward_uri_text(ip, Seq::empty(), None);
    assert(forward_uri_text(ip, path, None) =~= base + path);
    assert(forward_uri_text(ip, path2, None) =~= base + path2);
    assert(forward_uri_text(ip, path, Some(query)) =~= forward_uri_text(ip, path, None) + seq!['?']
        + query);
    if forward_uri_text(ip, path, None) == forward_uri_text(ip, path2, None) {
        assert(path =~= (base + path).subrange(base.len() as int, (base + path).len() as int));
        assert(path2 =~= (base + path2).subrange(base.len() as int, (base + path2).len() as int));
    }
}

} // verus!
