//! The adaptive ramp as a state machine: which connection to attempt next
//! (queued retries first, up to a quarter of each batch, then new
//! connections), what becomes of a failed attempt, and how each batch moves
//! the batch size. The client performs the attempts and reports their
//! outcomes.

use vstd::prelude::*;
use super::ramp::{batch_good, batch_plan, next_batch, ramp_step, RampAction, RampState};

verus! {

/// A failed connection waiting for another attempt; `attempts` counts the
/// attempts made so far.
#[derive(Debug, Clone, Copy, PartialEq, Eq)]
pub struct RetryEntry {
    pub conn_index: u32,
    pub attempts: u32,
}

/// A connection attempt handed out by the ramp.
#[derive(Debug, Clone, Copy, PartialEq, Eq)]
pub enum Attempt {
    /// Another attempt on a connection that failed before; `attempts`
    /// counts this one.
    Retry { conn_index: u32, attempts: u32 },
    /// The first attempt on connection `conn_index`.
    New { conn_index: u32 },
}

/// What became of an attempt.
#[derive(Debug, Clone, Copy, PartialEq, Eq)]
pub enum Fate {
    Connected,
    Requeued,
    Failed,
}

/// The connection an attempt is for.
pub open spec fn attempt_index(a: Attempt) -> u32 {
    match a {
        Attempt::Retry { conn_index, .. } => conn_index,
        Attempt::New { conn_index } => conn_index,
    }
}

/// State of an adaptive ramp over `total` connections.
pub struct AdaptiveRamp {
    total: u32,
    max_batch: u32,
    max_retries: u32,
    control: RampState,
    next_index: u32,
    queue: Vec<RetryEntry>,
    connected: u32,
    failed: u32,
    retries_left: u32,
    new_left: u32,
    batch_ok: u32,
    batch_attempted: u32,
    pending: Option<Attempt>,
    tries: Ghost<Map<u32, nat>>,
}

/// The ramp's state: its settings, the batch controller, the next
/// connection not attempted yet, the retry queue (front first), the
/// connections connected and given up, what is left of the current batch
/// (retries and new connections) with its outcomes so far, the attempt
/// whose outcome is awaited, and the attempts handed out so far for each
/// connection.
pub struct RampView {
    pub total: u32,
    pub max_batch: u32,
    pub max_retries: u32,
    pub control: RampState,
    pub next_index: u32,
    pub queue: Seq<RetryEntry>,
    pub connected: u32,
    pub failed: u32,
    pub retries_left: u32,
    pub new_left: u32,
    pub batch_ok: u32,
    pub batch_attempted: u32,
    pub pending: Option<Attempt>,
    pub tries: Map<u32, nat>,
}

impl View for AdaptiveRamp {
    type V = RampView;

    closed spec fn view(&self) -> RampView {
        RampView {
            total: self.total,
            max_batch: self.max_batch,
            max_retries: self.max_retries,
            control: self.control,
            next_index: self.next_index,
            queue: self.queue@,
            connected: self.connected,
            failed: self.failed,
            retries_left: self.retries_left,
            new_left: self.new_left,
            batch_ok: self.batch_ok,
            batch_attempted: self.batch_attempted,
            pending: self.pending,
            tries: self.tries@,
        }
    }
}

/// 1 while an attempt awaits its outcome, else 0.
pub open spec fn in_flight(v: RampView) -> nat {
    if v.pending is Some {
        1
    } else {
        0
    }
}

/// Connections not attempted yet.
pub open spec fn remaining(v: RampView) -> nat {
    (v.total - v.next_index) as nat
}

/// A queued entry is for a connection already handed out, has had at least
/// one attempt, and is there only because retries are allowed: its attempts
/// stay below the retry limit, but for a first failure.
pub open spec fn queued_ok(v: RampView, e: RetryEntry) -> bool {
    &&& e.conn_index < v.next_index
    &&& 1 <= e.attempts
    &&& e.attempts < v.max_retries || e.attempts == 1
    &&& 0 < v.max_retries
}

/// No connection is queued twice, nor queued while in flight.
pub open spec fn queue_distinct(v: RampView) -> bool {
    &&& forall|i: int, j: int|
        0 <= i < j < v.queue.len() ==> (#[trigger] v.queue[i]).conn_index != (#[trigger] v.queue[j]).conn_index
    &&& v.pending matches Some(a) ==> attempt_index(a) < v.next_index && forall|i: int|
        0 <= i < v.queue.len() ==> (#[trigger] v.queue[i]).conn_index != attempt_index(a)
}

/// The ramp's invariant. Every connection is accounted for exactly once:
/// connected, given up, queued for a retry, in flight, or not attempted yet.
pub open spec fn ramp_wf(v: RampView) -> bool {
    &&& v.next_index <= v.total
    &&& v.connected + v.failed + v.queue.len() + remaining(v) + in_flight(v) == v.total
    &&& forall|i: int| 0 <= i < v.queue.len() ==> queued_ok(v, #[trigger] v.queue[i])
    &&& queue_distinct(v)
    &&& v.pending matches Some(Attempt::Retry { attempts, .. }) ==> attempts >= 1
    &&& v.batch_ok <= v.connected
    &&& v.batch_attempted + v.retries_left + v.new_left <= v.control.batch_size
    &&& tries_ok(v)
}

/// The most attempts a connection gets: one without retries, else the retry
/// limit but at least two (a first failure is always retried once).
pub open spec fn attempt_bound(max_retries: u32) -> nat {
    if max_retries == 0 {
        1
    } else if max_retries <= 2 {
        2
    } else {
        max_retries as nat
    }
}

/// The number of the attempt: a retry counts its attempts, a new one is the
/// first.
pub open spec fn attempt_number(a: Attempt) -> nat {
    match a {
        Attempt::Retry { attempts, .. } => attempts as nat,
        Attempt::New { .. } => 1,
    }
}

/// `tries` counts the attempts handed out for each connection handed out so
/// far, within the bound; a queued or in-flight connection carries its count.
pub open spec fn tries_ok(v: RampView) -> bool {
    &&& forall|i: u32| #[trigger] v.tries.dom().contains(i) <==> i < v.next_index
    &&& forall|i: u32|
        #[trigger] v.tries.dom().contains(i) ==> 1 <= v.tries[i] <= attempt_bound(v.max_retries)
    &&& forall|k: int|
        0 <= k < v.queue.len() ==> v.tries[(#[trigger] v.queue[k]).conn_index] == v.queue[k].attempts
    &&& v.pending matches Some(a) ==> v.tries[attempt_index(a)] == attempt_number(a)
}

/// Whether connections remain to be attempted or retried.
pub open spec fn has_work_spec(v: RampView) -> bool {
    v.next_index < v.total || v.queue.len() > 0
}

/// The next attempt of the current batch: a queued retry while the batch
/// has retries left, else a new connection while it has new ones left and
/// connections remain; nothing when the batch is done.
pub open spec fn next_attempt_spec(v: RampView) -> (RampView, Option<Attempt>) {
    if v.retries_left > 0 && v.queue.len() > 0 {
        let e = v.queue[0];
        let a = Attempt::Retry { conn_index: e.conn_index, attempts: (e.attempts + 1) as u32 };
        (
            RampView {
                queue: v.queue.drop_first(),
                retries_left: (v.retries_left - 1) as u32,
                batch_attempted: (v.batch_attempted + 1) as u32,
                pending: Some(a),
                tries: v.tries.insert(e.conn_index, (e.attempts + 1) as nat),
                ..v
            },
            Some(a),
        )
    } else if v.new_left > 0 && v.next_index < v.total {
        let a = Attempt::New { conn_index: v.next_index };
        (
            RampView {
                next_index: (v.next_index + 1) as u32,
                new_left: (v.new_left - 1) as u32,
                batch_attempted: (v.batch_attempted + 1) as u32,
                pending: Some(a),
                tries: v.tries.insert(v.next_index, 1),
                ..v
            },
            Some(a),
        )
    } else {
        (v, None)
    }
}

/// The outcome of the attempt in flight: a connection counts as connected;
/// a failure is queued again while retries are allowed (a retry while its
/// attempts stay below the limit, a first failure whenever the limit is not
/// 0), else the connection is given up.
pub open spec fn record_spec(v: RampView, connected: bool) -> (RampView, Fate) {
    let done = RampView { pending: None, ..v };
    if connected {
        (
            RampView {
                connected: (v.connected + 1) as u32,
                batch_ok: (v.batch_ok + 1) as u32,
                ..done
            },
            Fate::Connected,
        )
    } else {
        let requeue = match v.pending {
            Some(Attempt::Retry { conn_index, attempts }) => if attempts < v.max_retries {
                Some(RetryEntry { conn_index, attempts })
            } else {
                None
            },
            Some(Attempt::New { conn_index }) => if v.max_retries > 0 {
                Some(RetryEntry { conn_index, attempts: 1 })
            } else {
                None
            },
            None => None,
        };
        match requeue {
            Some(e) => (RampView { queue: v.queue.push(e), ..done }, Fate::Requeued),
            None => (RampView { failed: (v.failed + 1) as u32, ..done }, Fate::Failed),
        }
    }
}

/// Handing out a queued retry as attempt number `attempts + 1` keeps the
/// attempt counts in order.
proof fn lemma_retry_keeps_tries(v: RampView, w: RampView)
    requires
        ramp_wf(v),
        v.pending is None,
        v.queue.len() > 0,
        w.next_index == v.next_index,
        w.max_retries == v.max_retries,
        w.queue == v.queue.drop_first(),
        w.pending == Some(
            Attempt::Retry {
                conn_index: v.queue[0].conn_index,
                attempts: (v.queue[0].attempts + 1) as u32,
            },
        ),
        w.tries == v.tries.insert(v.queue[0].conn_index, (v.queue[0].attempts + 1) as nat),
    ensures
        tries_ok(w),
{
    let e = v.queue[0];
    assert(queued_ok(v, e));
    assert(v.tries.dom().contains(e.conn_index));
    assert forall|i: u32| #[trigger] w.tries.dom().contains(i) <==> i < w.next_index by {
        assert(v.tries.dom().contains(i) <==> i < v.next_index);
    }
    assert forall|i: u32| #[trigger] w.tries.dom().contains(i) implies 1 <= w.tries[i]
        <= attempt_bound(w.max_retries) by {
        assert(v.tries.dom().contains(i));
    }
    assert forall|k: int| 0 <= k < w.queue.len() implies w.tries[(#[trigger] w.queue[k]).conn_index]
        == w.queue[k].attempts by {
        assert(w.queue[k] == v.queue[k + 1]);
        assert(v.queue[0].conn_index != v.queue[k + 1].conn_index);
    }
}

/// Handing out connection `next_index` as its first attempt keeps the
/// attempt counts in order.
proof fn lemma_new_keeps_tries(v: RampView, w: RampView)
    requires
        ramp_wf(v),
        v.pending is None,
        v.next_index < v.total,
        w.next_index == v.next_index + 1,
        w.max_retries == v.max_retries,
        w.queue == v.queue,
        w.pending == Some(Attempt::New { conn_index: v.next_index }),
        w.tries == v.tries.insert(v.next_index, 1),
    ensures
        tries_ok(w),
{
    assert forall|i: u32| #[trigger] w.tries.dom().contains(i) <==> i < w.next_index by {
        assert(v.tries.dom().contains(i) <==> i < v.next_index);
    }
    assert forall|i: u32| #[trigger] w.tries.dom().contains(i) implies 1 <= w.tries[i]
        <= attempt_bound(w.max_retries) by {
        if i != v.next_index {
            assert(v.tries.dom().contains(i));
        }
    }
    assert forall|k: int| 0 <= k < w.queue.len() implies w.tries[(#[trigger] w.queue[k]).conn_index]
        == w.queue[k].attempts by {
        assert(queued_ok(v, v.queue[k]));
    }
}

impl AdaptiveRamp {
    /// A ramp over `total` connections starting with batches of
    /// `first_batch`, growing up to `max_batch`, with failed connections
    /// attempted again while they have had fewer than `max_retries`
    /// attempts (a first failure is retried whenever `max_retries` is not 0).
    pub fn new(total: u32, first_batch: u32, max_batch: u32, max_retries: u32) -> (r: Self)
        ensures
            r@ == (RampView {
                total,
                max_batch,
                max_retries,
                control: RampState { batch_size: first_batch, consecutive_good: 0 },
                next_index: 0,
                queue: Seq::empty(),
                connected: 0,
                failed: 0,
                retries_left: 0,
                new_left: 0,
                batch_ok: 0,
                batch_attempted: 0,
                pending: None,
                tries: Map::empty(),
            }),
            ramp_wf(r@),
    {
        let r = AdaptiveRamp {
            total,
            max_batch,
            max_retries,
            control: RampState { batch_size: first_batch, consecutive_good: 0 },
            next_index: 0,
            queue: Vec::new(),
            connected: 0,
            failed: 0,
            retries_left: 0,
            new_left: 0,
            batch_ok: 0,
            batch_attempted: 0,
            pending: None,
            tries: Ghost(Map::empty()),
        };
        assert(r@.queue =~= Seq::<RetryEntry>::empty());
        r
    }

    /// Whether connections remain to be attempted or retried.
    pub fn has_work(&self) -> (b: bool)
        ensures
            b == has_work_spec(self@),
    {
        self.next_index < self.total || self.queue.len() > 0
    }

    /// The current batch size.
    pub fn batch_size(&self) -> (n: u32)
        ensures
            n == self@.control.batch_size,
    {
        self.control.batch_size
    }

    /// Connections of the current batch that connected.
    pub fn batch_ok(&self) -> (n: u32)
        ensures
            n == self@.batch_ok,
    {
        self.batch_ok
    }

    /// Attempts made in the current batch.
    pub fn batch_attempted(&self) -> (n: u32)
        ensures
            n == self@.batch_attempted,
    {
        self.batch_attempted
    }

    /// Connections established so far.
    pub fn connected(&self) -> (n: u32)
        ensures
            n == self@.connected,
    {
        self.connected
    }

    /// Connections given up so far.
    pub fn failed(&self) -> (n: u32)
        ensures
            n == self@.failed,
    {
        self.failed
    }

    /// Connections waiting for a retry.
    pub fn queued(&self) -> (n: usize)
        ensures
            n == self@.queue.len(),
    {
        self.queue.len()
    }

    /// Starts a batch: up to a quarter of the batch size retries queued
    /// connections, the rest opens new ones (`batch_plan`).
    pub fn start_batch(&mut self)
        requires
            ramp_wf(old(self)@),
        ensures
            ramp_wf(final(self)@),
            final(self)@ == (RampView {
                retries_left: if old(self)@.queue.len() < old(self)@.control.batch_size / 4 {
                    old(self)@.queue.len() as u32
                } else {
                    old(self)@.control.batch_size / 4
                },
                new_left: (old(self)@.control.batch_size - final(self)@.retries_left) as u32,
                batch_ok: 0,
                batch_attempted: 0,
                ..old(self)@
            }),
    {
        let (retries, fresh) = batch_plan(self.control.batch_size, self.queue.len());
        self.retries_left = retries;
        self.new_left = fresh;
        self.batch_ok = 0;
        self.batch_attempted = 0;
    }

    /// Hands out the next attempt of the current batch (see
    /// `next_attempt_spec`); its outcome is then awaited.
    pub fn next_attempt(&mut self) -> (r: Option<Attempt>)
        requires
            ramp_wf(old(self)@),
            old(self)@.pending is None,
        ensures
            ramp_wf(final(self)@),
            (final(self)@, r) == next_attempt_spec(old(self)@),
    {
        if self.retries_left > 0 && self.queue.len() > 0 {
            let ghost before = self@;
            let e = self.queue.remove(0);
            proof {
                assert(queued_ok(before, before.queue[0]));
                assert forall|i: int, j: int| 0 <= i < j < self.queue@.len() implies (
                #[trigger] self.queue@[i]).conn_index != (#[trigger] self.queue@[j]).conn_index by {
                    assert(self.queue@[i] == before.queue[i + 1]);
                    assert(self.queue@[j] == before.queue[j + 1]);
                }
                assert forall|i: int| 0 <= i < self.queue@.len() implies (
                #[trigger] self.queue@[i]).conn_index != e.conn_index by {
                    assert(self.queue@[i] == before.queue[i + 1]);
                    assert(before.queue[0] == e);
                }
                assert forall|i: int| 0 <= i < self.queue@.len() implies queued_ok(
                    before,
                    #[trigger] self.queue@[i],
                ) by {
                    assert(self.queue@[i] == before.queue[i + 1]);
                }
                assert(self.queue@ =~= before.queue.drop_first());
            }
            let a = Attempt::Retry { conn_index: e.conn_index, attempts: e.attempts + 1 };
            self.retries_left = self.retries_left - 1;
            self.batch_attempted = self.batch_attempted + 1;
            self.pending = Some(a);
            self.tries = Ghost(self.tries@.insert(e.conn_index, (e.attempts + 1) as nat));
            proof {
                lemma_retry_keeps_tries(before, self@);
            }
            Some(a)
        } else if self.new_left > 0 && self.next_index < self.total {
            let ghost before = self@;
            let a = Attempt::New { conn_index: self.next_index };
            self.tries = Ghost(self.tries@.insert(self.next_index, 1));
            self.next_index = self.next_index + 1;
            self.new_left = self.new_left - 1;
            self.batch_attempted = self.batch_attempted + 1;
            self.pending = Some(a);
            proof {
                lemma_new_keeps_tries(before, self@);
            }
            Some(a)
        } else {
            None
        }
    }

    /// Hands out the next queued retry outside any batch (the final drain
    /// of the queue); its outcome is then awaited.
    pub fn next_drain(&mut self) -> (r: Option<Attempt>)
        requires
            ramp_wf(old(self)@),
            old(self)@.pending is None,
        ensures
            ramp_wf(final(self)@),
            old(self)@.queue.len() == 0 ==> r is None && final(self)@ == old(self)@,
            old(self)@.queue.len() > 0 ==> ({
                let e = old(self)@.queue[0];
                let a = Attempt::Retry { conn_index: e.conn_index, attempts: (e.attempts + 1) as u32 };
                &&& r == Some(a)
                &&& final(self)@ == (RampView {
                    queue: old(self)@.queue.drop_first(),
                    pending: Some(a),
                    tries: old(self)@.tries.insert(e.conn_index, (e.attempts + 1) as nat),
                    ..old(self)@
                })
            }),
    {
        if self.queue.len() == 0 {
            return None;
        }
        let ghost before = self@;
        let e = self.queue.remove(0);
        proof {
            assert(queued_ok(before, before.queue[0]));
            assert forall|i: int, j: int| 0 <= i < j < self.queue@.len() implies (
            #[trigger] self.queue@[i]).conn_index != (#[trigger] self.queue@[j]).conn_index by {
                assert(self.queue@[i] == before.queue[i + 1]);
                assert(self.queue@[j] == before.queue[j + 1]);
            }
            assert forall|i: int| 0 <= i < self.queue@.len() implies (
            #[trigger] self.queue@[i]).conn_index != e.conn_index by {
                assert(self.queue@[i] == before.queue[i + 1]);
            }
            assert forall|i: int| 0 <= i < self.queue@.len() implies queued_ok(
                before,
                #[trigger] self.queue@[i],
            ) by {
                assert(self.queue@[i] == before.queue[i + 1]);
            }
            assert(self.queue@ =~= before.queue.drop_first());
        }
        let a = Attempt::Retry { conn_index: e.conn_index, attempts: e.attempts + 1 };
        self.pending = Some(a);
        self.tries = Ghost(self.tries@.insert(e.conn_index, (e.attempts + 1) as nat));
        proof {
            lemma_retry_keeps_tries(before, self@);
        }
        Some(a)
    }

    /// Records the outcome of the attempt in flight (see `record_spec`).
    pub fn record(&mut self, connected: bool) -> (fate: Fate)
        requires
            ramp_wf(old(self)@),
            old(self)@.pending is Some,
        ensures
            ramp_wf(final(self)@),
            (final(self)@, fate) == record_spec(old(self)@, connected),
    {
        let ghost before = self@;
        let a = match self.pending {
            Some(a) => a,
            None => {
                return Fate::Failed;
            },
        };
        self.pending = None;
        if connected {
            self.connected = self.connected + 1;
            self.batch_ok = self.batch_ok + 1;
            return Fate::Connected;
        }
        let requeue = match a {
            Attempt::Retry { conn_index, attempts } => if attempts < self.max_retries {
                Some(RetryEntry { conn_index, attempts })
            } else {
                None
            },
            Attempt::New { conn_index } => if self.max_retries > 0 {
                Some(RetryEntry { conn_index, attempts: 1 })
            } else {
                None
            },
        };
        match requeue {
            Some(e) => {
                self.queue.push(e);
                proof {
                    assert(self.queue@ == before.queue.push(e));
                    assert forall|i: int| 0 <= i < self.queue@.len() implies queued_ok(
                        self@,
                        #[trigger] self.queue@[i],
                    ) by {
                        if i < before.queue.len() {
                            assert(self.queue@[i] == before.queue[i]);
                            assert(queued_ok(before, before.queue[i]));
                        } else {
                            assert(self.queue@[i] == e);
                        }
                    }
                    assert forall|i: int, j: int| 0 <= i < j < self.queue@.len() implies (
                    #[trigger] self.queue@[i]).conn_index != (#[trigger] self.queue@[j]).conn_index by {
                        assert(self.queue@[i] == before.queue[i]);
                        if j < before.queue.len() {
                            assert(self.queue@[j] == before.queue[j]);
                        } else {
                            assert(self.queue@[j] == e);
                        }
                    }
                }
                Fate::Requeued
            },
            None => {
                self.failed = self.failed + 1;
                Fate::Failed
            },
        }
    }

    /// Ends the current batch: `good` tells whether it was good
    /// (`batch_good`), the controller takes its step (`ramp_step`) and the
    /// batch's counters start over.
    pub fn finish_batch(&mut self) -> (r: (bool, RampAction))
        requires
            ramp_wf(old(self)@),
        ensures
            ramp_wf(final(self)@),
            r.0 == batch_good(old(self)@.batch_ok, old(self)@.batch_attempted),
            (final(self)@.control, r.1) == ramp_step(old(self)@.control, r.0, old(self)@.max_batch),
            final(self)@ == (RampView {
                control: final(self)@.control,
                retries_left: 0,
                new_left: 0,
                batch_ok: 0,
                batch_attempted: 0,
                ..old(self)@
            }),
    {
        let good = super::ramp::is_good_batch(self.batch_ok, self.batch_attempted);
        let (control, action) = next_batch(
            self.control,
            self.batch_ok,
            self.batch_attempted,
            self.max_batch,
        );
        self.control = control;
        self.retries_left = 0;
        self.new_left = 0;
        self.batch_ok = 0;
        self.batch_attempted = 0;
        (good, action)
    }
}

/// Every connection is accounted for exactly once at every step: connected,
/// given up, queued for a retry, in flight, or not attempted yet; and once no
/// work is left and nothing is in flight, each connection either connected
/// or was given up.
pub proof fn lemma_ramp_accounts_for_every_connection(v: RampView)
    requires
        ramp_wf(v),
    ensures
        v.connected + v.failed + v.queue.len() + remaining(v) + in_flight(v) == v.total,
        !has_work_spec(v) && v.pending is None ==> v.connected + v.failed == v.total,
{
}

/// A connection waiting for a retry has been attempted before and is waiting
/// only once, and the attempt in flight is not also waiting.
pub proof fn lemma_queued_once(v: RampView, i: int, j: int)
    requires
        ramp_wf(v),
        0 <= i < v.queue.len(),
        0 <= j < v.queue.len(),
        i != j,
    ensures
        v.queue[i].conn_index != v.queue[j].conn_index,
        v.queue[i].conn_index < v.next_index,
        v.queue[i].attempts >= 1,
        v.pending matches Some(a) ==> attempt_index(a) != v.queue[i].conn_index,
{
    assert(queued_ok(v, v.queue[i]));
    if i < j {
        assert(v.queue[i].conn_index != v.queue[j].conn_index);
    } else {
        assert(v.queue[j].conn_index != v.queue[i].conn_index);
    }
}

/// What is left of a connection's attempts after `attempts` of `bound`.
pub open spec fn slack(bound: nat, attempts: nat) -> nat {
    if attempts <= bound {
        (bound - attempts) as nat
    } else {
        0
    }
}

/// What is left of the attempts of the queued connections.
pub open spec fn queue_slack(q: Seq<RetryEntry>, bound: nat) -> nat
    decreases q.len(),
{
    if q.len() == 0 {
        0
    } else {
        queue_slack(q.drop_last(), bound) + slack(bound, q.last().attempts as nat)
    }
}

/// The most attempts the ramp can still hand out: all of them for the
/// connections not attempted yet, and what is left to the queued and the
/// in-flight ones.
pub open spec fn work_left(v: RampView) -> nat {
    let b = attempt_bound(v.max_retries);
    remaining(v) * b + queue_slack(v.queue, b) + match v.pending {
        Some(a) => slack(b, attempt_number(a)),
        None => 0,
    }
}

proof fn lemma_queue_slack_front(q: Seq<RetryEntry>, b: nat)
    requires
        q.len() > 0,
    ensures
        queue_slack(q, b) == slack(b, q[0].attempts as nat) + queue_slack(q.drop_first(), b),
    decreases q.len(),
{
    if q.len() > 1 {
        lemma_queue_slack_front(q.drop_last(), b);
        let d = q.drop_first();
        assert(q.drop_last().drop_first() =~= d.drop_last());
        assert(q.drop_last()[0] == q[0]);
        assert(d.last() == q.last());
        assert(queue_slack(d, b) == queue_slack(d.drop_last(), b) + slack(
            b,
            d.last().attempts as nat,
        ));
    } else {
        assert(q.drop_first().len() == 0);
        assert(q.drop_last().len() == 0);
        assert(q.last() == q[0]);
        assert(queue_slack(q.drop_last(), b) == 0);
        assert(queue_slack(q.drop_first(), b) == 0);
    }
}

proof fn lemma_queue_slack_push(q: Seq<RetryEntry>, e: RetryEntry, b: nat)
    ensures
        queue_slack(q.push(e), b) == queue_slack(q, b) + slack(b, e.attempts as nat),
{
    assert(q.push(e).drop_last() =~= q);
}

proof fn lemma_queued_has_slack(v: RampView, e: RetryEntry)
    requires
        queued_ok(v, e),
    ensures
        e.attempts + 1 <= attempt_bound(v.max_retries),
{
}

/// Every connection handed out so far has had at least one and at most
/// `attempt_bound(max_retries)` attempts, and no connection not yet handed
/// out has had any.
pub proof fn lemma_attempts_bounded(v: RampView, i: u32)
    requires
        ramp_wf(v),
    ensures
        v.tries.dom().contains(i) <==> i < v.next_index,
        v.tries.dom().contains(i) ==> 1 <= v.tries[i] <= attempt_bound(v.max_retries),
{
}

/// Each attempt of a batch uses up one of the attempts left.
pub proof fn lemma_attempt_takes_work(v: RampView)
    requires
        ramp_wf(v),
        v.pending is None,
        next_attempt_spec(v).1 is Some,
    ensures
        work_left(next_attempt_spec(v).0) + 1 == work_left(v),
{
    let b = attempt_bound(v.max_retries);
    let w = next_attempt_spec(v).0;
    if v.retries_left > 0 && v.queue.len() > 0 {
        lemma_queue_slack_front(v.queue, b);
        assert(queued_ok(v, v.queue[0]));
        lemma_queued_has_slack(v, v.queue[0]);
    } else {
        let r = remaining(v);
        assert(remaining(w) == r - 1);
        assert(r * b == (r - 1) * b + b) by (nonlinear_arith)
            requires
                r >= 1,
        ;
        assert(b >= 1);
    }
}

/// Each attempt of the final drain uses up one of the attempts left.
pub proof fn lemma_drain_takes_work(v: RampView)
    requires
        ramp_wf(v),
        v.pending is None,
        v.queue.len() > 0,
    ensures
        ({
            let e = v.queue[0];
            let a = Attempt::Retry { conn_index: e.conn_index, attempts: (e.attempts + 1) as u32 };
            work_left(
                RampView {
                    queue: v.queue.drop_first(),
                    pending: Some(a),
                    tries: v.tries.insert(e.conn_index, (e.attempts + 1) as nat),
                    ..v
                },
            ) + 1 == work_left(v)
        }),
{
    let b = attempt_bound(v.max_retries);
    lemma_queue_slack_front(v.queue, b);
    assert(queued_ok(v, v.queue[0]));
    lemma_queued_has_slack(v, v.queue[0]);
}

/// Recording an outcome never adds to the attempts left: a requeued
/// connection keeps what was left to it.
pub proof fn lemma_record_keeps_work(v: RampView, connected: bool)
    requires
        ramp_wf(v),
        v.pending is Some,
    ensures
        work_left(record_spec(v, connected).0) <= work_left(v),
{
    let b = attempt_bound(v.max_retries);
    let w = record_spec(v, connected).0;
    if !connected {
        match v.pending {
            Some(Attempt::Retry { conn_index, attempts }) => {
                if attempts < v.max_retries {
                    lemma_queue_slack_push(v.queue, RetryEntry { conn_index, attempts }, b);
                }
            },
            Some(Attempt::New { conn_index }) => {
                if v.max_retries > 0 {
                    lemma_queue_slack_push(v.queue, RetryEntry { conn_index, attempts: 1 }, b);
                }
            },
            None => {},
        }
    }
}

/// While work is left, some attempt is left: the ramp ends after at most
/// `work_left` attempts.
pub proof fn lemma_work_while_busy(v: RampView)
    requires
        ramp_wf(v),
        has_work_spec(v),
    ensures
        work_left(v) > 0,
{
    let b = attempt_bound(v.max_retries);
    if v.queue.len() > 0 {
        lemma_queue_slack_front(v.queue, b);
        assert(queued_ok(v, v.queue[0]));
        lemma_queued_has_slack(v, v.queue[0]);
    } else {
        let r = remaining(v);
        assert(r * b >= b) by (nonlinear_arith)
            requires
                r >= 1,
        ;
    }
}

/// A batch of at least 4 started while work is left hands out at least one
/// attempt (a retry when any is queued, else a new connection).
pub proof fn lemma_batch_makes_progress(v: RampView)
    requires
        ramp_wf(v),
        v.pending is None,
        has_work_spec(v),
        v.control.batch_size >= 4,
        v.retries_left == (if v.queue.len() < v.control.batch_size / 4 {
            v.queue.len() as u32
        } else {
            v.control.batch_size / 4
        }),
        v.new_left == v.control.batch_size - v.retries_left,
    ensures
        next_attempt_spec(v).1 is Some,
{
}

/// A batch size of at least 4 stays so: a good batch never shrinks it, a
/// bad one halves it but not below `MIN_BATCH`.
pub proof fn lemma_batch_size_stays_at_least_4(s: RampState, good: bool, max_batch: u32)
    requires
        s.batch_size >= 4,
    ensures
        ramp_step(s, good, max_batch).0.batch_size >= 4,
{
}

} // verus!
