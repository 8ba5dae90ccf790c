use vstd::prelude::*;

verus! {

/// Milliseconds between two launches of the initial shard range: large
/// enough to respect the gateway's limit on new connections.
pub const SPAWN_INTERVAL_MS: u64 = 6000;

/// What reaches the spawn queue.
#[derive(PartialEq, Eq, Structural, Clone, Copy, Debug)]
pub enum QueueEvent {
    /// The interval between two initial launches has passed.
    Tick,
    /// The worker of this shard id has ended and asks to be launched again.
    Respawn(u16),
}

/// Launches a worker for each shard id of `[shard_start, shard_until)`, one
/// per tick, and relaunches at once each shard whose worker reports back.
pub struct SpawnQueue {
    shard_start: u16,
    shard_until: u16,
    next: u16,
}

pub ghost struct QueueModel {
    pub shard_start: u16,
    pub shard_until: u16,
    /// The first shard id of the range not yet launched.
    pub next: u16,
}

impl QueueModel {
    /// Shard id `id` has been launched once already.
    pub open spec fn launched(self, id: u16) -> bool {
        self.shard_start <= id < self.next
    }

    pub open spec fn wf(self) -> bool {
        self.shard_start <= self.next && (self.next <= self.shard_until
            || self.next == self.shard_start)
    }
}

impl View for SpawnQueue {
    type V = QueueModel;

    closed spec fn view(&self) -> QueueModel {
        QueueModel { shard_start: self.shard_start, shard_until: self.shard_until, next: self.next }
    }
}

/// One step of the queue: its next state, and the shard id it launches, if any.
pub open spec fn queue_next(q: QueueModel, e: QueueEvent) -> (QueueModel, Option<u16>) {
    match e {
        QueueEvent::Tick => if q.next < q.shard_until {
            (QueueModel { next: (q.next + 1) as u16, ..q }, Some(q.next))
        } else {
            (q, None)
        },
        QueueEvent::Respawn(id) => if q.launched(id) {
            (q, Some(id))
        } else {
            (q, None)
        },
    }
}

/// The queue's states and launches over a sequence of events.
pub open spec fn queue_run(q: QueueModel, evs: Seq<QueueEvent>) -> (QueueModel, Seq<Option<u16>>)
    decreases evs.len(),
{
    if evs.len() == 0 {
        (q, Seq::empty())
    } else {
        let (q1, outs) = queue_run(q, evs.drop_last());
        let (q2, out) = queue_next(q1, evs.last());
        (q2, outs.push(out))
    }
}

/// How many workers of shard `id` were launched.
pub open spec fn launches(outs: Seq<Option<u16>>, id: u16) -> nat
    decreases outs.len(),
{
    if outs.len() == 0 {
        0
    } else {
        launches(outs.drop_last(), id) + if outs.last() == Some(id) { 1nat } else { 0nat }
    }
}

/// How many workers of shard `id` reported their end.
pub open spec fn respawn_requests(evs: Seq<QueueEvent>, id: u16) -> nat
    decreases evs.len(),
{
    if evs.len() == 0 {
        0
    } else {
        respawn_requests(evs.drop_last(), id) + if evs.last() == QueueEvent::Respawn(id) {
            1nat
        } else {
            0nat
        }
    }
}

proof fn lemma_launches_bounded(q: QueueModel, evs: Seq<QueueEvent>, id: u16)
    requires
        q.wf(),
        q.next == q.shard_start,
    ensures
        queue_run(q, evs).0.wf(),
        queue_run(q, evs).0.shard_start == q.shard_start,
        queue_run(q, evs).0.shard_until == q.shard_until,
        launches(queue_run(q, evs).1, id) <= (if queue_run(q, evs).0.launched(id) { 1nat } else { 0nat })
            + respawn_requests(evs, id),
    decreases evs.len(),
{
    if evs.len() > 0 {
        lemma_launches_bounded(q, evs.drop_last(), id);
        let (q1, outs) = queue_run(q, evs.drop_last());
        assert(queue_run(q, evs).1 == outs.push(queue_next(q1, evs.last()).1));
        assert(queue_run(q, evs).1.drop_last() =~= outs);
    }
}

/// A worker is launched for a shard id at most once more than the workers of
/// that id that have ended and asked to be respawned: whatever the events,
/// no shard id ever has two live workers.
pub proof fn lemma_at_most_one_worker(q: QueueModel, evs: Seq<QueueEvent>, id: u16)
    requires
        q.wf(),
        q.next == q.shard_start,
    ensures
        launches(queue_run(q, evs).1, id) <= 1 + respawn_requests(evs, id),
{
    lemma_launches_bounded(q, evs, id);
}

/// A shard id that reports its worker's end after its first launch is
/// launched again at once; any other report launches nothing.
pub proof fn lemma_respawn_immediate(q: QueueModel, id: u16)
    ensures
        queue_next(q, QueueEvent::Respawn(id)) == (q, if q.launched(id) { Some(id) } else { None::<u16> }),
{
}

/// Ticks launch the range's shard ids in order, each once.
pub proof fn lemma_ticks_launch_range_in_order(q: QueueModel, n: nat)
    requires
        q.wf(),
        q.next == q.shard_start,
        q.shard_start + n <= q.shard_until,
    ensures
        queue_run(q, Seq::new(n, |i: int| QueueEvent::Tick)).1 == Seq::new(
            n,
            |i: int| Some((q.shard_start + i) as u16),
        ),
        queue_run(q, Seq::new(n, |i: int| QueueEvent::Tick)).0 == (QueueModel {
            next: (q.shard_start + n) as u16,
            ..q
        }),
    decreases n,
{
    let evs = Seq::new(n, |i: int| QueueEvent::Tick);
    if n > 0 {
        let prev = Seq::new((n - 1) as nat, |i: int| QueueEvent::Tick);
        assert(evs.drop_last() =~= prev);
        lemma_ticks_launch_range_in_order(q, (n - 1) as nat);
        assert(evs.last() == QueueEvent::Tick);
        assert(queue_run(q, evs).1 =~= Seq::new(n, |i: int| Some((q.shard_start + i) as u16)));
    } else {
        assert(queue_run(q, evs).1 =~= Seq::new(n, |i: int| Some((q.shard_start + i) as u16)));
    }
}

impl SpawnQueue {
    /// A queue for the shard ids `[shard_start, shard_until)`, none launched.
    pub fn new(shard_start: u16, shard_until: u16) -> (q: SpawnQueue)
        ensures
            q@ == (QueueModel { shard_start, shard_until, next: shard_start }),
            q@.wf(),
    {
        SpawnQueue { shard_start, shard_until, next: shard_start }
    }

    /// Whether every shard id of the range has been launched once.
    pub fn initial_spawns_done(&self) -> (r: bool)
        ensures
            r == (self@.next >= self@.shard_until),
    {
        self.next >= self.shard_until
    }

    /// Takes in an event and returns the shard id to launch, if any.
    pub fn handle(&mut self, event: QueueEvent) -> (launch: Option<u16>)
        requires
            old(self)@.wf(),
        ensures
            final(self)@.wf(),
            (final(self)@, launch) == queue_next(old(self)@, event),
    {
        match event {
            QueueEvent::Tick => if self.next < self.shard_until {
                let id = self.next;
                self.next = self.next + 1;
                Some(id)
            } else {
                None
            },
            QueueEvent::Respawn(id) => if self.shard_start <= id && id < self.next {
                Some(id)
            } else {
                None
            },
        }
    }
}

} // verus!
