//! The bounded worker pool's shared state: the task queue, what each worker
//! holds, the results channel and the shutdown protocol. Threads that run the
//! workers take this state under one lock only to submit, to dequeue and to
//! hand in a record; resolving happens outside it.
use vstd::prelude::*;

use crate::Site;

verus! {

/// Lifecycle of a pool.
#[derive(PartialEq, Eq, Structural, Debug, Clone, Copy)]
pub enum Phase {
    /// Accepting submissions; workers active.
    Running,
    /// No more submissions; workers drain what is queued.
    Closing,
    /// Every worker has stopped. Terminal.
    Closed,
}

/// What a worker is told to do when it asks for work.
pub enum Task {
    /// Resolve this host and hand the record back.
    Resolve(String),
    /// Nothing queued yet, but more may come: ask again later.
    Wait,
    /// The queue is closed and drained: terminate.
    Stop,
}

/// The state of one worker.
pub struct Worker {
    task: Option<usize>,
    finished: bool,
}

/// A fixed set of workers over one unbounded FIFO queue of hosts.
pub struct Pool {
    queue: Vec<String>,
    next: usize,
    workers: Vec<Worker>,
    phase: Phase,
    results: Vec<Site>,
    done: Ghost<Seq<int>>,
}

closed spec fn busy(w: Worker) -> nat {
    if w.task is Some { 1 } else { 0 }
}

/// Number of workers holding a task.
closed spec fn busy_count(ws: Seq<Worker>) -> nat
    decreases ws.len(),
{
    if ws.len() == 0 { 0 } else { busy_count(ws.drop_last()) + busy(ws.last()) }
}

proof fn lemma_busy_count_update(ws: Seq<Worker>, i: int, w: Worker)
    requires
        0 <= i < ws.len(),
    ensures
        busy_count(ws.update(i, w)) + busy(ws[i]) == busy_count(ws) + busy(w),
    decreases ws.len(),
{
    let u = ws.update(i, w);
    if i == ws.len() - 1 {
        assert(u.drop_last() =~= ws.drop_last());
    } else {
        lemma_busy_count_update(ws.drop_last(), i, w);
        assert(u.drop_last() =~= ws.drop_last().update(i, w));
    }
}

proof fn lemma_none_busy(ws: Seq<Worker>)
    requires
        forall|i: int| 0 <= i < ws.len() ==> (#[trigger] ws[i]).task is None,
    ensures
        busy_count(ws) == 0,
    decreases ws.len(),
{
    if ws.len() > 0 {
        lemma_none_busy(ws.drop_last());
    }
}

impl Pool {
    /// Every host ever accepted, in submission order.
    pub closed spec fn accepted(&self) -> Seq<Seq<char>> {
        self.queue@.map_values(|h: String| h@)
    }

    /// How many accepted hosts have been handed to a worker.
    pub closed spec fn dispatched(&self) -> nat {
        self.next as nat
    }

    pub closed spec fn size(&self) -> nat {
        self.workers.len() as nat
    }

    pub closed spec fn phase(&self) -> Phase {
        self.phase
    }

    /// The records handed in so far, in completion order.
    pub closed spec fn results(&self) -> Seq<Site> {
        self.results@
    }

    /// For each record, the position in `accepted` of the host it was
    /// resolved for.
    pub closed spec fn sources(&self) -> Seq<int> {
        self.done@
    }

    /// The position in `accepted` of the host worker `w` is resolving.
    pub closed spec fn holds(&self, w: int) -> Option<int> {
        match self.workers@[w].task {
            Some(t) => Some(t as int),
            None => None,
        }
    }

    pub closed spec fn finished(&self, w: int) -> bool {
        self.workers@[w].finished
    }

    /// Worker `w` exists, holds no task and has not stopped.
    pub open spec fn idle(&self, w: int) -> bool {
        0 <= w < self.size() && self.holds(w) is None && !self.finished(w)
    }

    pub closed spec fn wf(&self) -> bool {
        let ws = self.workers@;
        let done = self.done@;
        &&& ws.len() >= 1
        &&& self.next <= self.queue.len()
        &&& self.results.len() == done.len()
        &&& done.len() + busy_count(ws) == self.next
        &&& forall|k: int| 0 <= k < done.len() ==> 0 <= #[trigger] done[k] < self.next
        &&& forall|k1: int, k2: int|
            0 <= k1 < k2 < done.len() ==> #[trigger] done[k1] != #[trigger] done[k2]
        &&& forall|w: int| #![trigger ws[w]]
            0 <= w < ws.len() && ws[w].task is Some ==> {
                &&& ws[w].task.unwrap() < self.next
                &&& !ws[w].finished
                &&& forall|k: int| 0 <= k < done.len() ==> done[k] != ws[w].task.unwrap()
            }
        &&& forall|w1: int, w2: int|
            0 <= w1 < ws.len() && 0 <= w2 < ws.len() && w1 != w2 && (#[trigger] ws[w1]).task is Some
                && (#[trigger] ws[w2]).task is Some ==> ws[w1].task != ws[w2].task
        &&& forall|t: int| 0 <= t < self.next ==> Self::accounted(done, ws, t)
        &&& forall|w: int| 0 <= w < ws.len() && (#[trigger] ws[w]).finished
            ==> self.phase != Phase::Running && self.next == self.queue.len()
        &&& (self.phase == Phase::Closed <==> forall|w: int| 0 <= w < ws.len() ==> (#[trigger] ws[w]).finished)
    }

    /// Task `t` has either been handed in or is held by a worker.
    pub closed spec fn accounted(done: Seq<int>, ws: Seq<Worker>, t: int) -> bool {
        (exists|k: int| 0 <= k < done.len() && done[k] == t)
        || (exists|w: int| 0 <= w < ws.len() && ws[w].task == Some(t as usize))
    }

    /// Starts a pool of `size` workers, all idle, accepting submissions.
    pub fn new(size: usize) -> (r: Pool)
        requires
            size >= 1,
        ensures
            r.wf(),
            r.size() == size,
            r.phase() == Phase::Running,
            r.accepted() == Seq::<Seq<char>>::empty(),
            r.dispatched() == 0,
            r.results() == Seq::<Site>::empty(),
            forall|w: int| #![trigger r.holds(w)] #![trigger r.finished(w)]
                0 <= w < size ==> r.holds(w) is None && !r.finished(w),
    {
        let mut workers: Vec<Worker> = Vec::new();
        let mut i: usize = 0;
        while i < size
            invariant
                i <= size,
                workers.len() == i,
                forall|w: int| 0 <= w < i ==> (#[trigger] workers@[w]).task is None && !workers@[w].finished,
            decreases size - i,
        {
            workers.push(Worker { task: None, finished: false });
            i = i + 1;
        }
        proof {
            lemma_none_busy(workers@);
        }
        let r = Pool {
            queue: Vec::new(),
            next: 0,
            workers,
            phase: Phase::Running,
            results: Vec::new(),
            done: Ghost(Seq::empty()),
        };
        assert(r.accepted() =~= Seq::<Seq<char>>::empty());
        r
    }

    /// The host behind each record, in completion order.
    pub open spec fn resolved_hosts(&self) -> Seq<Seq<char>> {
        self.sources().map_values(|k: int| self.accepted()[k])
    }

    /// Some record was resolved from the host at position `t` of `accepted`.
    pub open spec fn resolved(&self, t: int) -> bool {
        exists|k: int| 0 <= k < self.sources().len() && self.sources()[k] == t
    }

    /// The two pools have the same workers in the same states.
    pub open spec fn same_workers(&self, other: &Pool) -> bool {
        &&& self.size() == other.size()
        &&& forall|w: int| #![trigger self.holds(w)] #![trigger self.finished(w)]
            0 <= w < self.size() ==> self.holds(w) == other.holds(w) && self.finished(w) == other.finished(w)
    }

    /// Only worker `w` differs between the two pools.
    pub open spec fn same_workers_but(&self, other: &Pool, w: int) -> bool {
        &&& self.size() == other.size()
        &&& forall|v: int| #![trigger self.holds(v)] #![trigger self.finished(v)]
            0 <= v < self.size() && v != w ==> self.holds(v) == other.holds(v) && self.finished(v) == other.finished(v)
    }

    pub fn current_phase(&self) -> (r: Phase)
        ensures
            r == self.phase(),
    {
        self.phase
    }

    pub fn is_idle(&self, w: usize) -> (r: bool)
        ensures
            r == self.idle(w as int),
    {
        w < self.workers.len() && self.workers[w].task.is_none() && !self.workers[w].finished
    }

    pub fn holds_task(&self, w: usize) -> (r: bool)
        ensures
            r == (w < self.size() && self.holds(w as int) is Some),
    {
        w < self.workers.len() && self.workers[w].task.is_some()
    }

    /// Enqueues `url` while the pool is running. After `close` nothing is
    /// enqueued and `false` comes back: the pool is left as it was.
    pub fn send(&mut self, url: String) -> (r: bool)
        requires
            old(self).wf(),
        ensures
            final(self).wf(),
            r == (old(self).phase() == Phase::Running),
            final(self).accepted() == (if r { old(self).accepted().push(url@) } else { old(self).accepted() }),
            final(self).phase() == old(self).phase(),
            final(self).dispatched() == old(self).dispatched(),
            final(self).results() == old(self).results(),
            final(self).sources() == old(self).sources(),
            final(self).same_workers(old(self)),
    {
        if self.phase == Phase::Running {
            let ghost q0 = self.queue@;
            self.queue.push(url);
            assert(self.queue@.map_values(|h: String| h@) =~= q0.map_values(|h: String| h@).push(url@));
            true
        } else {
            false
        }
    }

    /// Stops accepting submissions; the workers go on draining the queue.
    pub fn close(&mut self)
        requires
            old(self).wf(),
        ensures
            final(self).wf(),
            final(self).phase() == (if old(self).phase() == Phase::Running { Phase::Closing } else { old(self).phase() }),
            final(self).accepted() == old(self).accepted(),
            final(self).dispatched() == old(self).dispatched(),
            final(self).results() == old(self).results(),
            final(self).sources() == old(self).sources(),
            final(self).same_workers(old(self)),
    {
        if self.phase == Phase::Running {
            assert(!self.workers@[0].finished);
            self.phase = Phase::Closing;
        }
    }

    fn all_finished(&self) -> (r: bool)
        ensures
            r == forall|w: int| 0 <= w < self.workers.len() ==> (#[trigger] self.workers@[w]).finished,
    {
        let mut i: usize = 0;
        while i < self.workers.len()
            invariant
                i <= self.workers.len(),
                forall|w: int| 0 <= w < i ==> (#[trigger] self.workers@[w]).finished,
            decreases self.workers.len() - i,
        {
            if !self.workers[i].finished {
                return false;
            }
            i = i + 1;
        }
        true
    }

    /// Worker `w` asks for work: it gets the oldest host not yet handed out;
    /// with none left it waits while the pool runs and stops once it is
    /// closed. The last worker to stop closes the pool for good.
    pub fn next_task(&mut self, w: usize) -> (t: Task)
        requires
            old(self).wf(),
            old(self).idle(w as int),
        ensures
            final(self).wf(),
            final(self).accepted() == old(self).accepted(),
            final(self).results() == old(self).results(),
            final(self).sources() == old(self).sources(),
            final(self).same_workers_but(old(self), w as int),
            old(self).dispatched() < old(self).accepted().len() ==> {
                &&& t is Resolve
                &&& t->Resolve_0@ == old(self).accepted()[old(self).dispatched() as int]
                &&& final(self).dispatched() == old(self).dispatched() + 1
                &&& final(self).holds(w as int) == Some(old(self).dispatched() as int)
                &&& !final(self).finished(w as int)
                &&& final(self).phase() == old(self).phase()
            },
            old(self).dispatched() == old(self).accepted().len() && old(self).phase() == Phase::Running ==> {
                &&& t is Wait
                &&& final(self).dispatched() == old(self).dispatched()
                &&& final(self).idle(w as int)
                &&& final(self).phase() == old(self).phase()
            },
            old(self).dispatched() == old(self).accepted().len() && old(self).phase() != Phase::Running ==> {
                &&& t is Stop
                &&& final(self).dispatched() == old(self).dispatched()
                &&& final(self).holds(w as int) is None
                &&& final(self).finished(w as int)
                &&& final(self).phase() == (if forall|v: int| 0 <= v < final(self).size() ==> #[trigger] final(self).finished(v) { Phase::Closed } else { Phase::Closing })
            },
    {
        let ghost ws0 = self.workers@;
        let ghost done = self.done@;
        if self.next < self.queue.len() {
            let host = self.queue[self.next].clone();
            let t0 = self.next;
            self.workers.set(w, Worker { task: Some(t0), finished: false });
            self.next = self.next + 1;
            proof {
                let ws = self.workers@;
                lemma_busy_count_update(ws0, w as int, ws[w as int]);
                assert forall|t: int| 0 <= t < self.next implies Self::accounted(done, ws, t) by {
                    if t < t0 {
                        assert(Self::accounted(done, ws0, t));
                    }
                    if t == t0 {
                        assert(ws[w as int].task == Some(t as usize));
                    } else if exists|k: int| 0 <= k < done.len() && done[k] == t {
                    } else {
                        let v = choose|v: int| 0 <= v < ws0.len() && ws0[v].task == Some(t as usize);
                        assert(ws[v].task == Some(t as usize));
                    }
                };
            }
            Task::Resolve(host)
        } else if self.phase == Phase::Running {
            Task::Wait
        } else {
            self.workers.set(w, Worker { task: None, finished: true });
            proof {
                let ws = self.workers@;
                lemma_busy_count_update(ws0, w as int, ws[w as int]);
                assert forall|t: int| 0 <= t < self.next implies Self::accounted(done, ws, t) by {
                    assert(Self::accounted(done, ws0, t));
                    if exists|k: int| 0 <= k < done.len() && done[k] == t {
                    } else {
                        let v = choose|v: int| 0 <= v < ws0.len() && ws0[v].task == Some(t as usize);
                        assert(ws[v].task == Some(t as usize));
                    }
                };
            }
            let all = self.all_finished();
            assert(all == forall|v: int| 0 <= v < self.size() ==> #[trigger] self.finished(v)) by {
                if all {
                    assert forall|v: int| 0 <= v < self.size() implies #[trigger] self.finished(v) by {
                        assert(self.workers@[v].finished);
                    };
                } else {
                    let v = choose|v: int| 0 <= v < self.workers.len() && !(#[trigger] self.workers@[v]).finished;
                    assert(!self.finished(v));
                }
            };
            if all {
                self.phase = Phase::Closed;
            }
            Task::Stop
        }
    }

    /// Worker `w` hands in the record of the host it held.
    pub fn complete(&mut self, w: usize, site: Site)
        requires
            old(self).wf(),
            w < old(self).size(),
            old(self).holds(w as int) is Some,
        ensures
            final(self).wf(),
            final(self).results() == old(self).results().push(site),
            final(self).sources() == old(self).sources().push(old(self).holds(w as int).unwrap()),
            final(self).idle(w as int),
            final(self).same_workers_but(old(self), w as int),
            final(self).accepted() == old(self).accepted(),
            final(self).dispatched() == old(self).dispatched(),
            final(self).phase() == old(self).phase(),
    {
        let ghost ws0 = self.workers@;
        let ghost done0 = self.done@;
        let ghost t0 = ws0[w as int].task.unwrap() as int;
        self.workers.set(w, Worker { task: None, finished: false });
        self.results.push(site);
        self.done = Ghost(self.done@.push(t0));
        proof {
            let ws = self.workers@;
            let done = self.done@;
            lemma_busy_count_update(ws0, w as int, ws[w as int]);
            assert(done[done0.len() as int] == t0);
            assert forall|t: int| 0 <= t < self.next implies Self::accounted(done, ws, t) by {
                assert(Self::accounted(done0, ws0, t));
                if exists|k: int| 0 <= k < done0.len() && done0[k] == t {
                    let k = choose|k: int| 0 <= k < done0.len() && done0[k] == t;
                    assert(done[k] == t);
                } else {
                    let v = choose|v: int| 0 <= v < ws0.len() && ws0[v].task == Some(t as usize);
                    if v == w {
                        assert(done[done0.len() as int] == t);
                    } else {
                        assert(ws[v].task == Some(t as usize));
                    }
                }
            };
            assert forall|k1: int, k2: int| 0 <= k1 < k2 < done.len() implies #[trigger] done[k1] != #[trigger] done[k2] by {
                if k2 == done0.len() {
                    assert(done[k1] == done0[k1]);
                } else {
                    assert(done[k1] == done0[k1] && done[k2] == done0[k2]);
                }
            };
        }
    }

    /// Worker `w` stopped and its thread was joined cleanly.
    pub open spec fn ended_cleanly(&self, joined: Seq<bool>, w: int) -> bool {
        joined[w] && self.finished(w)
    }

    /// Ends a run once the worker threads are joined; `joined[w]` tells
    /// whether worker `w`'s thread was joined cleanly. The run fails, naming
    /// the first worker that did not end cleanly; otherwise the records come
    /// back in completion order.
    pub fn into_results(self, joined: &Vec<bool>) -> (r: Result<Vec<Site>, usize>)
        requires
            self.wf(),
            joined.len() == self.size(),
        ensures
            r is Ok <==> forall|w: int| 0 <= w < self.size() ==> #[trigger] self.ended_cleanly(joined@, w),
            r is Ok ==> r->Ok_0@ == self.results() && self.phase() == Phase::Closed,
            r is Err ==> {
                let w = r->Err_0 as int;
                &&& 0 <= w < self.size()
                &&& !self.ended_cleanly(joined@, w)
                &&& forall|v: int| 0 <= v < w ==> #[trigger] self.ended_cleanly(joined@, v)
            },
    {
        let mut i: usize = 0;
        while i < self.workers.len()
            invariant
                i <= self.workers.len(),
                joined.len() == self.workers.len(),
                self.wf(),
                forall|v: int| 0 <= v < i ==> #[trigger] self.ended_cleanly(joined@, v),
            decreases self.workers.len() - i,
        {
            if !(joined[i] && self.workers[i].finished) {
                assert(!self.ended_cleanly(joined@, i as int));
                return Err(i);
            }
            i = i + 1;
        }
        assert forall|v: int| 0 <= v < self.workers.len() implies (#[trigger] self.workers@[v]).finished by {
            assert(self.ended_cleanly(joined@, v));
        };
        Ok(self.results)
    }
}

/// Once a pool is closed, every accepted host has been resolved exactly
/// once, whatever the number of workers: each record comes from one
/// accepted host, no host gives two records, and none is left out.
pub proof fn lemma_closed_pool_resolves_each_host_once(p: &Pool)
    requires
        p.wf(),
        p.phase() == Phase::Closed,
    ensures
        p.results().len() == p.accepted().len(),
        p.sources().len() == p.results().len(),
        forall|k: int| 0 <= k < p.sources().len() ==> 0 <= #[trigger] p.sources()[k] < p.accepted().len(),
        forall|k1: int, k2: int| 0 <= k1 < k2 < p.sources().len() ==> #[trigger] p.sources()[k1] != #[trigger] p.sources()[k2],
        forall|t: int| 0 <= t < p.accepted().len() ==> #[trigger] p.resolved(t),
{
    let ws = p.workers@;
    assert forall|w: int| 0 <= w < ws.len() implies (#[trigger] ws[w]).task is None by {
        assert(ws[w].finished);
    };
    lemma_none_busy(ws);
    assert(ws[0].finished);
    assert forall|t: int| 0 <= t < p.accepted().len() implies #[trigger] p.resolved(t) by {
        assert(Pool::accounted(p.done@, ws, t));
        if exists|v: int| 0 <= v < ws.len() && ws[v].task == Some(t as usize) {
            let v = choose|v: int| 0 <= v < ws.len() && ws[v].task == Some(t as usize);
            assert(ws[v].task is None);
        }
    };
}

/// Two closed pools that accepted the same hosts, whatever their numbers
/// of workers and however their workers interleaved, resolved the same set
/// of hosts: the accepted ones.
pub proof fn lemma_closed_pools_resolve_same_hosts(p: &Pool, q: &Pool)
    requires
        p.wf(),
        q.wf(),
        p.phase() == Phase::Closed,
        q.phase() == Phase::Closed,
        p.accepted() == q.accepted(),
    ensures
        p.resolved_hosts().to_set() == p.accepted().to_set(),
        p.resolved_hosts().to_set() == q.resolved_hosts().to_set(),
{
    lemma_closed_resolves_accepted_set(p);
    lemma_closed_resolves_accepted_set(q);
}

proof fn lemma_closed_resolves_accepted_set(p: &Pool)
    requires
        p.wf(),
        p.phase() == Phase::Closed,
    ensures
        p.resolved_hosts().to_set() == p.accepted().to_set(),
{
    lemma_closed_pool_resolves_each_host_once(p);
    let r = p.resolved_hosts();
    let a = p.accepted();
    assert forall|h: Seq<char>| r.to_set().contains(h) <==> a.to_set().contains(h) by {
        if r.to_set().contains(h) {
            let k = choose|k: int| 0 <= k < r.len() && r[k] == h;
            assert(a[p.sources()[k]] == h);
        }
        if a.to_set().contains(h) {
            let t = choose|t: int| 0 <= t < a.len() && a[t] == h;
            assert(p.resolved(t));
            let k = choose|k: int| 0 <= k < p.sources().len() && p.sources()[k] == t;
            assert(r[k] == h);
        }
    };
    assert(r.to_set() =~= a.to_set());
}

} // verus!
