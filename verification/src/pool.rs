//! The life of one pool worker, the size of the pool, and why the grand
//! total does not depend on which worker scanned which directory.

use crate::channel::{await_path, IDLE_MILLIS};
use crate::stats::{
    lemma_total_concat, lemma_total_update, lemma_total_zeros, tallies, Stats, Tally,
};
use crossbeam::channel::Receiver;
use vstd::prelude::*;

verus! {

/// Whether a worker still asks for work.
#[derive(Clone, Copy, Debug, PartialEq, Eq, Structural)]
pub enum Phase {
    Running,
    Terminated,
}

/// What can happen to a worker.
#[derive(Clone, Copy, Debug, PartialEq, Eq, Structural)]
pub enum Event {
    /// A directory was received and scanned, with this total.
    Scanned(Stats),
    /// No directory arrived within the idle timeout.
    Idle,
}

/// The mathematical state of a worker: an unbounded running total and the
/// phase.
pub struct Progress {
    pub total: Tally,
    pub phase: Phase,
}

impl Progress {
    /// The state of a worker that has scanned nothing yet.
    pub open spec fn start() -> Progress {
        Progress { total: Tally::zero(), phase: Phase::Running }
    }

    /// The state after `event`. A running worker adds what it scanned and
    /// terminates when idle; a terminated worker stays as it is.
    pub open spec fn after(self, event: Event) -> Progress {
        match (self.phase, event) {
            (Phase::Terminated, _) => self,
            (Phase::Running, Event::Idle) => Progress { total: self.total, phase: Phase::Terminated },
            (Phase::Running, Event::Scanned(s)) => Progress {
                total: self.total.merge(s@),
                phase: Phase::Running,
            },
        }
    }

    /// The state after a sequence of events, first to last.
    pub open spec fn run(self, events: Seq<Event>) -> Progress
        decreases events.len(),
    {
        if events.len() == 0 {
            self
        } else {
            self.run(events.drop_last()).after(events.last())
        }
    }
}

/// One worker of the pool: its running total and its phase.
#[derive(Clone, Copy, Debug, PartialEq, Eq, Structural)]
pub struct Worker {
    pub total: Stats,
    pub phase: Phase,
}

impl View for Worker {
    type V = Progress;

    open spec fn view(&self) -> Progress {
        Progress { total: self.total@, phase: self.phase }
    }
}

impl Worker {
    /// A worker that has scanned nothing yet.
    pub fn new() -> (r: Worker)
        ensures
            r@ == Progress::start(),
    {
        Worker { total: Stats::default(), phase: Phase::Running }
    }

    /// Whether `event` can be taken without the total leaving its range.
    pub fn can_step(&self, event: &Event) -> (r: bool)
        ensures
            r == self@.after(*event).total.fits(),
    {
        match (self.phase, event) {
            (Phase::Running, Event::Scanned(s)) => self.total.can_merge(s),
            _ => true,
        }
    }

    /// Takes one event.
    pub fn step(&mut self, event: Event)
        requires
            old(self)@.after(event).total.fits(),
        ensures
            final(self)@ == old(self)@.after(event),
    {
        match (self.phase, event) {
            (Phase::Running, Event::Scanned(s)) => {
                self.total.add_assign(s);
            },
            (Phase::Running, Event::Idle) => {
                self.phase = Phase::Terminated;
            },
            (Phase::Terminated, _) => {},
        }
    }

    /// Asks the queue for the next directory, waiting at most the idle
    /// timeout. A running worker that gets none terminates; a terminated
    /// worker does not ask again. The total is left as it is.
    pub fn turn(&mut self, receiver: &Receiver<String>) -> (path: Option<String>)
        ensures
            final(self).total == old(self).total,
            path is Some ==> old(self).phase == Phase::Running,
            path is Some <==> final(self).phase == Phase::Running,
    {
        match self.phase {
            Phase::Terminated => None,
            Phase::Running => {
                let path = await_path(receiver, IDLE_MILLIS);
                if path.is_none() {
                    self.step(Event::Idle);
                }
                path
            },
        }
    }
}

/// The events of a worker that scans directories with the totals `scans`,
/// one after the other.
pub open spec fn scanned(scans: Seq<Stats>) -> Seq<Event> {
    scans.map_values(|s: Stats| Event::Scanned(s))
}

/// A terminated worker never runs again: whatever happens then, it keeps
/// its phase and its total.
pub proof fn lemma_terminated_stays(p: Progress, events: Seq<Event>)
    requires
        p.phase == Phase::Terminated,
    ensures
        p.run(events) == p,
    decreases events.len(),
{
    if events.len() > 0 {
        lemma_terminated_stays(p, events.drop_last());
    }
}

/// A running worker that scans one directory after the other keeps running
/// and has added the total of them all.
pub proof fn lemma_run_scans(p: Progress, scans: Seq<Stats>)
    requires
        p.phase == Phase::Running,
    ensures
        p.run(scanned(scans)) == (Progress {
            total: p.total.merge(Tally::total(tallies(scans))),
            phase: Phase::Running,
        }),
    decreases scans.len(),
{
    if scans.len() > 0 {
        assert(scanned(scans).drop_last() =~= scanned(scans.drop_last()));
        assert(tallies(scans).drop_last() =~= tallies(scans.drop_last()));
        lemma_run_scans(p, scans.drop_last());
    }
}

/// A worker that starts, scans one directory after the other and then
/// finds the queue idle ends terminated with the total of what it scanned.
pub proof fn lemma_worker_result(scans: Seq<Stats>)
    ensures
        Progress::start().run(scanned(scans).push(Event::Idle)) == (Progress {
            total: Tally::total(tallies(scans)),
            phase: Phase::Terminated,
        }),
{
    let events = scanned(scans).push(Event::Idle);
    assert(events.drop_last() =~= scanned(scans));
    lemma_run_scans(Progress::start(), scans);
}

/// `num_cpus::get`: how many logical processors this process may use.
/// Nothing is claimed of the number: it depends on the machine.
#[verifier::external_body]
pub(crate) fn logical_cores() -> (n: usize) {
    num_cpus::get()
}

/// The number of workers to run: the requested number where one is given
/// and positive, else the number of cores, and never less than one.
pub open spec fn resolved_workers(requested: Option<usize>, cores: usize) -> usize {
    match requested {
        Some(n) if n > 0 => n,
        _ => if cores > 0 {
            cores
        } else {
            1
        },
    }
}

/// Resolves the size of the pool from a request and a core count.
pub fn resolve_workers(requested: Option<usize>, cores: usize) -> (n: usize)
    ensures
        n == resolved_workers(requested, cores),
        n >= 1,
{
    match requested {
        Some(n) if n > 0 => n,
        _ => if cores > 0 {
            cores
        } else {
            1
        },
    }
}

/// The size of the pool on this machine: the requested number where one is
/// given and positive, else one worker per logical processor.
pub fn worker_count(requested: Option<usize>) -> (n: usize)
    ensures
        n >= 1,
        requested is Some && requested->Some_0 > 0 ==> n == requested->Some_0,
{
    resolve_workers(requested, logical_cores())
}

/// What worker `w` has counted once the directories with the totals `parts`
/// were scanned, directory `i` by worker `owner[i]`.
pub open spec fn share(parts: Seq<Tally>, owner: Seq<int>, w: int) -> Tally
    decreases parts.len(),
{
    if parts.len() == 0 || owner.len() != parts.len() {
        Tally::zero()
    } else {
        let rest = share(parts.drop_last(), owner.drop_last(), w);
        if owner.last() == w {
            rest.merge(parts.last())
        } else {
            rest
        }
    }
}

/// The final totals of a pool of `workers` workers.
pub open spec fn shares(parts: Seq<Tally>, owner: Seq<int>, workers: nat) -> Seq<Tally> {
    Seq::new(workers, |w: int| share(parts, owner, w))
}

/// However the directories are dealt out among the workers of a pool, the
/// workers' totals add up to the total of all directories: a pool of any
/// size counts what a single worker counts.
pub proof fn lemma_pool_total(parts: Seq<Tally>, owner: Seq<int>, workers: nat)
    requires
        owner.len() == parts.len(),
        forall|i: int| 0 <= i < owner.len() ==> 0 <= #[trigger] owner[i] < workers,
    ensures
        Tally::total(shares(parts, owner, workers)) == Tally::total(parts),
    decreases parts.len(),
{
    if parts.len() == 0 {
        lemma_total_zeros(shares(parts, owner, workers));
    } else {
        let before = shares(parts.drop_last(), owner.drop_last(), workers);
        let w = owner.last();
        lemma_pool_total(parts.drop_last(), owner.drop_last(), workers);
        assert(shares(parts, owner, workers) =~= before.update(w, before[w].merge(parts.last())));
        lemma_total_update(before, w, parts.last());
    }
}

/// The grand total of a run: the root's own total and the workers' totals
/// add up to the total of every directory scanned, however the directories
/// were dealt out.
pub proof fn lemma_grand_total(root: Tally, parts: Seq<Tally>, owner: Seq<int>, workers: nat)
    requires
        owner.len() == parts.len(),
        forall|i: int| 0 <= i < owner.len() ==> 0 <= #[trigger] owner[i] < workers,
    ensures
        Tally::total(seq![root] + shares(parts, owner, workers)) == root.merge(
            Tally::total(parts),
        ),
{
    lemma_pool_total(parts, owner, workers);
    lemma_total_concat(seq![root], shares(parts, owner, workers));
    assert(seq![root].drop_last() =~= Seq::<Tally>::empty());
    assert(Tally::total(seq![root]) == Tally::total(Seq::<Tally>::empty()).merge(root));
}

} // verus!
