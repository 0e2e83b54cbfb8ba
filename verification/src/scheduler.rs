//! The job scheduler: lifecycle commands, job runners, and the job registry.
//!
//! A runner is the control state of one background polling job.  The registry
//! holds the live runners, at most one per feed identifier, and applies
//! lifecycle commands to them one at a time.  The caller owns the actual
//! execution resources (threads or tasks); this module decides, for every
//! command, how the registry changes and which runner must be started or
//! stopped, so that the caller only performs those actions.

use vstd::prelude::*;

verus! {

/// The kind of a lifecycle command.
#[derive(Clone, Copy, Debug, PartialEq, Eq, Structural)]
pub enum Operation {
    Create,
    Update,
    Delete,
}

/// One lifecycle command: an operation aimed at one feed identifier.
///
/// `frequency` is the polling interval in seconds; it is meaningful for
/// `Create` and `Update` only and must be positive there, since every feed
/// polls on a positive interval.
#[derive(Clone, Copy, Debug, PartialEq, Eq, Structural)]
pub struct Command {
    pub op: Operation,
    pub id: usize,
    pub frequency: u64,
}

impl Command {
    /// A command is well formed when the interval it carries is usable:
    /// a job can only be started with a positive polling interval.
    pub open spec fn wf(self) -> bool {
        (self.op is Create || self.op is Update) ==> self.frequency > 0
    }
}

/// The control state of one job runner.
///
/// The runner's polling loop repeatedly: observes `stopping`, exits if it is
/// set, otherwise invokes the work function once, records the invocation, and
/// waits `frequency` seconds.  The first invocation therefore happens before
/// the first wait, and a failed invocation leaves the control state exactly
/// as a successful one does.
#[derive(Clone, Copy, Debug, PartialEq, Eq, Structural)]
pub struct Runner {
    pub id: usize,
    pub frequency: u64,
    pub stopping: bool,
    pub invocations: u64,
}

/// What the polling loop does next.
#[derive(Clone, Copy, Debug, PartialEq, Eq, Structural)]
pub enum RunnerAction {
    /// Invoke the work function once, then wait one interval.
    Invoke,
    /// Leave the loop; the runner is terminating.
    Exit,
}

/// The next step of the polling loop: exit once a stop has been signalled,
/// invoke the work function otherwise.
pub open spec fn spec_next_step(r: Runner) -> RunnerAction {
    if r.stopping {
        RunnerAction::Exit
    } else {
        RunnerAction::Invoke
    }
}

impl Runner {
    /// A fresh runner for feed `id`, polling every `frequency` seconds.
    ///
    /// Its very first step is `Invoke`: a newly created job runs at once,
    /// not after waiting one full interval.
    pub fn new(id: usize, frequency: u64) -> (r: Runner)
        requires
            frequency > 0,
        ensures
            r.id == id,
            r.frequency == frequency,
            !r.stopping,
            r.invocations == 0,
            spec_next_step(r) == RunnerAction::Invoke,
    {
        Runner { id, frequency, stopping: false, invocations: 0 }
    }

    /// Decide the next step of the polling loop.
    pub fn next_step(&self) -> (a: RunnerAction)
        ensures
            a == spec_next_step(*self),
    {
        if self.stopping {
            RunnerAction::Exit
        } else {
            RunnerAction::Invoke
        }
    }

    /// Record one invocation of the work function.  Whether the work
    /// succeeded or failed changes nothing: a failure never terminates the
    /// runner, which only exits through `signal_stop`.
    pub fn record_invocation(&mut self, _succeeded: bool)
        requires
            old(self).invocations < u64::MAX,
        ensures
            final(self).id == old(self).id,
            final(self).frequency == old(self).frequency,
            final(self).stopping == old(self).stopping,
            final(self).invocations == old(self).invocations + 1,
    {
        self.invocations = self.invocations + 1;
    }

    /// Signal the runner to stop.  From this point its next step is `Exit`,
    /// so the work function is never invoked again.
    pub fn signal_stop(&mut self)
        ensures
            final(self).id == old(self).id,
            final(self).frequency == old(self).frequency,
            final(self).stopping,
            final(self).invocations == old(self).invocations,
            spec_next_step(*final(self)) == RunnerAction::Exit,
    {
        self.stopping = true;
    }
}

/// What the registry did with one command, and what the caller must now do
/// with the execution resources it owns.
///
/// A `retired` runner has already been signalled to stop and is out of the
/// registry; the caller must wait for its execution to terminate before it
/// starts the execution of any runner created for the same identifier.
#[derive(Clone, Copy, Debug, PartialEq, Eq, Structural)]
pub enum ApplyOutcome {
    /// A new runner was inserted; start its execution.
    Started,
    /// An existing runner for the same identifier was stopped and replaced
    /// by a new one; terminate the old execution, then start the new one.
    Replaced { retired: Runner },
    /// The runner was stopped and removed; terminate its execution.
    Removed { retired: Runner },
    /// The command targeted an identifier with no live runner and was a
    /// no-op: a lifecycle miss.
    Miss,
}

/// How one command transforms the registry's contents, viewed as a map from
/// feed identifier to polling interval.
///
/// A `Create` for an identifier that already has a runner behaves as an
/// `Update` (the stale runner is never leaked); an `Update` or `Delete` for
/// an unknown identifier is a no-op.
pub open spec fn spec_apply(m: Map<usize, u64>, cmd: Command) -> Map<usize, u64> {
    match cmd.op {
        Operation::Create => m.insert(cmd.id, cmd.frequency),
        Operation::Update => if m.contains_key(cmd.id) {
            m.insert(cmd.id, cmd.frequency)
        } else {
            m
        },
        Operation::Delete => if m.contains_key(cmd.id) {
            m.remove(cmd.id)
        } else {
            m
        },
    }
}

/// The job registry: the live job runners, at most one per feed identifier.
pub struct Registry {
    pub jobs: Vec<Runner>,
}

impl Registry {
    /// Whether some live runner polls feed `id`.
    pub open spec fn contains_id(self, id: usize) -> bool {
        exists|i: int| 0 <= i < self.jobs@.len() && self.jobs@[i].id == id
    }

    /// The position of the runner for feed `id`, when there is one.
    pub open spec fn index_of(self, id: usize) -> int {
        choose|i: int| 0 <= i < self.jobs@.len() && self.jobs@[i].id == id
    }

    /// The polling interval of the runner for feed `id`, when there is one.
    pub open spec fn frequency_of(self, id: usize) -> u64 {
        self.jobs@[self.index_of(id)].frequency
    }

    /// The registry's contents, abstracted to a map from feed identifier to
    /// polling interval.
    pub open spec fn as_map(self) -> Map<usize, u64> {
        Map::new(|id: usize| self.contains_id(id), |id: usize| self.frequency_of(id))
    }

    /// The registry's invariant: no two runners share a feed identifier, and
    /// every runner it holds is live — not stopping, with a positive
    /// polling interval.  A runner that is signalled to stop leaves the
    /// registry in the same operation, so a stopped runner is never visible
    /// in it.
    pub open spec fn wf(self) -> bool {
        &&& forall|i: int, j: int|
            0 <= i < j < self.jobs@.len() ==> (#[trigger] self.jobs@[i]).id != (
            #[trigger] self.jobs@[j]).id
        &&& forall|i: int|
            0 <= i < self.jobs@.len() ==> !(#[trigger] self.jobs@[i]).stopping
                && self.jobs@[i].frequency > 0
    }

    /// An empty registry: no feed is being polled.
    pub fn new() -> (r: Registry)
        ensures
            r.wf(),
            r.jobs@.len() == 0,
            r.as_map() =~= Map::<usize, u64>::empty(),
    {
        Registry { jobs: Vec::new() }
    }

    /// The position of the runner for feed `id`, if any.
    fn find_index(&self, id: usize) -> (r: Option<usize>)
        ensures
            match r {
                Some(i) => i < self.jobs@.len() && self.jobs@[i as int].id == id,
                None => !self.contains_id(id),
            },
    {
        let mut i: usize = 0;
        while i < self.jobs.len()
            invariant
                i <= self.jobs@.len(),
                forall|k: int| 0 <= k < i ==> (#[trigger] self.jobs@[k]).id != id,
            decreases self.jobs@.len() - i,
        {
            if self.jobs[i].id == id {
                return Some(i);
            }
            i = i + 1;
        }
        None
    }

    /// Stop the runner at position `i` and take it out of the registry.
    fn stop_and_remove(&mut self, i: usize) -> (retired: Runner)
        requires
            i < old(self).jobs@.len(),
        ensures
            final(self).jobs@ == old(self).jobs@.remove(i as int),
            retired.id == old(self).jobs@[i as int].id,
            retired.frequency == old(self).jobs@[i as int].frequency,
            retired.invocations == old(self).jobs@[i as int].invocations,
            retired.stopping,
    {
        let mut retired = self.jobs.remove(i);
        retired.signal_stop();
        retired
    }

    /// Apply one lifecycle command.
    ///
    /// The registry's contents change exactly as `spec_apply` says: `Create`
    /// inserts a runner, replacing any existing one for the same identifier;
    /// `Update` replaces the existing runner, or does nothing when there is
    /// none; `Delete` stops and removes the existing runner, or does nothing
    /// when there is none.  The outcome tells the caller which execution to
    /// terminate and whether to start a new one; every retired runner is
    /// already stopping and keeps the identifier, interval and invocation
    /// count it had.
    pub fn apply(&mut self, cmd: Command) -> (outcome: ApplyOutcome)
        requires
            old(self).wf(),
            cmd.wf(),
        ensures
            final(self).wf(),
            final(self).as_map() == spec_apply(old(self).as_map(), cmd),
            outcome is Started <==> (cmd.op is Create && !old(self).contains_id(cmd.id)),
            outcome is Replaced <==> ((cmd.op is Create || cmd.op is Update) && old(
                self,
            ).contains_id(cmd.id)),
            outcome is Removed <==> (cmd.op is Delete && old(self).contains_id(cmd.id)),
            outcome is Miss <==> ((cmd.op is Update || cmd.op is Delete) && !old(
                self,
            ).contains_id(cmd.id)),
            outcome matches ApplyOutcome::Replaced { retired } ==> retired.stopping
                && retired.id == cmd.id && retired.frequency == old(self).as_map()[cmd.id]
                && retired.invocations == old(self).jobs@[old(self).index_of(cmd.id)].invocations,
            outcome matches ApplyOutcome::Removed { retired } ==> retired.stopping && retired.id
                == cmd.id && retired.frequency == old(self).as_map()[cmd.id]
                && retired.invocations == old(self).jobs@[old(self).index_of(cmd.id)].invocations,
            outcome is Miss ==> *final(self) == *old(self),
            outcome is Started ==> final(self).jobs@ == old(self).jobs@.push(
                (Runner { id: cmd.id, frequency: cmd.frequency, stopping: false, invocations: 0 }),
            ),
            outcome is Replaced ==> final(self).jobs@ == old(self).jobs@.remove(
                old(self).index_of(cmd.id),
            ).push(
                (Runner { id: cmd.id, frequency: cmd.frequency, stopping: false, invocations: 0 }),
            ),
            outcome is Removed ==> final(self).jobs@ == old(self).jobs@.remove(
                old(self).index_of(cmd.id),
            ),
    {
        proof {
            lemma_as_map_of_wf(*old(self));
        }
        match cmd.op {
            Operation::Create | Operation::Update => {
                match self.find_index(cmd.id) {
                    Some(i) => {
                        let ghost pre = *self;
                        let retired = self.stop_and_remove(i);
                        let ghost mid = *self;
                        proof {
                            lemma_index_unique(pre, cmd.id, i as int);
                            lemma_remove_at(pre, mid, i as int);
                        }
                        self.jobs.push(Runner::new(cmd.id, cmd.frequency));
                        proof {
                            lemma_push_new(mid, *self, cmd.id, cmd.frequency);
                            assert(self.as_map() =~= pre.as_map().insert(cmd.id, cmd.frequency));
                        }
                        ApplyOutcome::Replaced { retired }
                    },
                    None => {
                        if cmd.op == Operation::Update {
                            return ApplyOutcome::Miss;
                        }
                        let ghost pre = *self;
                        self.jobs.push(Runner::new(cmd.id, cmd.frequency));
                        proof {
                            lemma_push_new(pre, *self, cmd.id, cmd.frequency);
                        }
                        ApplyOutcome::Started
                    },
                }
            },
            Operation::Delete => {
                match self.find_index(cmd.id) {
                    Some(i) => {
                        let ghost pre = *self;
                        let retired = self.stop_and_remove(i);
                        proof {
                            lemma_index_unique(pre, cmd.id, i as int);
                            lemma_remove_at(pre, *self, i as int);
                        }
                        ApplyOutcome::Removed { retired }
                    },
                    None => ApplyOutcome::Miss,
                }
            },
        }
    }
}

/// How a whole sequence of commands, applied strictly in arrival order,
/// transforms the registry's contents.
pub open spec fn spec_apply_all(m: Map<usize, u64>, cmds: Seq<Command>) -> Map<usize, u64>
    decreases cmds.len(),
{
    if cmds.len() == 0 {
        m
    } else {
        spec_apply_all(spec_apply(m, cmds.first()), cmds.drop_first())
    }
}

impl Registry {
    /// Whether feed `id` currently has a live runner: the read-only
    /// diagnostic view of the registry.
    pub fn is_active(&self, id: usize) -> (r: bool)
        ensures
            r == self.contains_id(id),
    {
        self.find_index(id).is_some()
    }

    /// Apply a batch of lifecycle commands strictly in order, each one fully
    /// applied before the next — the scheduler loop's discipline.
    ///
    /// Whatever the sequence of create, update and delete commands, the
    /// registry stays well formed after every single step: at no observable
    /// instant does any feed identifier have more than one runner, and the
    /// final contents are exactly the order-respecting fold of the commands.
    pub fn apply_all(&mut self, cmds: &Vec<Command>)
        requires
            old(self).wf(),
            forall|i: int| 0 <= i < cmds@.len() ==> (#[trigger] cmds@[i]).wf(),
        ensures
            final(self).wf(),
            final(self).as_map() == spec_apply_all(old(self).as_map(), cmds@),
    {
        let ghost m0 = self.as_map();
        proof {
            assert(cmds@.skip(0) =~= cmds@);
        }
        let mut i: usize = 0;
        while i < cmds.len()
            invariant
                i <= cmds@.len(),
                self.wf(),
                forall|k: int| 0 <= k < cmds@.len() ==> (#[trigger] cmds@[k]).wf(),
                spec_apply_all(m0, cmds@) == spec_apply_all(self.as_map(), cmds@.skip(i as int)),
            decreases cmds@.len() - i,
        {
            let ghost pre_map = self.as_map();
            let ghost rest = cmds@.skip(i as int);
            self.apply(cmds[i]);
            proof {
                assert(rest.first() == cmds@[i as int]);
                assert(rest.drop_first() =~= cmds@.skip(i as int + 1));
                assert(spec_apply_all(pre_map, rest) == spec_apply_all(
                    self.as_map(),
                    cmds@.skip(i as int + 1),
                ));
            }
            i = i + 1;
        }
        proof {
            assert(cmds@.skip(cmds@.len() as int) =~= Seq::<Command>::empty());
        }
    }
}

/// One observable event of a runner's polling loop.
#[derive(Clone, Copy, Debug, PartialEq, Eq, Structural)]
pub enum RunnerEvent {
    /// The work function is invoked once.
    Invocation,
    /// The runner waits one polling interval.
    Wait,
}

/// The events a runner's polling loop produces, one work outcome per cycle:
/// each cycle observes the stop signal, and — when it is not set — invokes
/// the work function (whatever its outcome, success or failure) and then
/// waits one interval.  Once the stop signal is observed the loop produces
/// nothing further.
pub open spec fn runner_events(stopping: bool, outcomes: Seq<bool>) -> Seq<RunnerEvent>
    decreases outcomes.len(),
{
    if stopping || outcomes.len() == 0 {
        Seq::empty()
    } else {
        seq![RunnerEvent::Invocation, RunnerEvent::Wait] + runner_events(
            stopping,
            outcomes.drop_first(),
        )
    }
}

/// How many of the events are invocations of the work function.
pub open spec fn invocation_count(evs: Seq<RunnerEvent>) -> nat
    decreases evs.len(),
{
    if evs.len() == 0 {
        0
    } else {
        invocation_count(evs.drop_first()) + if evs.first() is Invocation {
            1nat
        } else {
            0nat
        }
    }
}

/// Once a runner observes its stop signal, its loop produces no event at
/// all: in particular the work function is never invoked again, whatever
/// outcomes later cycles would have had.
pub proof fn lemma_stop_halts_all_invocations(outcomes: Seq<bool>)
    ensures
        runner_events(true, outcomes) == Seq::<RunnerEvent>::empty(),
        invocation_count(runner_events(true, outcomes)) == 0,
{
}

/// A runner that has not been signalled to stop begins with an invocation:
/// the first event of its loop is `Invocation`, never a `Wait`.  A newly
/// created job therefore runs at once instead of sleeping one full interval
/// first.
pub proof fn lemma_first_event_is_invocation(outcomes: Seq<bool>)
    requires
        outcomes.len() > 0,
    ensures
        runner_events(false, outcomes).len() > 0,
        runner_events(false, outcomes).first() is Invocation,
{
}

/// Work failures do not break the cadence: over any cycle outcomes — all
/// failures included — a runner that is not stopping invokes the work
/// function exactly once per cycle.
pub proof fn lemma_cadence_survives_failures(outcomes: Seq<bool>)
    ensures
        invocation_count(runner_events(false, outcomes)) == outcomes.len(),
    decreases outcomes.len(),
{
    if outcomes.len() > 0 {
        let rest = runner_events(false, outcomes.drop_first());
        let evs = runner_events(false, outcomes);
        lemma_cadence_survives_failures(outcomes.drop_first());
        assert(evs == seq![RunnerEvent::Invocation, RunnerEvent::Wait] + rest);
        assert(evs.len() == 2 + rest.len());
        assert(evs.first() == RunnerEvent::Invocation);
        assert(evs.drop_first() =~= seq![RunnerEvent::Wait] + rest);
        assert(evs.drop_first().first() == RunnerEvent::Wait);
        assert(evs.drop_first().drop_first() =~= rest);
        assert(invocation_count(evs.drop_first()) == invocation_count(rest));
        assert(invocation_count(evs) == 1 + invocation_count(rest));
    }
}

/// No two runners in a well-formed registry poll the same feed: whatever
/// sequence of lifecycle commands built the registry — `new` establishes the
/// invariant and `apply` preserves it — there is at most one live runner per
/// feed identifier at any instant.
pub proof fn lemma_single_runner_per_id(r: Registry, i: int, j: int)
    requires
        r.wf(),
        0 <= i < r.jobs@.len(),
        0 <= j < r.jobs@.len(),
        i != j,
    ensures
        r.jobs@[i].id != r.jobs@[j].id,
{
}

/// In a well-formed registry the runner for an identifier sits at exactly one
/// position: any position whose runner carries the identifier is the one that
/// `index_of` denotes.
proof fn lemma_index_unique(r: Registry, id: usize, i: int)
    requires
        r.wf(),
        0 <= i < r.jobs@.len(),
        r.jobs@[i].id == id,
    ensures
        r.contains_id(id),
        r.index_of(id) == i,
        r.frequency_of(id) == r.jobs@[i].frequency,
{
    assert(r.contains_id(id));
    let j = r.index_of(id);
    assert(0 <= j < r.jobs@.len() && r.jobs@[j].id == id);
    if i < j {
        assert(r.jobs@[i].id != r.jobs@[j].id);
    } else if j < i {
        assert(r.jobs@[j].id != r.jobs@[i].id);
    }
}

/// The abstract map of a well-formed registry contains exactly the
/// identifiers of its runners, each at that runner's interval.
proof fn lemma_as_map_of_wf(r: Registry)
    requires
        r.wf(),
    ensures
        forall|id: usize| #[trigger] r.as_map().dom().contains(id) <==> r.contains_id(id),
        forall|i: int|
            0 <= i < r.jobs@.len() ==> r.as_map().dom().contains((#[trigger] r.jobs@[i]).id)
                && r.as_map()[r.jobs@[i].id] == r.jobs@[i].frequency,
{
    assert forall|i: int| 0 <= i < r.jobs@.len() implies r.as_map().dom().contains(
        (#[trigger] r.jobs@[i]).id,
    ) && r.as_map()[r.jobs@[i].id] == r.jobs@[i].frequency by {
        lemma_index_unique(r, r.jobs@[i].id, i);
    }
}

/// Appending a runner for a fresh identifier keeps the registry well formed
/// and inserts that identifier into the abstract map.
proof fn lemma_push_new(pre: Registry, post: Registry, id: usize, freq: u64)
    requires
        pre.wf(),
        !pre.contains_id(id),
        freq > 0,
        post.jobs@ == pre.jobs@.push(
            (Runner { id, frequency: freq, stopping: false, invocations: 0 }),
        ),
    ensures
        post.wf(),
        post.as_map() == pre.as_map().insert(id, freq),
{
    let n = pre.jobs@.len() as int;
    assert forall|i: int, j: int| 0 <= i < j < post.jobs@.len() implies (
    #[trigger] post.jobs@[i]).id != (#[trigger] post.jobs@[j]).id by {
        if j < n {
            assert(pre.jobs@[i].id != pre.jobs@[j].id);
        } else {
            assert(post.jobs@[j].id == id);
            assert(post.jobs@[i] == pre.jobs@[i]);
            if pre.jobs@[i].id == id {
                assert(pre.contains_id(id));
            }
        }
    }
    assert(post.wf());
    lemma_as_map_of_wf(pre);
    lemma_as_map_of_wf(post);
    assert(post.as_map() =~= pre.as_map().insert(id, freq)) by {
        assert forall|k: usize| #[trigger] post.as_map().dom().contains(k) implies pre.as_map()
            .insert(id, freq).dom().contains(k) && post.as_map()[k] == pre.as_map().insert(
            id,
            freq,
        )[k] by {
            let i = choose|i: int| 0 <= i < post.jobs@.len() && post.jobs@[i].id == k;
            lemma_index_unique(post, k, i);
            if i < n {
                assert(pre.jobs@[i].id == k);
                lemma_index_unique(pre, k, i);
                assert(k != id);
            } else {
                assert(k == id);
            }
        }
        assert forall|k: usize| pre.as_map().insert(id, freq).dom().contains(
            k,
        ) implies #[trigger] post.as_map().dom().contains(k) by {
            if k == id {
                assert(post.jobs@[n].id == id);
                lemma_index_unique(post, k, n);
            } else {
                let i = choose|i: int| 0 <= i < pre.jobs@.len() && pre.jobs@[i].id == k;
                assert(post.jobs@[i].id == k);
                lemma_index_unique(post, k, i);
            }
        }
    }
}

/// Removing the runner at one position keeps the registry well formed and
/// removes exactly that runner's identifier from the abstract map.
proof fn lemma_remove_at(pre: Registry, post: Registry, i: int)
    requires
        pre.wf(),
        0 <= i < pre.jobs@.len(),
        post.jobs@ == pre.jobs@.remove(i),
    ensures
        post.wf(),
        !post.contains_id(pre.jobs@[i].id),
        post.as_map() == pre.as_map().remove(pre.jobs@[i].id),
{
    let n = pre.jobs@.len() as int;
    let rid = pre.jobs@[i].id;
    assert forall|a: int, b: int| 0 <= a < b < post.jobs@.len() implies (
    #[trigger] post.jobs@[a]).id != (#[trigger] post.jobs@[b]).id by {
        let a0 = if a < i { a } else { a + 1 };
        let b0 = if b < i { b } else { b + 1 };
        assert(post.jobs@[a] == pre.jobs@[a0]);
        assert(post.jobs@[b] == pre.jobs@[b0]);
        assert(pre.jobs@[a0].id != pre.jobs@[b0].id);
    }
    assert forall|a: int| 0 <= a < post.jobs@.len() implies !(#[trigger] post.jobs@[a]).stopping
        && post.jobs@[a].frequency > 0 by {
        let a0 = if a < i { a } else { a + 1 };
        assert(post.jobs@[a] == pre.jobs@[a0]);
    }
    assert(post.wf());
    assert forall|a: int| 0 <= a < post.jobs@.len() implies (#[trigger] post.jobs@[a]).id
        != rid by {
        let a0 = if a < i { a } else { a + 1 };
        assert(post.jobs@[a] == pre.jobs@[a0]);
        if a0 < i {
            assert(pre.jobs@[a0].id != pre.jobs@[i].id);
        } else {
            assert(pre.jobs@[i].id != pre.jobs@[a0].id);
        }
    }
    lemma_as_map_of_wf(pre);
    lemma_as_map_of_wf(post);
    assert(post.as_map() =~= pre.as_map().remove(rid)) by {
        assert forall|k: usize| #[trigger] post.as_map().dom().contains(k) implies pre.as_map()
            .remove(rid).dom().contains(k) && post.as_map()[k] == pre.as_map().remove(rid)[k] by {
            let a = choose|a: int| 0 <= a < post.jobs@.len() && post.jobs@[a].id == k;
            lemma_index_unique(post, k, a);
            let a0 = if a < i { a } else { a + 1 };
            assert(post.jobs@[a] == pre.jobs@[a0]);
            lemma_index_unique(pre, k, a0);
            assert(k != rid);
        }
        assert forall|k: usize| pre.as_map().remove(rid).dom().contains(
            k,
        ) implies #[trigger] post.as_map().dom().contains(k) by {
            let a0 = choose|a0: int| 0 <= a0 < pre.jobs@.len() && pre.jobs@[a0].id == k;
            lemma_index_unique(pre, k, a0);
            if a0 < i {
                assert(post.jobs@[a0] == pre.jobs@[a0]);
            } else if a0 > i {
                assert(post.jobs@[a0 - 1] == pre.jobs@[a0]);
            }
        }
    }
}

} // verus!
