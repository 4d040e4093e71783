//! Terminating a matched process tree: the root first, its exit confirmed,
//! then every descendant. The work itself (signals, waiting) is done by the
//! caller; this state machine decides what comes next.
use vstd::prelude::*;
use crate::process::{ProcessRecord, ProcessSnapshot};
use crate::tree::{descendant_pids, descendants, lemma_distinct_pids_bound, root_index, select_root};

verus! {

/// What a finished request comes to.
pub enum TerminationOutcome {
    /// Nothing matched the pattern.
    NotFound,
    /// The root and every descendant were terminated.
    Terminated { killed_count: u64 },
    /// The root was terminated but the descendants in `failed` were not.
    PartialChildFailure { killed_count: u64, failed: Vec<u32> },
    /// The root could not be terminated; no descendant was touched.
    RootTerminationFailed { pid: u32 },
}

/// The mathematical content of a [`TerminationOutcome`].
pub enum OutcomeView {
    NotFound,
    Terminated { killed_count: nat },
    PartialChildFailure { killed_count: nat, failed: Seq<u32> },
    RootTerminationFailed { pid: u32 },
}

impl OutcomeView {
    /// The number of processes terminated: zero where nothing was.
    pub open spec fn killed(self) -> nat {
        match self {
            OutcomeView::Terminated { killed_count } => killed_count,
            OutcomeView::PartialChildFailure { killed_count, .. } => killed_count,
            _ => 0,
        }
    }
}

impl View for TerminationOutcome {
    type V = OutcomeView;

    open spec fn view(&self) -> OutcomeView {
        match self {
            TerminationOutcome::NotFound => OutcomeView::NotFound,
            TerminationOutcome::Terminated { killed_count } => OutcomeView::Terminated {
                killed_count: *killed_count as nat,
            },
            TerminationOutcome::PartialChildFailure { killed_count, failed } => {
                OutcomeView::PartialChildFailure { killed_count: *killed_count as nat, failed: failed@ }
            },
            TerminationOutcome::RootTerminationFailed { pid } => {
                OutcomeView::RootTerminationFailed { pid: *pid }
            },
        }
    }
}

impl TerminationOutcome {
    /// The number of processes terminated: zero where nothing was.
    pub fn killed_count(&self) -> (r: u64)
        ensures
            r == self@.killed(),
    {
        match self {
            TerminationOutcome::Terminated { killed_count } => *killed_count,
            TerminationOutcome::PartialChildFailure { killed_count, .. } => *killed_count,
            _ => 0,
        }
    }
}

/// Where a termination request stands.
#[derive(PartialEq, Eq, Structural, Clone, Copy, Debug)]
pub enum Stage {
    /// The root is to be signalled.
    KillRoot,
    /// The root was signalled; its exit is to be confirmed.
    AwaitRoot,
    /// The root is gone; descendants are signalled one by one.
    Children,
    /// The root could not be terminated.
    RootFailed,
}

/// The next step the caller is to carry out.
#[derive(PartialEq, Eq, Structural, Clone, Copy, Debug)]
pub enum TermAction {
    /// Signal this process to terminate and report whether that succeeded.
    Kill(u32),
    /// Wait for this process to exit and report whether it did.
    AwaitExit(u32),
    /// Nothing is left to do: the outcome is ready.
    Finished,
}

/// The mathematical state of a termination request.
pub struct TermState {
    pub root: u32,
    pub children: Seq<u32>,
    pub stage: Stage,
    /// How many descendants have been dealt with.
    pub next: nat,
    /// Descendants whose termination failed, in the order tried.
    pub failed: Seq<u32>,
    /// How many descendants were terminated.
    pub succeeded: nat,
    /// Every process signalled so far, in order.
    pub signaled: Seq<u32>,
}

/// The state in which a request against `recs` and the matches `ms` starts.
pub open spec fn initial(recs: Seq<ProcessRecord>, ms: Seq<ProcessRecord>) -> TermState {
    let root = ms[root_index(ms)].pid;
    TermState {
        root,
        children: descendant_pids(recs, root),
        stage: Stage::KillRoot,
        next: 0,
        failed: Seq::empty(),
        succeeded: 0,
        signaled: Seq::empty(),
    }
}

pub open spec fn finished(s: TermState) -> bool {
    s.stage == Stage::RootFailed || (s.stage == Stage::Children && s.next >= s.children.len())
}

/// What the caller is asked to do in state `s`.
pub open spec fn action_of(s: TermState) -> TermAction {
    match s.stage {
        Stage::KillRoot => TermAction::Kill(s.root),
        Stage::AwaitRoot => TermAction::AwaitExit(s.root),
        Stage::Children => if s.next < s.children.len() {
            TermAction::Kill(s.children[s.next as int])
        } else {
            TermAction::Finished
        },
        Stage::RootFailed => TermAction::Finished,
    }
}

/// The state after the caller reports `ok` for the step asked in `s`.
pub open spec fn fed(s: TermState, ok: bool) -> TermState {
    if finished(s) {
        s
    } else {
        match s.stage {
            Stage::KillRoot => TermState {
                stage: if ok {
                    Stage::AwaitRoot
                } else {
                    Stage::RootFailed
                },
                signaled: s.signaled.push(s.root),
                ..s
            },
            Stage::AwaitRoot => TermState {
                stage: if ok {
                    Stage::Children
                } else {
                    Stage::RootFailed
                },
                ..s
            },
            _ => {
                let pid = s.children[s.next as int];
                TermState {
                    next: s.next + 1,
                    succeeded: if ok {
                        s.succeeded + 1
                    } else {
                        s.succeeded
                    },
                    failed: if ok {
                        s.failed
                    } else {
                        s.failed.push(pid)
                    },
                    signaled: s.signaled.push(pid),
                    ..s
                }
            },
        }
    }
}

/// The state after the caller reports each of `oks` in turn.
pub open spec fn run(s: TermState, oks: Seq<bool>) -> TermState
    decreases oks.len(),
{
    if oks.len() == 0 {
        s
    } else {
        fed(run(s, oks.drop_last()), oks.last())
    }
}

/// The outcome of a finished request.
pub open spec fn outcome_of(s: TermState) -> OutcomeView {
    if s.stage == Stage::RootFailed {
        OutcomeView::RootTerminationFailed { pid: s.root }
    } else if s.failed.len() == 0 {
        OutcomeView::Terminated { killed_count: 1 + s.succeeded }
    } else {
        OutcomeView::PartialChildFailure { killed_count: 1 + s.succeeded, failed: s.failed }
    }
}

fn copy_pids(v: &Vec<u32>) -> (r: Vec<u32>)
    ensures
        r@ == v@,
{
    let mut r: Vec<u32> = Vec::new();
    let mut i: usize = 0;
    while i < v.len()
        invariant
            i <= v@.len(),
            r@ == v@.take(i as int),
        decreases v@.len() - i,
    {
        r.push(v[i]);
        i += 1;
        assert(r@ =~= v@.take(i as int));
    }
    assert(r@ =~= v@);
    r
}

/// A termination request in progress.
pub struct Termination {
    root: u32,
    children: Vec<u32>,
    stage: Stage,
    next: usize,
    failed: Vec<u32>,
    succeeded: u64,
    signaled: Ghost<Seq<u32>>,
}

impl View for Termination {
    type V = TermState;

    closed spec fn view(&self) -> TermState {
        TermState {
            root: self.root,
            children: self.children@,
            stage: self.stage,
            next: self.next as nat,
            failed: self.failed@,
            succeeded: self.succeeded as nat,
            signaled: self.signaled@,
        }
    }
}

impl Termination {
    #[verifier::type_invariant]
    spec fn bounded(self) -> bool {
        &&& self.children@.len() <= 0x1_0000_0000
        &&& self.next <= self.children@.len()
        &&& self.succeeded <= self.next
        &&& self.stage != Stage::Children ==> self.next == 0
    }

    /// Starts a request against `snapshot` for the non-empty `matches`: picks
    /// the root and collects its descendants.
    pub fn start(snapshot: &ProcessSnapshot, matches: &Vec<ProcessRecord>) -> (t: Termination)
        requires
            matches@.len() > 0,
        ensures
            t@ == initial(snapshot@, matches@),
    {
        let k = select_root(matches);
        let root = matches[k].pid;
        let children = descendants(snapshot, root);
        proof {
            lemma_distinct_pids_bound(children@);
        }
        Termination {
            root,
            children,
            stage: Stage::KillRoot,
            next: 0,
            failed: Vec::new(),
            succeeded: 0,
            signaled: Ghost(Seq::empty()),
        }
    }

    pub fn is_finished(&self) -> (r: bool)
        ensures
            r == finished(self@),
    {
        proof {
            use_type_invariant(self);
        }
        match self.stage {
            Stage::RootFailed => true,
            Stage::Children => self.next >= self.children.len(),
            _ => false,
        }
    }

    /// The step the caller is to carry out next.
    pub fn next_action(&self) -> (a: TermAction)
        ensures
            a == action_of(self@),
    {
        match self.stage {
            Stage::KillRoot => TermAction::Kill(self.root),
            Stage::AwaitRoot => TermAction::AwaitExit(self.root),
            Stage::Children => if self.next < self.children.len() {
                TermAction::Kill(self.children[self.next])
            } else {
                TermAction::Finished
            },
            Stage::RootFailed => TermAction::Finished,
        }
    }

    /// Takes the result of the step last asked for: whether the signal was
    /// delivered, or whether the exit was observed.
    pub fn report(&mut self, ok: bool)
        requires
            !finished(old(self)@),
        ensures
            final(self)@ == fed(old(self)@, ok),
    {
        proof {
            use_type_invariant(&*self);
        }
        match self.stage {
            Stage::KillRoot => {
                self.signaled = Ghost(self.signaled@.push(self.root));
                self.stage = if ok {
                    Stage::AwaitRoot
                } else {
                    Stage::RootFailed
                };
            },
            Stage::AwaitRoot => {
                self.stage = if ok {
                    Stage::Children
                } else {
                    Stage::RootFailed
                };
            },
            _ => {
                let count = self.children.len();
                proof {
                    assert(self.next < count);
                }
                let pid = self.children[self.next];
                let next = self.next + 1;
                self.signaled = Ghost(self.signaled@.push(pid));
                self.next = next;
                if ok {
                    self.succeeded = self.succeeded + 1;
                } else {
                    let mut failed = copy_pids(&self.failed);
                    failed.push(pid);
                    self.failed = failed;
                }
            },
        }
    }

    /// The outcome of a finished request.
    pub fn outcome(&self) -> (r: TerminationOutcome)
        requires
            finished(self@),
        ensures
            r@ == outcome_of(self@),
    {
        proof {
            use_type_invariant(self);
        }
        if self.stage == Stage::RootFailed {
            TerminationOutcome::RootTerminationFailed { pid: self.root }
        } else if self.failed.len() == 0 {
            TerminationOutcome::Terminated { killed_count: self.succeeded + 1 }
        } else {
            let failed = copy_pids(&self.failed);
            TerminationOutcome::PartialChildFailure { killed_count: self.succeeded + 1, failed }
        }
    }
}

} // verus!

verus! {

/// How many of `oks` are true.
pub open spec fn count_ok(oks: Seq<bool>) -> nat
    decreases oks.len(),
{
    if oks.len() == 0 {
        0
    } else {
        count_ok(oks.drop_last()) + if oks.last() {
            1nat
        } else {
            0nat
        }
    }
}

/// The entries `children[i]` for which `oks[i]` is false, in order.
pub open spec fn failures(children: Seq<u32>, oks: Seq<bool>) -> Seq<u32>
    decreases oks.len(),
{
    if oks.len() == 0 {
        Seq::empty()
    } else if oks.last() {
        failures(children, oks.drop_last())
    } else {
        failures(children, oks.drop_last()).push(children[oks.len() - 1])
    }
}

proof fn lemma_run_append(s: TermState, a: Seq<bool>, b: Seq<bool>)
    ensures
        run(s, a + b) == run(run(s, a), b),
    decreases b.len(),
{
    if b.len() == 0 {
        assert(a + b =~= a);
    } else {
        assert((a + b).drop_last() =~= a + b.drop_last());
        lemma_run_append(s, a, b.drop_last());
    }
}

proof fn lemma_run_finished(s: TermState, oks: Seq<bool>)
    requires
        finished(s),
    ensures
        run(s, oks) == s,
    decreases oks.len(),
{
    if oks.len() > 0 {
        lemma_run_finished(s, oks.drop_last());
    }
}

proof fn lemma_run_children(s0: TermState, oks: Seq<bool>)
    requires
        s0.stage == Stage::KillRoot,
        s0.next == 0,
        s0.failed == Seq::<u32>::empty(),
        s0.succeeded == 0,
        s0.signaled == Seq::<u32>::empty(),
        2 <= oks.len() <= 2 + s0.children.len(),
        oks[0],
        oks[1],
    ensures
        ({
            let s = run(s0, oks);
            let rest = oks.subrange(2, oks.len() as int);
            &&& s.root == s0.root
            &&& s.children == s0.children
            &&& s.stage == Stage::Children
            &&& s.next == rest.len()
            &&& s.signaled == seq![s0.root] + s0.children.take(rest.len() as int)
            &&& s.succeeded == count_ok(rest)
            &&& s.failed == failures(s0.children, rest)
        }),
    decreases oks.len(),
{
    let rest = oks.subrange(2, oks.len() as int);
    if oks.len() == 2 {
        let one = oks.drop_last();
        assert(one.drop_last() =~= Seq::<bool>::empty());
        assert(run(s0, one.drop_last()) == s0);
        assert(one.last() == oks[0]);
        assert(run(s0, one) == fed(s0, oks[0]));
        assert(run(s0, oks) == fed(fed(s0, oks[0]), oks[1]));
        assert(rest =~= Seq::<bool>::empty());
        assert(seq![s0.root] + s0.children.take(0) =~= seq![s0.root]);
        assert(Seq::<u32>::empty().push(s0.root) =~= seq![s0.root]);
    } else {
        let prev = oks.drop_last();
        lemma_run_children(s0, prev);
        assert(run(s0, oks) == fed(run(s0, prev), oks.last()));
        assert(prev.subrange(2, prev.len() as int) =~= rest.drop_last());
        assert(rest.last() == oks.last());
        let k = rest.len() - 1;
        assert(s0.children.take(k + 1) =~= s0.children.take(k).push(s0.children[k]));
        assert(seq![s0.root] + s0.children.take(k + 1) =~= (seq![s0.root] + s0.children.take(
            k,
        )).push(s0.children[k]));
    }
}

/// When the root's signal and exit both succeed, every descendant of the
/// root in the snapshot is signalled, each once and after the root, and the
/// outcome counts the root plus each descendant whose signal succeeded; the
/// ones that failed are listed, and the request still counts as a success.
pub proof fn lemma_root_success_reaches_every_descendant(
    snapshot: ProcessSnapshot,
    matches: Seq<ProcessRecord>,
    oks: Seq<bool>,
)
    requires
        matches.len() > 0,
        oks.len() == 2 + descendant_pids(snapshot@, matches[root_index(matches)].pid).len(),
        oks[0],
        oks[1],
    ensures
        ({
            let root = matches[root_index(matches)].pid;
            let children = descendant_pids(snapshot@, root);
            let s = run(initial(snapshot@, matches), oks);
            let rest = oks.subrange(2, oks.len() as int);
            &&& finished(s)
            &&& s.signaled == seq![root] + children
            &&& outcome_of(s).killed() == 1 + count_ok(rest)
            &&& outcome_of(s) !is RootTerminationFailed
            &&& s.failed == failures(children, rest)
        }),
{
    let s0 = initial(snapshot@, matches);
    lemma_run_children(s0, oks);
    assert(s0.children.take(s0.children.len() as int) =~= s0.children);
}

/// When the root cannot be terminated (its signal fails, or its exit is not
/// observed), no other process is ever signalled and the outcome is the
/// root's failure, whatever is reported afterwards.
pub proof fn lemma_root_failure_spares_descendants(
    snapshot: ProcessSnapshot,
    matches: Seq<ProcessRecord>,
    oks: Seq<bool>,
)
    requires
        matches.len() > 0,
        oks.len() > 0,
        !oks[0] || (oks.len() > 1 && !oks[1]),
    ensures
        ({
            let root = matches[root_index(matches)].pid;
            let s = run(initial(snapshot@, matches), oks);
            &&& finished(s)
            &&& s.signaled == seq![root]
            &&& outcome_of(s) == OutcomeView::RootTerminationFailed { pid: root }
            &&& outcome_of(s).killed() == 0
        }),
{
    let s0 = initial(snapshot@, matches);
    let k: int = if !oks[0] {
        1
    } else {
        2
    };
    let head = oks.take(k);
    let tail = oks.skip(k);
    assert(oks =~= head + tail);
    lemma_run_append(s0, head, tail);
    if k == 1 {
        assert(head.drop_last() =~= Seq::<bool>::empty());
        assert(run(s0, head.drop_last()) == s0);
        assert(head.last() == oks[0]);
        assert(run(s0, head) == fed(s0, oks[0]));
    } else {
        let one = head.drop_last();
        assert(one.drop_last() =~= Seq::<bool>::empty());
        assert(run(s0, one.drop_last()) == s0);
        assert(one.last() == oks[0]);
        assert(run(s0, one) == fed(s0, oks[0]));
        assert(run(s0, head) == fed(fed(s0, oks[0]), oks[1]));
    }
    assert(Seq::<u32>::empty().push(s0.root) =~= seq![s0.root]);
    lemma_run_finished(run(s0, head), tail);
}

} // verus!
