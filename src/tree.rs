//! The process tree of a match set: which match is the root, and which
//! processes of the snapshot descend from it.
use vstd::prelude::*;
use vstd::set_lib::{lemma_int_range, lemma_len_subset, set_int_range};
use crate::process::{pids_unique, ProcessRecord, ProcessSnapshot};

verus! {

/// The parent of `ms[i]` is itself one of `ms`.
pub open spec fn parent_listed(ms: Seq<ProcessRecord>, i: int) -> bool {
    ms[i].parent matches Some(p) && exists|j: int| 0 <= j < ms.len() && #[trigger] ms[j].pid == p
}

/// Some record of `ms` has no parent among `ms`.
pub open spec fn has_top(ms: Seq<ProcessRecord>) -> bool {
    exists|i: int| 0 <= i < ms.len() && !#[trigger] parent_listed(ms, i)
}

/// `ms[i]` may be chosen as root: it has no parent among `ms`, or every
/// record does have one there, so that parentage cannot decide.
pub open spec fn root_candidate(ms: Seq<ProcessRecord>, i: int) -> bool {
    0 <= i < ms.len() && (!has_top(ms) || !parent_listed(ms, i))
}

/// `ms[k]` is the root: the candidate with the most memory, the first one
/// on a tie.
pub open spec fn is_root_index(ms: Seq<ProcessRecord>, k: int) -> bool {
    &&& root_candidate(ms, k)
    &&& forall|j: int| #[trigger] root_candidate(ms, j) ==> ms[j].memory <= ms[k].memory
    &&& forall|j: int| 0 <= j < k && #[trigger] root_candidate(ms, j) ==> ms[j].memory < ms[k].memory
}

/// The position of the root among `ms`.
pub open spec fn root_index(ms: Seq<ProcessRecord>) -> int {
    choose|k: int| is_root_index(ms, k)
}

/// At most one position is the root.
pub proof fn lemma_root_index_unique(ms: Seq<ProcessRecord>, k: int)
    requires
        is_root_index(ms, k),
    ensures
        root_index(ms) == k,
{
    let c = root_index(ms);
    assert(is_root_index(ms, c));
    if c < k {
        assert(ms[c].memory < ms[k].memory);
    } else if k < c {
        assert(ms[k].memory < ms[c].memory);
    }
}

fn parent_is_listed(ms: &Vec<ProcessRecord>, i: usize) -> (r: bool)
    requires
        i < ms@.len(),
    ensures
        r == parent_listed(ms@, i as int),
{
    match ms[i].parent {
        None => false,
        Some(p) => {
            let mut j: usize = 0;
            while j < ms.len()
                invariant
                    i < ms@.len(),
                    j <= ms@.len(),
                    ms@[i as int].parent == Some(p),
                    forall|k: int| 0 <= k < j ==> #[trigger] ms@[k].pid != p,
                decreases ms.len() - j,
            {
                if ms[j].pid == p {
                    return true;
                }
                j += 1;
            }
            false
        },
    }
}

/// The position of the root among a non-empty list of matches.
pub fn select_root(ms: &Vec<ProcessRecord>) -> (k: usize)
    requires
        ms@.len() > 0,
    ensures
        is_root_index(ms@, k as int),
        k as int == root_index(ms@),
{
    let n = ms.len();
    let mut top = false;
    let mut i: usize = 0;
    while i < n
        invariant
            n == ms@.len(),
            i <= n,
            top <==> exists|j: int| 0 <= j < i && !#[trigger] parent_listed(ms@, j),
        decreases n - i,
    {
        if !parent_is_listed(ms, i) {
            top = true;
        }
        i += 1;
    }
    assert(top == has_top(ms@));
    let mut best: usize = n;
    let mut i: usize = 0;
    while i < n
        invariant
            n == ms@.len(),
            i <= n,
            top == has_top(ms@),
            best == n ==> forall|j: int| 0 <= j < i ==> !#[trigger] root_candidate(ms@, j),
            best < n ==> {
                &&& best < i
                &&& root_candidate(ms@, best as int)
                &&& forall|j: int| 0 <= j < i && #[trigger] root_candidate(ms@, j)
                    ==> ms@[j].memory <= ms@[best as int].memory
                &&& forall|j: int| 0 <= j < best && #[trigger] root_candidate(ms@, j)
                    ==> ms@[j].memory < ms@[best as int].memory
            },
            best <= n,
        decreases n - i,
    {
        let candidate = !top || !parent_is_listed(ms, i);
        if candidate && (best == n || ms[i].memory > ms[best].memory) {
            best = i;
        }
        i += 1;
    }
    proof {
        if best == n {
            if top {
                let j = choose|j: int| 0 <= j < n && !#[trigger] parent_listed(ms@, j);
                assert(root_candidate(ms@, j));
            }
            assert(root_candidate(ms@, 0));
        }
    }
    proof {
        lemma_root_index_unique(ms@, best as int);
    }
    best
}

/// `pid` is reached from `root` in at most `n` parent links, each through
/// a record of `recs`.
pub open spec fn descends_within(recs: Seq<ProcessRecord>, root: u32, pid: u32, n: nat) -> bool
    decreases n,
{
    n > 0 && exists|i: int|
        0 <= i < recs.len() && #[trigger] recs[i].pid == pid && (recs[i].parent == Some(root) || (
        recs[i].parent matches Some(q) && descends_within(recs, root, q, (n - 1) as nat)))
}

/// `pid` is a descendant of `root` among the live processes `recs`.
pub open spec fn is_descendant(recs: Seq<ProcessRecord>, root: u32, pid: u32) -> bool {
    pid != root && exists|n: nat| descends_within(recs, root, pid, n)
}

/// The identifiers of the descendants of `root` in `recs`, in the order of
/// `recs`.
pub open spec fn descendant_pids(recs: Seq<ProcessRecord>, root: u32) -> Seq<u32> {
    recs.filter(|r: ProcessRecord| is_descendant(recs, root, r.pid)).map_values(
        |r: ProcessRecord| r.pid,
    )
}

/// A list of distinct 32-bit identifiers has at most 2^32 entries.
pub proof fn lemma_distinct_pids_bound(s: Seq<u32>)
    requires
        s.no_duplicates(),
    ensures
        s.len() <= 0x1_0000_0000,
{
    let t = s.map_values(|x: u32| x as int);
    assert forall|i: int, j: int| 0 <= i < t.len() && 0 <= j < t.len() && i != j implies t[i]
        != t[j] by {
        assert(s[i] != s[j]);
    }
    assert(t.no_duplicates());
    t.unique_seq_to_set();
    lemma_int_range(0, 0x1_0000_0000);
    assert forall|x: int| t.to_set().contains(x) implies set_int_range(0, 0x1_0000_0000).contains(
        x,
    ) by {
        let i = choose|i: int| 0 <= i < t.len() && t[i] == x;
        assert(t[i] == s[i] as int);
    }
    lemma_len_subset(t.to_set(), set_int_range(0, 0x1_0000_0000));
}

} // verus!

verus! {

spec fn count_true(s: Seq<bool>) -> nat
    decreases s.len(),
{
    if s.len() == 0 {
        0
    } else {
        count_true(s.drop_last()) + if s.last() {
            1nat
        } else {
            0nat
        }
    }
}

proof fn lemma_count_true_set(s: Seq<bool>, i: int)
    requires
        0 <= i < s.len(),
        !s[i],
    ensures
        count_true(s.update(i, true)) == count_true(s) + 1,
    decreases s.len(),
{
    if i == s.len() - 1 {
        assert(s.update(i, true).drop_last() =~= s.drop_last());
    } else {
        lemma_count_true_set(s.drop_last(), i);
        assert(s.update(i, true).drop_last() =~= s.drop_last().update(i, true));
    }
}

proof fn lemma_count_true_bound(s: Seq<bool>)
    ensures
        count_true(s) <= s.len(),
    decreases s.len(),
{
    if s.len() > 0 {
        lemma_count_true_bound(s.drop_last());
    }
}

/// Some record marked in `taken` carries the identifier `q`.
spec fn pid_taken(recs: Seq<ProcessRecord>, taken: Seq<bool>, q: u32) -> bool {
    exists|j: int| 0 <= j < recs.len() && taken[j] && #[trigger] recs[j].pid == q
}

/// `recs[k]` is not the root, is not marked, and its parent is the root or
/// a marked record.
spec fn joins(recs: Seq<ProcessRecord>, root: u32, taken: Seq<bool>, k: int) -> bool {
    &&& !taken[k]
    &&& recs[k].pid != root
    &&& (recs[k].parent == Some(root) || (recs[k].parent matches Some(q) && pid_taken(
        recs,
        taken,
        q,
    )))
}

spec fn marks_sound(recs: Seq<ProcessRecord>, root: u32, taken: Seq<bool>) -> bool {
    forall|i: int|
        0 <= i < recs.len() && #[trigger] taken[i] ==> is_descendant(recs, root, recs[i].pid)
}

proof fn lemma_extend(recs: Seq<ProcessRecord>, root: u32, i: int)
    requires
        0 <= i < recs.len(),
        recs[i].pid != root,
        recs[i].parent == Some(root) || (recs[i].parent matches Some(q) && is_descendant(
            recs,
            root,
            q,
        )),
    ensures
        is_descendant(recs, root, recs[i].pid),
{
    let pid = recs[i].pid;
    if recs[i].parent == Some(root) {
        assert(descends_within(recs, root, pid, 1));
    } else {
        let q = recs[i].parent->Some_0;
        let m = choose|m: nat| descends_within(recs, root, q, m);
        assert(((m + 1) - 1) as nat == m);
        assert(descends_within(recs, root, pid, m + 1));
    }
}

proof fn lemma_closed_complete(
    recs: Seq<ProcessRecord>,
    root: u32,
    taken: Seq<bool>,
    pid: u32,
    n: nat,
)
    requires
        taken.len() == recs.len(),
        forall|k: int| 0 <= k < recs.len() ==> !#[trigger] joins(recs, root, taken, k),
        descends_within(recs, root, pid, n),
        pid != root,
    ensures
        pid_taken(recs, taken, pid),
    decreases n,
{
    let i = choose|i: int|
        0 <= i < recs.len() && #[trigger] recs[i].pid == pid && (recs[i].parent == Some(root) || (
        recs[i].parent matches Some(q) && descends_within(recs, root, q, (n - 1) as nat)));
    assert(!joins(recs, root, taken, i));
    if !taken[i] {
        let q = recs[i].parent->Some_0;
        if q != root {
            lemma_closed_complete(recs, root, taken, q, (n - 1) as nat);
        }
    }
}

/// Some record before position `i` carries the identifier `x`.
spec fn pid_before(recs: Seq<ProcessRecord>, i: int, x: u32) -> bool {
    exists|j: int| 0 <= j < i && #[trigger] recs[j].pid == x
}

fn is_pid_taken(snapshot: &ProcessSnapshot, taken: &Vec<bool>, q: u32) -> (r: bool)
    requires
        taken@.len() == snapshot@.len(),
    ensures
        r == pid_taken(snapshot@, taken@, q),
{
    let n = snapshot.len();
    let mut j: usize = 0;
    while j < n
        invariant
            n == snapshot@.len() == taken@.len(),
            j <= n,
            forall|k: int| 0 <= k < j && taken@[k] ==> #[trigger] snapshot@[k].pid != q,
        decreases n - j,
    {
        if taken[j] && snapshot.record(j).pid == q {
            return true;
        }
        j += 1;
    }
    false
}

fn can_join(snapshot: &ProcessSnapshot, root: u32, taken: &Vec<bool>, k: usize) -> (r: bool)
    requires
        taken@.len() == snapshot@.len(),
        k < snapshot@.len(),
    ensures
        r == joins(snapshot@, root, taken@, k as int),
{
    let rec = snapshot.record(k);
    if taken[k] || rec.pid == root {
        return false;
    }
    match rec.parent {
        None => false,
        Some(q) => q == root || is_pid_taken(snapshot, taken, q),
    }
}

/// The identifiers of all processes of `snapshot` that descend from `root`
/// through parent links, in snapshot order; `root` itself is not among them.
pub fn descendants(snapshot: &ProcessSnapshot, root: u32) -> (r: Vec<u32>)
    ensures
        r@ == descendant_pids(snapshot@, root),
        r@.no_duplicates(),
{
    let n = snapshot.len();
    let ghost recs = snapshot@;
    let mut taken: Vec<bool> = Vec::new();
    let mut i: usize = 0;
    while i < n
        invariant
            n == recs.len(),
            i <= n,
            taken@ =~= Seq::new(i as nat, |k: int| false),
        decreases n - i,
    {
        taken.push(false);
        i += 1;
    }
    proof {
        lemma_count_true_bound(taken@);
    }
    loop
        invariant
            n == recs.len() == taken@.len(),
            recs == snapshot@,
            marks_sound(recs, root, taken@),
            count_true(taken@) <= n,
        ensures
            n == recs.len() == taken@.len(),
            marks_sound(recs, root, taken@),
            forall|j: int| 0 <= j < n ==> !#[trigger] joins(recs, root, taken@, j),
        decreases n - count_true(taken@),
    {
        let ghost before = taken@;
        let mut changed = false;
        let mut k: usize = 0;
        while k < n
            invariant
                n == recs.len() == taken@.len(),
                recs == snapshot@,
                k <= n,
                marks_sound(recs, root, taken@),
                changed ==> count_true(taken@) > count_true(before),
                !changed ==> taken@ == before,
                !changed ==> forall|j: int| 0 <= j < k ==> !#[trigger] joins(recs, root, taken@, j),
            decreases n - k,
        {
            if can_join(snapshot, root, &taken, k) {
                proof {
                    let rec = recs[k as int];
                    if rec.parent != Some(root) {
                        let q = rec.parent->Some_0;
                        let j = choose|j: int| 0 <= j < recs.len() && taken@[j] && #[trigger] recs[j].pid == q;
                        assert(is_descendant(recs, root, recs[j].pid));
                    }
                    lemma_extend(recs, root, k as int);
                    lemma_count_true_set(taken@, k as int);
                }
                taken.set(k, true);
                changed = true;
            }
            k += 1;
        }
        proof {
            lemma_count_true_bound(taken@);
        }
        if !changed {
            break;
        }
    }
    let mut out: Vec<u32> = Vec::new();
    let mut i: usize = 0;
    while i < n
        invariant
            n == recs.len() == taken@.len(),
            recs == snapshot@,
            pids_unique(recs),
            i <= n,
            marks_sound(recs, root, taken@),
            forall|j: int| 0 <= j < n ==> !#[trigger] joins(recs, root, taken@, j),
            out@ == recs.take(i as int).filter(|r: ProcessRecord| is_descendant(recs, root, r.pid)).map_values(
                |r: ProcessRecord| r.pid,
            ),
            out@.no_duplicates(),
            forall|k: int| 0 <= k < out@.len() ==> pid_before(recs, i as int, #[trigger] out@[k]),
        decreases n - i,
    {
        let pid = snapshot.record(i).pid;
        let ghost pred = |r: ProcessRecord| is_descendant(recs, root, r.pid);
        let ghost pick = |r: ProcessRecord| r.pid;
        proof {
            reveal(Seq::filter);
            assert(recs.take(i + 1).drop_last() =~= recs.take(i as int));
            if is_descendant(recs, root, pid) {
                let m = choose|m: nat| descends_within(recs, root, pid, m);
                lemma_closed_complete(recs, root, taken@, pid, m);
                let j = choose|j: int| 0 <= j < recs.len() && taken@[j] && #[trigger] recs[j].pid == pid;
                assert(j == i);
            }
            let f = recs.take(i as int).filter(pred);
            assert(f.push(recs[i as int]).map_values(pick) =~= f.map_values(pick).push(pid));
        }
        if taken[i] {
            proof {
                assert forall|k: int| 0 <= k < out@.len() implies #[trigger] out@[k] != pid by {
                    assert(pid_before(recs, i as int, out@[k]));
                }
            }
            out.push(pid);
            proof {
                assert forall|k: int| 0 <= k < out@.len() implies pid_before(
                    recs,
                    i + 1,
                    #[trigger] out@[k],
                ) by {
                    if k < out@.len() - 1 {
                        assert(pid_before(recs, i as int, out@[k]));
                    } else {
                        assert(recs[i as int].pid == out@[k]);
                    }
                }
            }
        }
        i += 1;
    }
    assert(recs.take(n as int) =~= recs);
    out
}

} // verus!
