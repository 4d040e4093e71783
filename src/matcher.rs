//! Selecting the records of a snapshot whose names a pattern accepts.
use vstd::prelude::*;
use crate::pattern::NamePattern;
use crate::process::{ProcessRecord, ProcessSnapshot};

verus! {

/// The records of `recs` whose names `pattern` accepts, in their order.
pub open spec fn matches_of(recs: Seq<ProcessRecord>, pattern: NamePattern) -> Seq<ProcessRecord> {
    recs.filter(|r: ProcessRecord| pattern.accepts(r.name@))
}

/// The records of `snapshot` whose names `pattern` accepts, in snapshot
/// order. Nothing matching gives an empty list.
pub fn find_matches(snapshot: &ProcessSnapshot, pattern: &NamePattern) -> (r: Vec<ProcessRecord>)
    ensures
        r@ == matches_of(snapshot@, *pattern),
{
    let n = snapshot.len();
    let mut out: Vec<ProcessRecord> = Vec::new();
    let mut i: usize = 0;
    while i < n
        invariant
            n == snapshot@.len(),
            i <= n,
            out@ == matches_of(snapshot@.take(i as int), *pattern),
        decreases n - i,
    {
        let rec = snapshot.record(i);
        proof {
            reveal(Seq::filter);
            assert(snapshot@.take(i + 1).drop_last() =~= snapshot@.take(i as int));
            assert(snapshot@.take(i + 1).last() == snapshot@[i as int]);
        }
        if pattern.is_match(rec.name.as_str()) {
            out.push(rec.copied());
        }
        i += 1;
    }
    assert(snapshot@.take(n as int) =~= snapshot@);
    out
}

proof fn lemma_matches_of_twice(recs: Seq<ProcessRecord>, pattern: NamePattern)
    ensures
        matches_of(matches_of(recs, pattern), pattern) == matches_of(recs, pattern),
    decreases recs.len(),
{
    reveal(Seq::filter);
    if recs.len() > 0 {
        let rest = recs.drop_last();
        lemma_matches_of_twice(rest, pattern);
        let m = matches_of(rest, pattern);
        if pattern.accepts(recs.last().name@) {
            assert(m.push(recs.last()).drop_last() =~= m);
        }
    }
}

/// What `find_matches` returns is drawn from the snapshot, holds exactly the
/// records whose names the pattern accepts, and is left unchanged by matching
/// it against the same pattern again.
pub proof fn lemma_find_matches_selects(snapshot: ProcessSnapshot, pattern: NamePattern)
    ensures
        forall|i: int|
            0 <= i < matches_of(snapshot@, pattern).len() ==> snapshot@.contains(
                #[trigger] matches_of(snapshot@, pattern)[i],
            ) && pattern.accepts(matches_of(snapshot@, pattern)[i].name@),
        forall|i: int|
            0 <= i < snapshot@.len() && pattern.accepts(#[trigger] snapshot@[i].name@)
                ==> matches_of(snapshot@, pattern).contains(snapshot@[i]),
        matches_of(matches_of(snapshot@, pattern), pattern) == matches_of(snapshot@, pattern),
{
    let pred = |r: ProcessRecord| pattern.accepts(r.name@);
    broadcast use vstd::seq_lib::group_filter_ensures;
    lemma_matches_of_twice(snapshot@, pattern);
    assert forall|i: int|
        0 <= i < matches_of(snapshot@, pattern).len() implies snapshot@.contains(
        #[trigger] matches_of(snapshot@, pattern)[i],
    ) && pattern.accepts(matches_of(snapshot@, pattern)[i].name@) by {
        let m = snapshot@.filter(pred);
        assert(pred(m[i]));
        assert(m.contains(m[i]));
        snapshot@.lemma_filter_contains_rev(pred, m[i]);
    }
    assert forall|i: int|
        0 <= i < snapshot@.len() && pattern.accepts(#[trigger] snapshot@[i].name@)
        implies matches_of(snapshot@, pattern).contains(snapshot@[i]) by {
        assert(pred(snapshot@[i]));
    }
}

} // verus!
