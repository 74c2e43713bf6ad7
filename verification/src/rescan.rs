//! Rescan bookkeeping for the evdev reader: which `/dev/input` nodes
//! to open and which to forget.
//!
//! Re-judging a node costs an open plus a capability read, so only
//! genuinely new nodes are opened; a node that disappeared is forgotten,
//! so a device replugged onto the same node is judged afresh.

use vstd::prelude::*;

verus! {

/// `paths` as a sequence of strings.
pub open spec fn path_seq(paths: Seq<String>) -> Seq<Seq<char>> {
    paths.map_values(|p: String| p@)
}

/// The entries of `a` that `b` does not hold, in `a`'s order.
pub open spec fn missing_from(a: Seq<Seq<char>>, b: Seq<Seq<char>>) -> Seq<Seq<char>> {
    a.filter(|p: Seq<char>| !b.contains(p))
}

fn holds(paths: &Vec<String>, p: &String) -> (r: bool)
    ensures
        r == path_seq(paths@).contains(p@),
{
    let n = paths.len();
    let mut i: usize = 0;
    while i < n
        invariant
            n == paths.len(),
            0 <= i <= n,
            forall|j: int| 0 <= j < i ==> (#[trigger] paths@[j])@ != p@,
        decreases n - i,
    {
        if paths[i] == *p {
            assert(path_seq(paths@)[i as int] == p@);
            return true;
        }
        i += 1;
    }
    proof {
        if path_seq(paths@).contains(p@) {
            let j = choose|j: int| 0 <= j < path_seq(paths@).len() && path_seq(paths@)[j] == p@;
            assert(paths@[j]@ == p@);
        }
    }
    false
}

fn entries_missing_from(a: &Vec<String>, b: &Vec<String>) -> (r: Vec<String>)
    ensures
        path_seq(r@) == missing_from(path_seq(a@), path_seq(b@)),
{
    let ghost sb = path_seq(b@);
    let ghost pred = |p: Seq<char>| !sb.contains(p);
    let mut out: Vec<String> = Vec::new();
    let n = a.len();
    let mut i: usize = 0;
    assert(path_seq(a@).take(0) =~= Seq::<Seq<char>>::empty());
    proof {
        reveal_with_fuel(Seq::filter, 1);
    }
    while i < n
        invariant
            n == a.len(),
            0 <= i <= n,
            sb == path_seq(b@),
            pred == (|p: Seq<char>| !sb.contains(p)),
            path_seq(out@) == path_seq(a@).take(i as int).filter(pred),
        decreases n - i,
    {
        let ghost before = path_seq(out@);
        let ghost sa = path_seq(a@);
        proof {
            assert(sa.take(i as int + 1) =~= sa.take(i as int).push(sa[i as int]));
            sa.take(i as int).lemma_filter_push(sa[i as int], pred);
        }
        if !holds(b, &a[i]) {
            out.push(a[i].clone());
            assert(path_seq(out@) =~= before.push(sa[i as int]));
        } else {
            assert(path_seq(out@) =~= before);
        }
        i += 1;
    }
    assert(path_seq(a@).take(n as int) =~= path_seq(a@));
    out
}

/// Compare the nodes present now with the ones already known: the
/// fresh ones to open (in `present`'s order) and the vanished ones to
/// forget (in `known`'s order).
pub fn plan_rescan(present: &Vec<String>, known: &Vec<String>) -> (r: (Vec<String>, Vec<String>))
    ensures
        path_seq(r.0@) == missing_from(path_seq(present@), path_seq(known@)),
        path_seq(r.1@) == missing_from(path_seq(known@), path_seq(present@)),
{
    (entries_missing_from(present, known), entries_missing_from(known, present))
}

/// What a rescan keeps knowing: the known nodes that are still present.
pub open spec fn still_known(known: Seq<Seq<char>>, present: Seq<Seq<char>>) -> Seq<Seq<char>> {
    known.filter(|p: Seq<char>| present.contains(p))
}

/// A node already known is never reopened, and every present node not
/// yet known is.
pub proof fn lemma_fresh_exactly_unknown(present: Seq<Seq<char>>, known: Seq<Seq<char>>, p: Seq<char>)
    ensures
        missing_from(present, known).contains(p) <==> (present.contains(p) && !known.contains(p)),
{
    broadcast use vstd::seq_lib::group_filter_ensures;

    let pred = |q: Seq<char>| !known.contains(q);
    let f = present.filter(pred);
    if f.contains(p) {
        let i = choose|i: int| 0 <= i < f.len() && f[i] == p;
        assert(pred(f[i]));
        lemma_filter_subset(present, pred, i);
    }
    if present.contains(p) && !known.contains(p) {
        let i = choose|i: int| 0 <= i < present.len() && present[i] == p;
        assert(pred(present[i]));
    }
}

proof fn lemma_filter_subset(s: Seq<Seq<char>>, pred: spec_fn(Seq<char>) -> bool, i: int)
    requires
        0 <= i < s.filter(pred).len(),
    ensures
        s.contains(s.filter(pred)[i]),
    decreases s.len(),
{
    reveal_with_fuel(Seq::filter, 1);
    if s.len() > 0 {
        let d = s.drop_last();
        if pred(s.last()) && i == s.filter(pred).len() - 1 {
            assert(s[s.len() - 1] == s.last());
        } else {
            assert(s.filter(pred)[i] == d.filter(pred)[i]);
            lemma_filter_subset(d, pred, i);
            let j = choose|j: int| 0 <= j < d.len() && d[j] == d.filter(pred)[i];
            assert(s[j] == d[j]);
        }
    }
}

/// A device unplugged and plugged back onto the same node is judged
/// afresh: the rescan that misses it forgets it, so the rescan that sees
/// it again opens it.
pub proof fn lemma_replug_judged_afresh(
    known: Seq<Seq<char>>,
    present1: Seq<Seq<char>>,
    present2: Seq<Seq<char>>,
    p: Seq<char>,
)
    requires
        known.contains(p),
        !present1.contains(p),
        present2.contains(p),
    ensures
        missing_from(known, present1).contains(p),
        missing_from(present2, still_known(known, present1)).contains(p),
{
    lemma_fresh_exactly_unknown(known, present1, p);
    let kept = still_known(known, present1);
    if kept.contains(p) {
        let i = choose|i: int| 0 <= i < kept.len() && kept[i] == p;
        broadcast use vstd::seq_lib::group_filter_ensures;

        assert(present1.contains(kept[i]));
    }
    lemma_fresh_exactly_unknown(present2, kept, p);
}

} // verus!
