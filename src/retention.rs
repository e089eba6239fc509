use vstd::prelude::*;

use crate::layout::texts;
use crate::reconcile::contains_text;

verus! {

/// Release `i` of a newest-first list is in scope: retention is unbounded,
/// or it is among the newest `n`, or it is pinned.
pub open spec fn in_scope(
    rels: Seq<Seq<char>>,
    keep: Option<usize>,
    pins: Seq<Seq<char>>,
    i: int,
) -> bool {
    match keep {
        None => true,
        Some(n) => i < n || pins.contains(rels[i]),
    }
}

/// The in-scope releases among the first `n`, in their order, each once.
pub open spec fn retained_upto(
    rels: Seq<Seq<char>>,
    keep: Option<usize>,
    pins: Seq<Seq<char>>,
    n: int,
) -> Seq<Seq<char>>
    decreases n,
{
    if n <= 0 {
        Seq::empty()
    } else {
        let p = retained_upto(rels, keep, pins, n - 1);
        if in_scope(rels, keep, pins, n - 1) && !p.contains(rels[n - 1]) {
            p.push(rels[n - 1])
        } else {
            p
        }
    }
}

pub open spec fn retained(rels: Seq<Seq<char>>, keep: Option<usize>, pins: Seq<Seq<char>>) -> Seq<
    Seq<char>,
> {
    retained_upto(rels, keep, pins, rels.len() as int)
}

/// Some release among the first `n` is in scope and equals `x`.
pub open spec fn scoped_before(
    rels: Seq<Seq<char>>,
    keep: Option<usize>,
    pins: Seq<Seq<char>>,
    n: int,
    x: Seq<char>,
) -> bool {
    exists|i: int| 0 <= i < n && in_scope(rels, keep, pins, i) && #[trigger] rels[i] == x
}

proof fn lemma_retained_upto_members(
    rels: Seq<Seq<char>>,
    keep: Option<usize>,
    pins: Seq<Seq<char>>,
    n: int,
)
    requires
        0 <= n <= rels.len(),
    ensures
        forall|x: Seq<char>|
            retained_upto(rels, keep, pins, n).contains(x) <==> scoped_before(
                rels,
                keep,
                pins,
                n,
                x,
            ),
        retained_upto(rels, keep, pins, n).no_duplicates(),
    decreases n,
{
    if n > 0 {
        lemma_retained_upto_members(rels, keep, pins, n - 1);
        let p = retained_upto(rels, keep, pins, n - 1);
        let r = retained_upto(rels, keep, pins, n);
        let y = rels[n - 1];
        let added = in_scope(rels, keep, pins, n - 1) && !p.contains(y);
        assert forall|x: Seq<char>| r.contains(x) <==> scoped_before(rels, keep, pins, n, x) by {
            if p.contains(x) {
                assert(scoped_before(rels, keep, pins, n - 1, x));
                let i = choose|i: int|
                    0 <= i < n - 1 && in_scope(rels, keep, pins, i) && #[trigger] rels[i] == x;
                assert(scoped_before(rels, keep, pins, n, x));
                let q = choose|q: int| 0 <= q < p.len() && p[q] == x;
                if added {
                    assert(r[q] == x);
                }
            }
            if added && x == y {
                assert(r[r.len() - 1] == x);
                assert(in_scope(rels, keep, pins, n - 1) && rels[n - 1] == x);
            }
            if r.contains(x) {
                let q = choose|q: int| 0 <= q < r.len() && r[q] == x;
                if added {
                    if q < p.len() {
                        assert(p[q] == x);
                    }
                } else {
                    assert(p[q] == x);
                }
            }
            if scoped_before(rels, keep, pins, n, x) {
                let i = choose|i: int|
                    0 <= i < n && in_scope(rels, keep, pins, i) && #[trigger] rels[i] == x;
                if i < n - 1 {
                    assert(scoped_before(rels, keep, pins, n - 1, x));
                }
            }
        }
        if added {
            assert forall|i: int, j: int| 0 <= i < r.len() && 0 <= j < r.len() && i != j implies r[i]
                != r[j] by {
                if i < p.len() && j < p.len() {
                } else if i < p.len() {
                    assert(p.contains(r[i]));
                } else if j < p.len() {
                    assert(p.contains(r[j]));
                }
            }
        }
    }
}

/// Retention: a release is kept exactly when some copy of it in the remote
/// list is among the newest `keep` (or retention is unbounded) or is
/// pinned; no release is kept twice.
pub proof fn lemma_retained_exactly(rels: Seq<Seq<char>>, keep: Option<usize>, pins: Seq<Seq<char>>)
    ensures
        forall|x: Seq<char>|
            retained(rels, keep, pins).contains(x) <==> scoped_before(
                rels,
                keep,
                pins,
                rels.len() as int,
                x,
            ),
        retained(rels, keep, pins).no_duplicates(),
{
    lemma_retained_upto_members(rels, keep, pins, rels.len() as int);
}

/// The releases of one channel that are in scope for download, from the
/// remote list ordered newest first: the newest `keep_latest` ones, every
/// pinned one whatever its age, each once. Without `keep_latest` all are in
/// scope. Pins that the remote list lacks are ignored.
pub fn retained_releases(
    releases: &Vec<String>,
    keep_latest: Option<usize>,
    pinned: &Vec<String>,
) -> (r: Vec<String>)
    ensures
        texts(r@) == retained(texts(releases@), keep_latest, texts(pinned@)),
{
    let ghost rels = texts(releases@);
    let ghost pins = texts(pinned@);
    let mut out: Vec<String> = Vec::new();
    let mut i: usize = 0;
    while i < releases.len()
        invariant
            i <= releases.len(),
            rels == texts(releases@),
            pins == texts(pinned@),
            texts(out@) == retained_upto(rels, keep_latest, pins, i as int),
        decreases releases.len() - i,
    {
        let rel = &releases[i];
        let wanted = match keep_latest {
            None => true,
            Some(n) => i < n || contains_text(pinned, rel),
        };
        assert(rels[i as int] == rel@);
        if wanted && !contains_text(&out, rel) {
            out.push(rel.clone());
            assert(texts(out@) =~= retained_upto(rels, keep_latest, pins, i as int).push(rel@));
        }
        i = i + 1;
    }
    assert(releases@.len() == rels.len());
    out
}

} // verus!
