//! Fuzzy scoring and stable ranking over character sequences.
//!
//! A query is split into tokens on whitespace; an entry's score is the
//! number of tokens that occur as a substring of the entry's category
//! or title (each token counts at most once). Entries with score zero
//! are dropped; the rest are ordered by descending score, entries of
//! equal score keeping their original relative order.

use vstd::prelude::*;

verus! {

/// The Unicode `White_Space` code points: the separators on which a
/// query is split into tokens.
pub open spec fn spec_is_space(c: char) -> bool {
    let u = c as u32;
    u == 0x09 || u == 0x0A || u == 0x0B || u == 0x0C || u == 0x0D || u == 0x20 || u == 0x85
        || u == 0xA0 || u == 0x1680 || (0x2000 <= u && u <= 0x200A) || u == 0x2028 || u == 0x2029
        || u == 0x202F || u == 0x205F || u == 0x3000
}

pub(crate) fn is_space(c: char) -> (b: bool)
    ensures
        b == spec_is_space(c),
{
    let u = c as u32;
    u == 0x09 || u == 0x0A || u == 0x0B || u == 0x0C || u == 0x0D || u == 0x20 || u == 0x85
        || u == 0xA0 || u == 0x1680 || (0x2000 <= u && u <= 0x200A) || u == 0x2028 || u == 0x2029
        || u == 0x202F || u == 0x205F || u == 0x3000
}

/// `needle` occurs in `hay` starting at position `i`.
pub open spec fn contains_at(hay: Seq<char>, needle: Seq<char>, i: int) -> bool {
    0 <= i && i + needle.len() <= hay.len() && hay.subrange(i, i + needle.len() as int) == needle
}

/// `needle` occurs somewhere in `hay`; the empty needle occurs in
/// everything.
pub open spec fn contains_seq(hay: Seq<char>, needle: Seq<char>) -> bool {
    exists|i: int| contains_at(hay, needle, i)
}

/// Whether `hay` contains `needle[lo..hi]`.
fn contains_range(hay: &Vec<char>, needle: &Vec<char>, lo: usize, hi: usize) -> (b: bool)
    requires
        lo <= hi <= needle@.len(),
    ensures
        b == contains_seq(hay@, needle@.subrange(lo as int, hi as int)),
{
    let ghost nd = needle@.subrange(lo as int, hi as int);
    let m = hi - lo;
    let n = hay.len();
    if m > n {
        proof {
            assert forall|i: int| !contains_at(hay@, nd, i) by {}
        }
        return false;
    }
    let mut i: usize = 0;
    while i <= n - m
        invariant
            m <= n,
            m == hi - lo,
            lo <= hi <= needle@.len(),
            n == hay@.len(),
            i <= n - m + 1,
            nd == needle@.subrange(lo as int, hi as int),
            forall|p: int| 0 <= p < i ==> !contains_at(hay@, nd, p),
        decreases n - m - i + 1,
    {
        let mut j: usize = 0;
        while j < m && hay[i + j] == needle[lo + j]
            invariant
                m <= n,
                m == hi - lo,
                lo <= hi <= needle@.len(),
                n == hay@.len(),
                i + m <= n,
                j <= m,
                nd == needle@.subrange(lo as int, hi as int),
                forall|t: int| 0 <= t < j ==> hay@[i + t] == nd[t],
            decreases m - j,
        {
            j += 1;
        }
        if j == m {
            proof {
                assert(hay@.subrange(i as int, i + m) =~= nd);
                assert(contains_at(hay@, nd, i as int));
            }
            return true;
        }
        proof {
            assert(hay@[i + j] != nd[j as int]);
            assert forall|p: int| 0 <= p < i + 1 implies !contains_at(hay@, nd, p) by {
                if p == i {
                    if contains_at(hay@, nd, p) {
                        assert(hay@.subrange(p, p + nd.len() as int)[j as int] == hay@[i + j]);
                    }
                }
            }
        }
        i += 1;
    }
    proof {
        assert forall|p: int| !contains_at(hay@, nd, p) by {
            if 0 <= p && p + m <= n {
                assert(p < i);
            }
        }
    }
    false
}

/// A token of the query, a maximal whitespace-free run, hits the entry
/// if it occurs in the category or in the title.
pub open spec fn token_hits(cat: Seq<char>, title: Seq<char>, token: Seq<char>) -> bool {
    contains_seq(cat, token) || contains_seq(title, token)
}

/// Left-to-right scan counting the tokens of `q` that hit the entry.
/// `i` is the position of the scan; `start` is the start of the
/// whitespace-free run being read, or `-1` outside one.
pub open spec fn score_scan(
    cat: Seq<char>,
    title: Seq<char>,
    q: Seq<char>,
    i: int,
    start: int,
) -> nat
    decreases q.len() - i,
    when 0 <= i <= q.len()
{
    if i >= q.len() {
        if 0 <= start && token_hits(cat, title, q.subrange(start, i)) {
            1nat
        } else {
            0nat
        }
    } else if spec_is_space(q[i]) {
        (if 0 <= start && token_hits(cat, title, q.subrange(start, i)) {
            1nat
        } else {
            0nat
        }) + score_scan(cat, title, q, i + 1, -1)
    } else {
        score_scan(cat, title, q, i + 1, if 0 <= start { start } else { i })
    }
}

/// The score of an entry with category `cat` and title `title` against
/// the query `q`: the number of whitespace-separated tokens of `q` that
/// occur in `cat` or in `title`.
pub open spec fn spec_score(cat: Seq<char>, title: Seq<char>, q: Seq<char>) -> nat {
    score_scan(cat, title, q, 0, -1)
}

/// Compute the score, by the same scan the specification describes.
pub(crate) fn score_chars(cat: &Vec<char>, title: &Vec<char>, q: &Vec<char>) -> (n: usize)
    ensures
        n == spec_score(cat@, title@, q@),
{
    let len = q.len();
    let mut i: usize = 0;
    let mut n: usize = 0;
    let mut in_run: bool = false;
    let mut start: usize = 0;
    while i < len
        invariant
            len == q@.len(),
            i <= len,
            in_run ==> start < i,
            in_run ==> n <= start,
            n <= i,
            n + score_scan(cat@, title@, q@, i as int, if in_run { start as int } else { -1 })
                == spec_score(cat@, title@, q@),
        decreases len - i,
    {
        let c = q[i];
        if is_space(c) {
            if in_run {
                if contains_range(cat, q, start, i) || contains_range(title, q, start, i) {
                    n += 1;
                }
                in_run = false;
            }
            i += 1;
        } else {
            if !in_run {
                in_run = true;
                start = i;
            }
            i += 1;
        }
    }
    if in_run {
        if contains_range(cat, q, start, len) || contains_range(title, q, start, len) {
            n += 1;
        }
    }
    n
}

/// The indices `0 <= x < n` with `scores[x] == v`, in ascending order.
pub open spec fn idxs_with_upto(scores: Seq<nat>, v: nat, n: int) -> Seq<int>
    decreases n,
{
    if n <= 0 {
        Seq::empty()
    } else {
        idxs_with_upto(scores, v, n - 1) + (if scores[n - 1] == v {
            seq![n - 1]
        } else {
            Seq::empty()
        })
    }
}

/// The ranked output for all scores down to `v`: the indices scoring
/// `v` in input order, then those scoring `v - 1`, and so on down to 1.
/// Indices scoring 0 never appear.
pub open spec fn ranked_down(scores: Seq<nat>, v: nat) -> Seq<int>
    decreases v,
{
    if v == 0 {
        Seq::empty()
    } else {
        idxs_with_upto(scores, v, scores.len() as int) + ranked_down(scores, (v - 1) as nat)
    }
}

/// The greatest score (0 for no entries).
pub open spec fn max_score(scores: Seq<nat>) -> nat
    decreases scores.len(),
{
    if scores.len() == 0 {
        0
    } else {
        let m = max_score(scores.drop_last());
        if scores.last() > m {
            scores.last()
        } else {
            m
        }
    }
}

/// The ranked output: entries with score 0 dropped, the rest ordered by
/// descending score, entries of equal score keeping their input order.
pub open spec fn spec_ranked(scores: Seq<nat>) -> Seq<int> {
    ranked_down(scores, max_score(scores))
}

/// Every index listed for score `v` lies below `n`, scores `v`, and the
/// listing is strictly ascending.
pub proof fn lemma_idxs_index(scores: Seq<nat>, v: nat, n: int)
    ensures
        forall|k: int|
            0 <= k < idxs_with_upto(scores, v, n).len() ==> 0 <= #[trigger] idxs_with_upto(
                scores,
                v,
                n,
            )[k] < n && scores[idxs_with_upto(scores, v, n)[k]] == v,
        forall|k1: int, k2: int|
            0 <= k1 < k2 < idxs_with_upto(scores, v, n).len() ==> #[trigger] idxs_with_upto(
                scores,
                v,
                n,
            )[k1] < #[trigger] idxs_with_upto(scores, v, n)[k2],
    decreases n,
{
    if n > 0 {
        lemma_idxs_index(scores, v, n - 1);
        let u0 = idxs_with_upto(scores, v, n - 1);
        let u = idxs_with_upto(scores, v, n);
        assert forall|k: int| 0 <= k < u.len() implies 0 <= #[trigger] u[k] < n && scores[u[k]]
            == v by {
            if k < u0.len() {
                assert(u[k] == u0[k]);
            } else {
                assert(u[k] == n - 1);
            }
        }
        assert forall|k1: int, k2: int| 0 <= k1 < k2 < u.len() implies #[trigger] u[k1]
            < #[trigger] u[k2] by {
            if k2 < u0.len() {
                assert(u[k1] == u0[k1] && u[k2] == u0[k2]);
            } else {
                assert(u[k1] == u0[k1] && u[k2] == n - 1);
            }
        }
    }
}

/// Every index below `n` that scores `v` is listed.
pub proof fn lemma_idxs_complete(scores: Seq<nat>, v: nat, n: int, x: int)
    requires
        0 <= x < n,
        scores[x] == v,
    ensures
        idxs_with_upto(scores, v, n).contains(x),
    decreases n,
{
    let u = idxs_with_upto(scores, v, n);
    if x == n - 1 {
        assert(u[u.len() - 1] == x);
    } else {
        lemma_idxs_complete(scores, v, n - 1, x);
        let k = choose|k: int|
            0 <= k < idxs_with_upto(scores, v, n - 1).len() && #[trigger] idxs_with_upto(
                scores,
                v,
                n - 1,
            )[k] == x;
        assert(u[k] == x);
    }
}

/// Membership in the ranked output down to `v`: exactly the indices
/// with a score between 1 and `v`.
pub proof fn lemma_ranked_down_elems(scores: Seq<nat>, v: nat)
    ensures
        forall|x: int|
            #[trigger] ranked_down(scores, v).contains(x) <==> (0 <= x < scores.len() && 1
                <= scores[x] <= v),
    decreases v,
{
    if v == 0 {
        assert forall|x: int| !ranked_down(scores, v).contains(x) by {}
    } else {
        lemma_ranked_down_elems(scores, (v - 1) as nat);
        lemma_idxs_index(scores, v, scores.len() as int);
        let a = idxs_with_upto(scores, v, scores.len() as int);
        let r = ranked_down(scores, (v - 1) as nat);
        assert forall|x: int|
            #[trigger] ranked_down(scores, v).contains(x) <==> (0 <= x < scores.len() && 1
                <= scores[x] <= v) by {
            if ranked_down(scores, v).contains(x) {
                let k = choose|k: int|
                    0 <= k < ranked_down(scores, v).len() && ranked_down(scores, v)[k] == x;
                if k < a.len() {
                    assert(a[k] == x);
                } else {
                    assert(r[k - a.len()] == x);
                    assert(r.contains(x));
                }
            }
            if 0 <= x < scores.len() && 1 <= scores[x] <= v {
                if scores[x] == v {
                    lemma_idxs_complete(scores, v, scores.len() as int, x);
                    let k = choose|k: int| 0 <= k < a.len() && a[k] == x;
                    assert(ranked_down(scores, v)[k] == x);
                } else {
                    assert(r.contains(x));
                    let k = choose|k: int| 0 <= k < r.len() && r[k] == x;
                    assert(ranked_down(scores, v)[a.len() + k] == x);
                }
            }
        }
    }
}

/// No score exceeds the maximum.
pub proof fn lemma_max_score_bound(scores: Seq<nat>, x: int)
    requires
        0 <= x < scores.len(),
    ensures
        scores[x] <= max_score(scores),
    decreases scores.len(),
{
    if x < scores.len() - 1 {
        lemma_max_score_bound(scores.drop_last(), x);
    }
}

/// Filtering law: an index appears in the ranked output exactly when
/// its score is nonzero.
pub proof fn lemma_ranked_membership(scores: Seq<nat>, x: int)
    requires
        0 <= x < scores.len(),
    ensures
        spec_ranked(scores).contains(x) <==> scores[x] > 0,
{
    lemma_ranked_down_elems(scores, max_score(scores));
    lemma_max_score_bound(scores, x);
}

/// Stability law, over the ranked output down to `v`.
proof fn lemma_ranked_down_stable(scores: Seq<nat>, v: nat, i: int, j: int, p: int, q: int)
    requires
        0 <= i < j,
        scores[i] == scores[j],
        0 <= p < ranked_down(scores, v).len(),
        0 <= q < ranked_down(scores, v).len(),
        ranked_down(scores, v)[p] == i,
        ranked_down(scores, v)[q] == j,
    ensures
        p < q,
    decreases v,
{
    let a = idxs_with_upto(scores, v, scores.len() as int);
    let r = ranked_down(scores, (v - 1) as nat);
    lemma_idxs_index(scores, v, scores.len() as int);
    if p < a.len() {
        assert(a[p] == i);
        if q < a.len() {
            assert(a[q] == j);
            if q <= p {
                assert(false);
            }
        }
    } else {
        assert(r[p - a.len()] == i);
        if q < a.len() {
            // `i` sits in a lower stripe, so its score is below `v`,
            // yet `j` scores exactly `v`: impossible for equal scores.
            lemma_ranked_down_elems(scores, (v - 1) as nat);
            assert(r.contains(i));
            assert(false);
        } else {
            assert(r[q - a.len()] == j);
            lemma_ranked_down_stable(scores, (v - 1) as nat, i, j, p - a.len(), q - a.len());
        }
    }
}

/// Stability law: two entries with the same score keep their original
/// relative order in the ranked output.
pub proof fn lemma_ranked_stable(scores: Seq<nat>, i: int, j: int, p: int, q: int)
    requires
        0 <= i < j < scores.len(),
        scores[i] == scores[j],
        0 <= p < spec_ranked(scores).len(),
        0 <= q < spec_ranked(scores).len(),
        spec_ranked(scores)[p] == i,
        spec_ranked(scores)[q] == j,
    ensures
        p < q,
{
    lemma_ranked_down_stable(scores, max_score(scores), i, j, p, q);
}

/// Order law, over the ranked output down to `v`.
proof fn lemma_ranked_down_sorted(scores: Seq<nat>, v: nat, p: int, q: int)
    requires
        0 <= p < q < ranked_down(scores, v).len(),
    ensures
        scores[ranked_down(scores, v)[p]] >= scores[ranked_down(scores, v)[q]],
    decreases v,
{
    let a = idxs_with_upto(scores, v, scores.len() as int);
    let r = ranked_down(scores, (v - 1) as nat);
    lemma_idxs_index(scores, v, scores.len() as int);
    if q < a.len() {
        assert(scores[a[p]] == v && scores[a[q]] == v);
    } else if p < a.len() {
        assert(scores[a[p]] == v);
        lemma_ranked_down_elems(scores, (v - 1) as nat);
        assert(r.contains(r[q - a.len()]));
    } else {
        lemma_ranked_down_sorted(scores, (v - 1) as nat, p - a.len(), q - a.len());
    }
}

/// Order law: the ranked output is sorted by descending score.
pub proof fn lemma_ranked_sorted(scores: Seq<nat>, p: int, q: int)
    requires
        0 <= p < q < spec_ranked(scores).len(),
    ensures
        scores[spec_ranked(scores)[p]] >= scores[spec_ranked(scores)[q]],
{
    lemma_ranked_down_sorted(scores, max_score(scores), p, q);
}

/// With every score 1 the ranked output is all indices in input order.
pub proof fn lemma_all_ones_identity(scores: Seq<nat>)
    requires
        forall|x: int| 0 <= x < scores.len() ==> scores[x] == 1,
    ensures
        spec_ranked(scores) == Seq::new(scores.len(), |x: int| x),
    decreases scores.len(),
{
    if scores.len() == 0 {
        assert(spec_ranked(scores) =~= Seq::new(scores.len(), |x: int| x));
    } else {
        assert(max_score(scores) == 1) by {
            lemma_max_all_ones(scores);
        }
        lemma_idxs_all_ones(scores, scores.len() as int);
        assert(spec_ranked(scores) == ranked_down(scores, 1nat));
        assert(ranked_down(scores, 1nat) == idxs_with_upto(scores, 1nat, scores.len() as int)
            + ranked_down(scores, 0nat));
        assert(ranked_down(scores, 0nat) == Seq::<int>::empty());
        assert(spec_ranked(scores) =~= Seq::new(scores.len(), |x: int| x));
    }
}

/// With every score 1 the maximum is 1.
proof fn lemma_max_all_ones(scores: Seq<nat>)
    requires
        scores.len() > 0,
        forall|x: int| 0 <= x < scores.len() ==> scores[x] == 1,
    ensures
        max_score(scores) == 1,
    decreases scores.len(),
{
    if scores.len() > 1 {
        lemma_max_all_ones(scores.drop_last());
    } else {
        assert(max_score(scores.drop_last()) == 0);
    }
}

/// With every score 1 the listing for score 1 is the identity.
proof fn lemma_idxs_all_ones(scores: Seq<nat>, n: int)
    requires
        n <= scores.len(),
        forall|x: int| 0 <= x < scores.len() ==> scores[x] == 1,
    ensures
        idxs_with_upto(scores, 1, n) == Seq::new(if n >= 0 {
            n as nat
        } else {
            0nat
        }, |x: int| x),
    decreases n,
{
    if n > 0 {
        lemma_idxs_all_ones(scores, n - 1);
    }
    assert(idxs_with_upto(scores, 1, n) =~= Seq::new(if n >= 0 {
        n as nat
    } else {
        0nat
    }, |x: int| x));
}

/// Produce the ranked indices for the given scores: stripes of equal
/// score, from the greatest down to 1, each stripe in input order.
pub(crate) fn ranked_by_scores(scores: &Vec<usize>) -> (r: Vec<usize>)
    ensures
        r@.map_values(|u: usize| u as int) == spec_ranked(
            scores@.map_values(|s: usize| s as nat),
        ),
        forall|k: int| 0 <= k < r@.len() ==> #[trigger] r@[k] < scores@.len(),
{
    let ghost gs = scores@.map_values(|s: usize| s as nat);
    let n = scores.len();
    let mut m: usize = 0;
    let mut i: usize = 0;
    while i < n
        invariant
            n == scores@.len(),
            gs == scores@.map_values(|s: usize| s as nat),
            i <= n,
            m == max_score(gs.take(i as int)),
        decreases n - i,
    {
        proof {
            assert(gs.take(i + 1).drop_last() =~= gs.take(i as int));
            assert(gs.take(i + 1).last() == gs[i as int]);
        }
        if scores[i] > m {
            m = scores[i];
        }
        i += 1;
    }
    proof {
        assert(gs.take(n as int) =~= gs);
    }
    let mut r: Vec<usize> = Vec::new();
    let mut v: usize = m;
    while v > 0
        invariant
            n == scores@.len(),
            gs == scores@.map_values(|s: usize| s as nat),
            m == max_score(gs),
            v <= m,
            r@.map_values(|u: usize| u as int) + ranked_down(gs, v as nat) == ranked_down(
                gs,
                m as nat,
            ),
            forall|k: int| 0 <= k < r@.len() ==> #[trigger] r@[k] < n,
        decreases v,
    {
        let ghost r0 = r@.map_values(|u: usize| u as int);
        let mut i: usize = 0;
        while i < n
            invariant
                n == scores@.len(),
                gs == scores@.map_values(|s: usize| s as nat),
                i <= n,
                v > 0,
                r0 == r@.map_values(|u: usize| u as int).take(r0.len() as int),
                r@.map_values(|u: usize| u as int) == r0 + idxs_with_upto(gs, v as nat, i as int),
                forall|k: int| 0 <= k < r@.len() ==> #[trigger] r@[k] < n,
            decreases n - i,
        {
            if scores[i] == v {
                proof {
                    assert(gs[i as int] == v as nat);
                    assert(idxs_with_upto(gs, v as nat, i + 1) =~= idxs_with_upto(
                        gs,
                        v as nat,
                        i as int,
                    ) + seq![i as int]);
                }
                let ghost pre = r@;
                r.push(i);
                proof {
                    assert(r@ == pre.push(i));
                    let lhs = r@.map_values(|u: usize| u as int);
                    let rhs = r0 + idxs_with_upto(gs, v as nat, i + 1);
                    assert(pre.map_values(|u: usize| u as int) == r0 + idxs_with_upto(
                        gs,
                        v as nat,
                        i as int,
                    ));
                    let u0 = idxs_with_upto(gs, v as nat, i as int);
                    let u1 = idxs_with_upto(gs, v as nat, i + 1);
                    assert(u1 == u0 + seq![i as int]);
                    assert(pre.map_values(|u: usize| u as int).len() == pre.len());
                    assert(pre.len() == r0.len() + u0.len());
                    assert forall|k: int| 0 <= k < lhs.len() implies lhs[k] == rhs[k] by {
                        if k < pre.len() {
                            assert(lhs[k] == pre.map_values(|u: usize| u as int)[k]);
                            if k >= r0.len() {
                                assert(rhs[k] == u1[k - r0.len()]);
                                assert(u1[k - r0.len()] == u0[k - r0.len()]);
                            }
                        } else {
                            assert(lhs[k] == i as int);
                            assert(rhs[k] == u1[k - r0.len()]);
                            assert(u1[u0.len() as int] == seq![i as int][0]);
                        }
                    }
                    assert(lhs =~= rhs);
                }
            } else {
                proof {
                    assert(idxs_with_upto(gs, v as nat, i + 1) =~= idxs_with_upto(
                        gs,
                        v as nat,
                        i as int,
                    ));
                }
            }
            i += 1;
        }
        proof {
            assert(r@.map_values(|u: usize| u as int) + ranked_down(gs, (v - 1) as nat)
                =~= r0 + ranked_down(gs, v as nat));
        }
        v -= 1;
    }
    proof {
        assert(r@.map_values(|u: usize| u as int) + ranked_down(gs, 0nat) =~= r@.map_values(
            |u: usize| u as int,
        ));
    }
    r
}

} // verus!
