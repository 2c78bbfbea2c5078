//! Ranked search results: best score first, ties in their own order.

use vstd::prelude::*;

verus! {

/// Does `i` come before `j`: does it score higher, or as high and stand
/// earlier?
pub open spec fn ranks_before(scores: Seq<Option<i32>>, i: int, j: int) -> bool {
    scores[i]->0 > scores[j]->0 || (scores[i]->0 == scores[j]->0 && i < j)
}

/// `r` lists exactly the indices that have a score, by rank.
pub open spec fn is_ranking(scores: Seq<Option<i32>>, r: Seq<usize>) -> bool {
    &&& forall|k: int|
        0 <= k < r.len() ==> (#[trigger] r[k]) < scores.len() && scores[r[k] as int] is Some
    &&& forall|i: int|
        0 <= i < scores.len() && (#[trigger] scores[i]) is Some ==> r.contains(i as usize)
    &&& forall|a: int, b: int|
        0 <= a < b < r.len() ==> ranks_before(scores, #[trigger] r[a] as int, #[trigger] r[b] as int)
}

/// `r` ranks the first `n` indices.
spec fn ranks_first(scores: Seq<Option<i32>>, r: Seq<usize>, n: int) -> bool {
    &&& forall|k: int|
        0 <= k < r.len() ==> (#[trigger] r[k]) < n && scores[r[k] as int] is Some
    &&& forall|i: int| 0 <= i < n && (#[trigger] scores[i]) is Some ==> r.contains(i as usize)
    &&& forall|a: int, b: int|
        0 <= a < b < r.len() ==> ranks_before(scores, #[trigger] r[a] as int, #[trigger] r[b] as int)
}

/// Putting `i` after everything that scores at least as high keeps the rank.
proof fn lemma_insert(scores: Seq<Option<i32>>, r: Seq<usize>, i: usize, at: int)
    requires
        ranks_first(scores, r, i as int),
        i < scores.len(),
        scores[i as int] is Some,
        0 <= at <= r.len(),
        forall|k: int| 0 <= k < at ==> scores[(#[trigger] r[k]) as int]->0 >= scores[i as int]->0,
        at < r.len() ==> scores[r[at] as int]->0 < scores[i as int]->0,
    ensures
        ranks_first(scores, r.insert(at, i), i + 1),
{
    let t = r.insert(at, i);
    assert forall|k: int| 0 <= k < t.len() implies (#[trigger] t[k]) < i + 1
        && scores[t[k] as int] is Some by {
        if k < at {
            assert(t[k] == r[k]);
        } else if k > at {
            assert(t[k] == r[k - 1]);
        }
    }
    assert forall|j: int| 0 <= j < i + 1 && (#[trigger] scores[j]) is Some implies t.contains(
        j as usize,
    ) by {
        if j == i {
            assert(t[at] == i);
        } else {
            assert(r.contains(j as usize));
            let k = choose|k: int| 0 <= k < r.len() && r[k] == j as usize;
            if k < at {
                assert(t[k] == j as usize);
            } else {
                assert(t[k + 1] == j as usize);
            }
        }
    }
    assert forall|a: int, b: int| 0 <= a < b < t.len() implies ranks_before(
        scores,
        #[trigger] t[a] as int,
        #[trigger] t[b] as int,
    ) by {
        if b < at {
            assert(t[a] == r[a] && t[b] == r[b]);
        } else if b == at {
            assert(t[a] == r[a]);
        } else if a < at {
            assert(t[a] == r[a] && t[b] == r[b - 1]);
        } else if a == at {
            assert(t[b] == r[b - 1]);
            if b - 1 > at {
                assert(ranks_before(scores, r[at] as int, r[b - 1] as int));
            }
        } else {
            assert(t[a] == r[a - 1] && t[b] == r[b - 1]);
        }
    }
}

/// Where an index with the score `s` goes.
fn place_for(scores: &Vec<Option<i32>>, ranked: &Vec<usize>, s: i32) -> (at: usize)
    requires
        forall|k: int|
            0 <= k < ranked@.len() ==> (#[trigger] ranked@[k]) < scores@.len()
                && scores@[ranked@[k] as int] is Some,
    ensures
        at <= ranked@.len(),
        forall|k: int| 0 <= k < at ==> scores@[(#[trigger] ranked@[k]) as int]->0 >= s,
        at < ranked@.len() ==> scores@[ranked@[at as int] as int]->0 < s,
{
    let mut at: usize = 0;
    while at < ranked.len()
        invariant
            at <= ranked@.len(),
            forall|k: int|
                0 <= k < ranked@.len() ==> (#[trigger] ranked@[k]) < scores@.len()
                    && scores@[ranked@[k] as int] is Some,
            forall|k: int| 0 <= k < at ==> scores@[(#[trigger] ranked@[k]) as int]->0 >= s,
        decreases ranked@.len() - at,
    {
        if let Some(other) = scores[ranked[at]] {
            if other < s {
                return at;
            }
        }
        at = at + 1;
    }
    at
}

/// The indices that have a score, by rank.
pub fn rank(scores: &Vec<Option<i32>>) -> (r: Vec<usize>)
    ensures
        is_ranking(scores@, r@),
{
    let n: usize = scores.len();
    let mut out: Vec<usize> = Vec::new();
    let mut i: usize = 0;
    while i < n
        invariant
            n == scores@.len(),
            i <= n,
            ranks_first(scores@, out@, i as int),
        decreases n - i,
    {
        if let Some(s) = scores[i] {
            let at: usize = place_for(scores, &out, s);
            proof {
                lemma_insert(scores@, out@, i, at as int);
            }
            out.insert(at, i);
        }
        i = i + 1;
    }
    out
}

/// Where every score is the same, the ranking keeps the order: it is the
/// indices with a score, ascending.
pub proof fn equal_scores_keep_order(scores: Seq<Option<i32>>, r: Seq<usize>, s: i32)
    requires
        is_ranking(scores, r),
        forall|i: int| 0 <= i < scores.len() && (#[trigger] scores[i]) is Some ==> scores[i] == Some(s),
    ensures
        forall|a: int, b: int| 0 <= a < b < r.len() ==> #[trigger] r[a] < #[trigger] r[b],
{
}

proof fn lemma_rankings_agree(scores: Seq<Option<i32>>, r: Seq<usize>, t: Seq<usize>, k: int)
    requires
        is_ranking(scores, r),
        is_ranking(scores, t),
        0 <= k < r.len(),
    ensures
        k < t.len(),
        r[k] == t[k],
    decreases k,
{
    assert forall|j: int| 0 <= j < k implies j < t.len() && #[trigger] r[j] == t[j] by {
        lemma_rankings_agree(scores, r, t, j);
    }
    assert(scores[r[k] as int] is Some);
    let j = choose|j: int| 0 <= j < t.len() && t[j] == r[k];
    if j < k {
        assert(ranks_before(scores, r[j] as int, r[k] as int));
    }
    if j > k {
        assert(scores[t[k] as int] is Some);
        let i = choose|i: int| 0 <= i < r.len() && r[i] == t[k];
        if i < k {
            assert(ranks_before(scores, t[i] as int, t[k] as int));
        }
        if i > k {
            assert(ranks_before(scores, r[k] as int, r[i] as int));
        }
        assert(ranks_before(scores, t[k] as int, t[j] as int));
    }
}

/// The scores leave no choice: they have one ranking.
pub proof fn ranking_is_determined(scores: Seq<Option<i32>>, r: Seq<usize>, t: Seq<usize>)
    requires
        is_ranking(scores, r),
        is_ranking(scores, t),
    ensures
        r == t,
{
    assert forall|k: int| 0 <= k < r.len() implies k < t.len() && #[trigger] r[k] == t[k] by {
        lemma_rankings_agree(scores, r, t, k);
    }
    assert forall|k: int| 0 <= k < t.len() implies k < r.len() && #[trigger] t[k] == r[k] by {
        lemma_rankings_agree(scores, t, r, k);
    }
    if r.len() < t.len() {
        assert(t[r.len() as int] == r[r.len() as int]);
    }
    if t.len() < r.len() {
        assert(r[t.len() as int] == t[t.len() as int]);
    }
    assert(r =~= t);
}

/// The highlight after the arrow keys of a frame, wherever the list ends.
#[verifier::allow_in_spec]
pub fn arrowed(idx: usize, down: bool, up: bool) -> usize
    returns
        ({
            let a: usize = if down { idx.wrapping_add(1) } else { idx };
            if up { a.wrapping_sub(1) } else { a }
        }),
{
    let a: usize = if down {
        idx.wrapping_add(1)
    } else {
        idx
    };
    if up {
        a.wrapping_sub(1)
    } else {
        a
    }
}

/// A highlight that wraps at the end of the list; the greatest index is one before
/// the first row, and so the last.
pub open spec fn wrapped(idx: usize, len: nat) -> nat {
    if len == 0 {
        0
    } else if idx == usize::MAX {
        (len - 1) as nat
    } else {
        (idx as nat) % len
    }
}

/// The highlight after the arrow keys of a frame, kept within the list.
pub open spec fn moved_highlight(idx: usize, down: bool, up: bool, len: nat) -> nat {
    wrapped(arrowed(idx, down, up), len)
}

/// The highlight after the arrow keys of a frame, kept within the list.
pub fn move_highlight(idx: usize, down: bool, up: bool, len: usize) -> (r: usize)
    ensures
        r == moved_highlight(idx, down, up, len as nat),
        len > 0 ==> r < len,
{
    let b: usize = arrowed(idx, down, up);
    if len == 0 {
        0
    } else if b == usize::MAX {
        len - 1
    } else {
        b % len
    }
}

/// The down arrow goes to the next row, and from the last to the first; the up
/// arrow goes back, and from the first to the last.
pub proof fn arrows_step_through_the_list(idx: usize, len: nat)
    requires
        idx < len,
        len < usize::MAX,
    ensures
        moved_highlight(idx, true, false, len) == (if idx + 1 < len { idx + 1 } else { 0 }),
        moved_highlight(idx, false, true, len) == (if idx > 0 { idx - 1 } else { len - 1 }),
        moved_highlight(idx, false, false, len) == idx,
{
    if idx + 1 < len {
        vstd::arithmetic::div_mod::lemma_small_mod((idx + 1) as nat, len);
    } else if idx + 1 == len {
        vstd::arithmetic::div_mod::lemma_mod_self_0(len as int);
    }
    if idx > 0 {
        vstd::arithmetic::div_mod::lemma_small_mod((idx - 1) as nat, len);
    }
    vstd::arithmetic::div_mod::lemma_small_mod(idx as nat, len);
}

} // verus!
