//! The order in which results are listed: by verdict rank (good first), then
//! by best rating (highest first); results that tie on both keep the order
//! in which they arrived.

use vstd::prelude::*;

use crate::player::{rank_of, rank_status, BadGood, PlayerResult, ResultRow};

verus! {

broadcast use vstd::seq_lib::group_to_multiset_ensures;

/// The rows of a list of results.
pub open spec fn rows(v: Seq<PlayerResult>) -> Seq<ResultRow> {
    v.map_values(|r: PlayerResult| r@)
}

pub open spec fn rank_key(r: ResultRow) -> int {
    rank_of(r.status) as int
}

/// `a` is listed strictly before `b`: a better verdict, or the same verdict
/// and a higher best rating.
pub open spec fn comes_before(a: ResultRow, b: ResultRow) -> bool {
    rank_key(a) < rank_key(b) || (rank_key(a) == rank_key(b) && a.best_rating > b.best_rating)
}

/// `a` and `b` tie: same verdict rank and same best rating.
pub open spec fn same_place(a: ResultRow, b: ResultRow) -> bool {
    rank_key(a) == rank_key(b) && a.best_rating == b.best_rating
}

/// No row of `s` should have been listed before one that precedes it.
pub open spec fn in_listing_order(s: Seq<ResultRow>) -> bool {
    forall|i: int, j: int| 0 <= i < j < s.len() ==> !comes_before(#[trigger] s[j], #[trigger] s[i])
}

/// The rows of `s` that tie with `k`, in their order in `s`.
pub open spec fn tied_with(s: Seq<ResultRow>, k: ResultRow) -> Seq<ResultRow>
    decreases s.len(),
{
    if s.len() == 0 {
        s
    } else {
        let rest = tied_with(s.drop_last(), k);
        if same_place(s.last(), k) {
            rest.push(s.last())
        } else {
            rest
        }
    }
}

proof fn lemma_tied_concat(a: Seq<ResultRow>, b: Seq<ResultRow>, k: ResultRow)
    ensures
        tied_with(a + b, k) == tied_with(a, k) + tied_with(b, k),
    decreases b.len(),
{
    if b.len() == 0 {
        assert(a + b =~= a);
        assert(tied_with(a, k) + tied_with(b, k) =~= tied_with(a, k));
    } else {
        assert((a + b).drop_last() =~= a + b.drop_last());
        assert((a + b).last() == b.last());
        lemma_tied_concat(a, b.drop_last(), k);
        if same_place(b.last(), k) {
            assert(tied_with(a + b, k) =~= tied_with(a, k) + tied_with(b, k));
        } else {
            assert(tied_with(a + b, k) =~= tied_with(a, k) + tied_with(b, k));
        }
    }
}

proof fn lemma_tied_none(b: Seq<ResultRow>, k: ResultRow)
    requires
        forall|i: int| 0 <= i < b.len() ==> !same_place(#[trigger] b[i], k),
    ensures
        tied_with(b, k) == Seq::<ResultRow>::empty(),
    decreases b.len(),
{
    if b.len() > 0 {
        assert(!same_place(b[b.len() - 1], k));
        lemma_tied_none(b.drop_last(), k);
    }
}

proof fn lemma_tied_push(s: Seq<ResultRow>, x: ResultRow, k: ResultRow)
    ensures
        tied_with(s.push(x), k) == if same_place(x, k) {
            tied_with(s, k).push(x)
        } else {
            tied_with(s, k)
        },
{
    assert(s.push(x).drop_last() =~= s);
}

/// Whether `a` is listed strictly before `b`.
pub fn precedes(a: &PlayerResult, b: &PlayerResult) -> (r: bool)
    ensures
        r == comes_before(a@, b@),
{
    let ra = rank_status(&a.status);
    let rb = rank_status(&b.status);
    ra < rb || (ra == rb && a.best_rating > b.best_rating)
}

proof fn lemma_insert_keeps_order(s: Seq<ResultRow>, p: int, x: ResultRow)
    requires
        0 <= p <= s.len(),
        in_listing_order(s),
        forall|m: int| 0 <= m < p ==> !comes_before(x, #[trigger] s[m]),
        forall|m: int| p <= m < s.len() ==> comes_before(x, #[trigger] s[m]),
    ensures
        in_listing_order(s.insert(p, x)),
{
    let t = s.insert(p, x);
    s.insert_ensures(p, x);
    assert forall|i: int, j: int| 0 <= i < j < t.len() implies !comes_before(
        #[trigger] t[j],
        #[trigger] t[i],
    ) by {
        if i < p && j < p {
            assert(t[i] == s[i] && t[j] == s[j]);
        } else if i < p && j == p {
            assert(t[i] == s[i]);
        } else if i < p {
            assert(t[i] == s[i] && t[j] == s[j - 1]);
        } else if i == p {
            assert(t[j] == s[j - 1]);
        } else {
            assert(t[i] == s[i - 1] && t[j] == s[j - 1]);
        }
    }
}

proof fn lemma_insert_ties(s: Seq<ResultRow>, p: int, x: ResultRow, k: ResultRow)
    requires
        0 <= p <= s.len(),
        forall|m: int| p <= m < s.len() ==> comes_before(x, #[trigger] s[m]),
    ensures
        tied_with(s.insert(p, x), k) == if same_place(x, k) {
            tied_with(s, k).push(x)
        } else {
            tied_with(s, k)
        },
{
    let a = s.subrange(0, p);
    let b = s.subrange(p, s.len() as int);
    assert(s =~= a + b);
    assert(s.insert(p, x) =~= a.push(x) + b);
    lemma_tied_concat(a, b, k);
    lemma_tied_concat(a.push(x), b, k);
    lemma_tied_push(a, x, k);
    if same_place(x, k) {
        assert forall|i: int| 0 <= i < b.len() implies !same_place(#[trigger] b[i], k) by {
            assert(b[i] == s[p + i]);
        }
        lemma_tied_none(b, k);
        assert(tied_with(s, k) =~= tied_with(a, k));
        assert(tied_with(s.insert(p, x), k) =~= tied_with(a, k).push(x));
    }
}

proof fn lemma_insert_multiset(s: Seq<ResultRow>, p: int, x: ResultRow)
    requires
        0 <= p <= s.len(),
    ensures
        s.insert(p, x).to_multiset() =~= s.to_multiset().insert(x),
{
    let a = s.subrange(0, p);
    let b = s.subrange(p, s.len() as int);
    assert(s =~= a + b);
    assert(s.insert(p, x) =~= a.push(x) + b);
    vstd::seq_lib::lemma_multiset_commutative(a, b);
    vstd::seq_lib::lemma_multiset_commutative(a.push(x), b);
}

/// Rows in listing order come by verdict rank, best first (good, too new,
/// too few games, bad, then the two errors), and rows of the same rank by
/// best rating, highest first.
pub proof fn lemma_listing_order_means(s: Seq<ResultRow>)
    requires
        in_listing_order(s),
    ensures
        forall|i: int, j: int|
            0 <= i < j < s.len() ==> rank_of(#[trigger] s[i].status) <= rank_of(
                #[trigger] s[j].status,
            ),
        forall|i: int, j: int|
            0 <= i < j < s.len() && rank_of(#[trigger] s[i].status) == rank_of(
                #[trigger] s[j].status,
            ) ==> s[i].best_rating >= s[j].best_rating,
        forall|i: int, j: int|
            0 <= i < j < s.len() && #[trigger] s[i].status == BadGood::BadTime
                ==> #[trigger] s[j].status != BadGood::Good,
        forall|i: int, j: int|
            0 <= i < j < s.len() && #[trigger] s[i].status == BadGood::BadGames ==> !(
            #[trigger] s[j].status == BadGood::Good || s[j].status == BadGood::BadTime),
        forall|i: int, j: int|
            0 <= i < j < s.len() && #[trigger] s[i].status == BadGood::Bad ==> (
            #[trigger] s[j].status == BadGood::Bad || s[j].status == BadGood::ErrorTime
                || s[j].status == BadGood::ErrorGame),
        forall|i: int, j: int|
            0 <= i < j < s.len() && #[trigger] s[i].status == BadGood::ErrorTime ==> (
            #[trigger] s[j].status == BadGood::ErrorTime || s[j].status == BadGood::ErrorGame),
        forall|i: int, j: int|
            0 <= i < j < s.len() && #[trigger] s[i].status == BadGood::ErrorGame
                ==> #[trigger] s[j].status == BadGood::ErrorGame,
{
    assert forall|i: int, j: int| 0 <= i < j < s.len() implies rank_of(
        #[trigger] s[i].status,
    ) <= rank_of(#[trigger] s[j].status) && (rank_of(s[i].status) == rank_of(s[j].status)
        ==> s[i].best_rating >= s[j].best_rating) by {
        assert(!comes_before(s[j], s[i]));
    }
}

/// Lists `results` by verdict rank, then by best rating from highest to
/// lowest; results that tie on both stay in the order they came in.
pub fn order_results(results: Vec<PlayerResult>) -> (r: Vec<PlayerResult>)
    ensures
        r@.len() == results@.len(),
        rows(r@).to_multiset() == rows(results@).to_multiset(),
        in_listing_order(rows(r@)),
        forall|k: ResultRow| #[trigger] tied_with(rows(r@), k) == tied_with(rows(results@), k),
        forall|i: int, j: int|
            0 <= i < j < r@.len() ==> rank_of(#[trigger] r@[i].status) <= rank_of(
                #[trigger] r@[j].status,
            ),
        forall|i: int, j: int|
            0 <= i < j < r@.len() && rank_of(#[trigger] r@[i].status) == rank_of(
                #[trigger] r@[j].status,
            ) ==> r@[i].best_rating >= r@[j].best_rating,
{
    let mut out: Vec<PlayerResult> = Vec::new();
    let mut i: usize = 0;
    while i < results.len()
        invariant
            i <= results@.len(),
            out@.len() == i,
            rows(out@).to_multiset() == rows(results@.subrange(0, i as int)).to_multiset(),
            in_listing_order(rows(out@)),
            forall|k: ResultRow|
                #[trigger] tied_with(rows(out@), k) == tied_with(
                    rows(results@.subrange(0, i as int)),
                    k,
                ),
        decreases results@.len() - i,
    {
        let x = results[i].duplicate();
        let ghost s = rows(out@);
        let mut j: usize = 0;
        while j < out.len() && !precedes(&x, &out[j])
            invariant
                j <= out@.len(),
                s == rows(out@),
                forall|m: int| 0 <= m < j ==> !comes_before(x@, #[trigger] s[m]),
            decreases out@.len() - j,
        {
            j = j + 1;
        }
        assert forall|m: int| j <= m < s.len() implies comes_before(x@, #[trigger] s[m]) by {
            if m > j {
                assert(!comes_before(s[m], s[j as int]));
            }
        }
        let ghost prev = rows(results@.subrange(0, i as int));
        let ghost next = rows(results@.subrange(0, i + 1));
        assert(next =~= prev.push(x@));
        proof {
            lemma_insert_keeps_order(s, j as int, x@);
            lemma_insert_multiset(s, j as int, x@);
            assert forall|k: ResultRow| #[trigger]
                tied_with(s.insert(j as int, x@), k) == tied_with(next, k) by {
                lemma_insert_ties(s, j as int, x@, k);
                lemma_tied_push(prev, x@, k);
            }
        }
        out.insert(j, x);
        assert(rows(out@) =~= s.insert(j as int, x@));
        i = i + 1;
    }
    assert(results@.subrange(0, results@.len() as int) =~= results@);
    proof {
        lemma_listing_order_means(rows(out@));
        assert forall|i: int, j: int| 0 <= i < j < out@.len() implies rank_of(
            #[trigger] out@[i].status,
        ) <= rank_of(#[trigger] out@[j].status) && (rank_of(out@[i].status) == rank_of(
            out@[j].status,
        ) ==> out@[i].best_rating >= out@[j].best_rating) by {
            assert(rows(out@)[i] == out@[i]@ && rows(out@)[j] == out@[j]@);
        }
    }
    out
}

} // verus!
