//! Questions asked of a table: the first row of a kind, how many there are,
//! and what a table looks like after some of its rows were changed.

use vstd::prelude::*;

verus! {

/// `i` is the first row that satisfies `p`.
pub open spec fn is_first<A>(rows: Seq<A>, p: spec_fn(A) -> bool, i: int) -> bool {
    0 <= i < rows.len() && p(rows[i]) && forall|j: int| 0 <= j < i ==> !p(#[trigger] rows[j])
}

/// Where the first row that satisfies `p` stands.
pub open spec fn first_index<A>(rows: Seq<A>, p: spec_fn(A) -> bool) -> Option<int> {
    if exists|i: int| is_first(rows, p, i) {
        Some(choose|i: int| is_first(rows, p, i))
    } else {
        None
    }
}

/// The first row that satisfies `p`.
pub open spec fn first_row<A>(rows: Seq<A>, p: spec_fn(A) -> bool) -> Option<A> {
    match first_index(rows, p) {
        Some(i) => Some(rows[i]),
        None => None,
    }
}

/// Some row satisfies `p`.
pub open spec fn any_row<A>(rows: Seq<A>, p: spec_fn(A) -> bool) -> bool {
    exists|i: int| 0 <= i < rows.len() && p(#[trigger] rows[i])
}

/// How many rows satisfy `p`.
pub open spec fn tally<A>(rows: Seq<A>, p: spec_fn(A) -> bool) -> nat
    decreases rows.len(),
{
    if rows.len() == 0 {
        0
    } else if p(rows.last()) {
        tally(rows.drop_last(), p) + 1
    } else {
        tally(rows.drop_last(), p)
    }
}

/// The table with `f` applied to every row that satisfies `p`.
pub open spec fn changed<A>(
    rows: Seq<A>,
    p: spec_fn(A) -> bool,
    f: spec_fn(A) -> A,
) -> Seq<A> {
    Seq::new(
        rows.len(),
        |i: int|
            if p(rows[i]) {
                f(rows[i])
            } else {
                rows[i]
            },
    )
}

/// There is only one first row.
pub proof fn lemma_first<A>(rows: Seq<A>, p: spec_fn(A) -> bool, i: int)
    requires
        is_first(rows, p, i),
    ensures
        first_index(rows, p) == Some(i),
        first_row(rows, p) == Some(rows[i]),
        any_row(rows, p),
{
    let k = choose|k: int| is_first(rows, p, k);
    assert(is_first(rows, p, k));
    if k < i {
        assert(!p(rows[k]));
    } else if i < k {
        assert(!p(rows[i]));
    }
}

/// Where no row satisfies `p` there is no first one.
pub proof fn lemma_no_first<A>(rows: Seq<A>, p: spec_fn(A) -> bool)
    requires
        forall|i: int| 0 <= i < rows.len() ==> !p(#[trigger] rows[i]),
    ensures
        first_index(rows, p) is None,
        first_row(rows, p) is None,
        !any_row(rows, p),
{
    assert forall|i: int| !is_first(rows, p, i) by {}
}

/// The first row is the first row, and where there is none no row satisfies `p`.
pub proof fn lemma_first_is_first<A>(rows: Seq<A>, p: spec_fn(A) -> bool)
    ensures
        match first_index(rows, p) {
            Some(i) => is_first(rows, p, i) && first_row(rows, p) == Some(rows[i]),
            None => forall|i: int| 0 <= i < rows.len() ==> !p(#[trigger] rows[i]),
        },
        any_row(rows, p) == (first_index(rows, p) is Some),
{
    if exists|i: int| is_first(rows, p, i) {
        let i = choose|i: int| is_first(rows, p, i);
        assert(is_first(rows, p, i));
        lemma_first(rows, p, i);
    } else {
        assert forall|i: int| 0 <= i < rows.len() implies !p(#[trigger] rows[i]) by {
            lemma_some_first(rows, p, i);
        }
        lemma_no_first(rows, p);
    }
}

proof fn lemma_some_first<A>(rows: Seq<A>, p: spec_fn(A) -> bool, i: int)
    requires
        0 <= i < rows.len(),
    ensures
        p(rows[i]) ==> exists|k: int| is_first(rows, p, k),
    decreases i,
{
    if p(rows[i]) {
        if forall|j: int| 0 <= j < i ==> !p(#[trigger] rows[j]) {
            assert(is_first(rows, p, i));
        } else {
            let j = choose|j: int| 0 <= j < i && p(#[trigger] rows[j]);
            lemma_some_first(rows, p, j);
        }
    }
}

/// One more row counts when it satisfies `p`.
pub proof fn lemma_tally_step<A>(rows: Seq<A>, p: spec_fn(A) -> bool, i: int)
    requires
        0 <= i < rows.len(),
    ensures
        tally(rows.take(i + 1), p) == tally(rows.take(i), p) + if p(rows[i]) {
            1nat
        } else {
            0nat
        },
        tally(rows.take(i), p) <= i,
    decreases i,
{
    assert(rows.take(i + 1).drop_last() =~= rows.take(i));
    if i > 0 {
        lemma_tally_step(rows, p, i - 1);
    }
}

/// A count does not exceed the number of rows.
pub proof fn lemma_tally_bound<A>(rows: Seq<A>, p: spec_fn(A) -> bool)
    ensures
        tally(rows, p) <= rows.len(),
    decreases rows.len(),
{
    if rows.len() > 0 {
        lemma_tally_bound(rows.drop_last(), p);
    }
}

/// `i` is the last row that satisfies `p`.
pub open spec fn is_last<A>(rows: Seq<A>, p: spec_fn(A) -> bool, i: int) -> bool {
    0 <= i < rows.len() && p(rows[i]) && forall|j: int| i < j < rows.len() ==> !p(
        #[trigger] rows[j],
    )
}

/// The last row that satisfies `p`.
pub open spec fn last_row<A>(rows: Seq<A>, p: spec_fn(A) -> bool) -> Option<A> {
    if exists|i: int| is_last(rows, p, i) {
        Some(rows[choose|i: int| is_last(rows, p, i)])
    } else {
        None
    }
}

/// There is only one last row.
pub proof fn lemma_last<A>(rows: Seq<A>, p: spec_fn(A) -> bool, i: int)
    requires
        is_last(rows, p, i),
    ensures
        last_row(rows, p) == Some(rows[i]),
{
    let k = choose|k: int| is_last(rows, p, k);
    assert(is_last(rows, p, k));
    if k < i {
        assert(!p(rows[i]));
    } else if i < k {
        assert(!p(rows[k]));
    }
}

/// Where no row satisfies `p` there is no last one.
pub proof fn lemma_no_last<A>(rows: Seq<A>, p: spec_fn(A) -> bool)
    requires
        forall|i: int| 0 <= i < rows.len() ==> !p(#[trigger] rows[i]),
    ensures
        last_row(rows, p) is None,
{
    assert forall|i: int| !is_last(rows, p, i) by {}
}

/// A row appended to a table is the last of its kind.
pub proof fn lemma_last_pushed<A>(rows: Seq<A>, p: spec_fn(A) -> bool, row: A)
    ensures
        p(row) ==> last_row(rows.push(row), p) == Some(row),
        !p(row) ==> last_row(rows.push(row), p) == last_row(rows, p),
{
    let longer = rows.push(row);
    if p(row) {
        assert(is_last(longer, p, rows.len() as int));
        lemma_last(longer, p, rows.len() as int);
    } else if exists|i: int| is_last(rows, p, i) {
        let i = choose|i: int| is_last(rows, p, i);
        assert(is_last(rows, p, i));
        lemma_last(rows, p, i);
        assert(longer[i] == rows[i]);
        assert forall|j: int| i < j < longer.len() implies !p(#[trigger] longer[j]) by {
            if j < rows.len() {
                assert(!p(rows[j]));
            }
        }
        assert(is_last(longer, p, i));
        lemma_last(longer, p, i);
    } else {
        assert forall|i: int| !is_last(longer, p, i) by {
            if is_last(longer, p, i) {
                assert(i < rows.len());
                assert forall|j: int| i < j < rows.len() implies !p(#[trigger] rows[j]) by {
                    assert(longer[j] == rows[j]);
                }
                assert(is_last(rows, p, i));
            }
        }
    }
}

/// A row appended to a table is the first of its kind only where there was none.
pub proof fn lemma_first_pushed<A>(rows: Seq<A>, p: spec_fn(A) -> bool, row: A)
    ensures
        first_index(rows, p) is Some ==> first_row(rows.push(row), p) == first_row(rows, p),
        first_index(rows, p) is None && p(row) ==> first_row(rows.push(row), p) == Some(row),
        first_index(rows, p) is None && !p(row) ==> first_row(rows.push(row), p) is None,
{
    let longer = rows.push(row);
    lemma_first_is_first(rows, p);
    match first_index(rows, p) {
        Some(i) => {
            assert(longer[i] == rows[i]);
            assert forall|j: int| 0 <= j < i implies !p(#[trigger] longer[j]) by {
                assert(!p(rows[j]));
            }
            assert(is_first(longer, p, i));
            lemma_first(longer, p, i);
        },
        None => {
            assert forall|j: int| 0 <= j < rows.len() implies !p(#[trigger] longer[j]) by {
                assert(!p(rows[j]));
            }
            if p(row) {
                assert(is_first(longer, p, rows.len() as int));
                lemma_first(longer, p, rows.len() as int);
            } else {
                lemma_no_first(longer, p);
            }
        },
    }
}

/// Filtering rows that all satisfy `q` keeps them as they are.
pub proof fn lemma_filter_all<A>(rows: Seq<A>, q: spec_fn(A) -> bool)
    requires
        forall|i: int| 0 <= i < rows.len() ==> q(#[trigger] rows[i]),
    ensures
        rows.filter(q) == rows,
    decreases rows.len(),
{
    reveal(Seq::filter);
    if rows.len() > 0 {
        let front = rows.drop_last();
        assert forall|i: int| 0 <= i < front.len() implies q(#[trigger] front[i]) by {
            assert(front[i] == rows[i]);
        }
        lemma_filter_all(front, q);
        assert(q(rows[rows.len() - 1]));
        assert(front.push(rows.last()) =~= rows);
    } else {
        assert(rows.filter(q) =~= rows);
    }
}

/// Filtering keeps the order: of two rows that stay, the earlier was the earlier before.
pub proof fn lemma_filter_keeps_order<A>(
    rows: Seq<A>,
    q: spec_fn(A) -> bool,
    a: int,
    b: int,
) -> (r: (int, int))
    requires
        0 <= a < b < rows.filter(q).len(),
    ensures
        0 <= r.0 < r.1 < rows.len(),
        rows[r.0] == rows.filter(q)[a],
        rows[r.1] == rows.filter(q)[b],
    decreases rows.len(),
{
    reveal(Seq::filter);
    let front = rows.drop_last();
    let last = rows.last();
    assert(front.push(last) =~= rows);
    front.lemma_filter_push(last, q);
    let kept = front.filter(q);
    if b < kept.len() {
        lemma_filter_keeps_order(front, q, a, b)
    } else {
        assert(kept.contains(kept[a]));
        front.lemma_filter_contains_rev(q, kept[a]);
        let i = choose|i: int| 0 <= i < front.len() && front[i] == kept[a];
        (i, rows.len() - 1)
    }
}

} // verus!
