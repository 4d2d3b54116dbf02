//! Orders the store lists its rows in.
//!
//! A listing is asked for as a selection of rows and a key for each row. The
//! key holds what the rows are ordered by, from the most to the least
//! significant part; rows with equal keys keep the order they were written in,
//! or its reverse.

use vstd::prelude::*;

use crate::text::characters;

verus! {

// --- text ------------------------------------------------------------------

/// `a` comes before `b` in dictionary order over character codes.
pub open spec fn text_lt(a: Seq<char>, b: Seq<char>) -> bool
    decreases a.len(),
{
    if b.len() == 0 {
        false
    } else if a.len() == 0 {
        true
    } else if a[0] != b[0] {
        a[0] < b[0]
    } else {
        text_lt(a.drop_first(), b.drop_first())
    }
}

/// No text comes before itself.
pub proof fn lemma_text_lt_irreflexive(a: Seq<char>)
    ensures
        !text_lt(a, a),
    decreases a.len(),
{
    if a.len() > 0 {
        lemma_text_lt_irreflexive(a.drop_first());
    }
}

/// Of two different texts exactly one comes first.
pub proof fn lemma_text_lt_total(a: Seq<char>, b: Seq<char>)
    ensures
        a != b ==> (text_lt(a, b) <==> !text_lt(b, a)),
    decreases a.len(),
{
    if a.len() == 0 || b.len() == 0 {
        if a.len() == b.len() {
            assert(a =~= b);
        }
    } else if a[0] == b[0] {
        lemma_text_lt_total(a.drop_first(), b.drop_first());
        if a.drop_first() == b.drop_first() {
            assert(a =~= seq![a[0]] + a.drop_first());
            assert(b =~= seq![b[0]] + b.drop_first());
        }
    }
}

/// Dictionary order is transitive.
pub proof fn lemma_text_lt_transitive(a: Seq<char>, b: Seq<char>, c: Seq<char>)
    requires
        text_lt(a, b),
        text_lt(b, c),
    ensures
        text_lt(a, c),
    decreases a.len(),
{
    if a.len() > 0 && a[0] == b[0] && b[0] == c[0] {
        lemma_text_lt_transitive(a.drop_first(), b.drop_first(), c.drop_first());
    }
}

/// Whether `a` comes before `b` in dictionary order.
pub fn text_less(a: &str, b: &str) -> (r: bool)
    ensures
        r == text_lt(a@, b@),
{
    let left = characters(a);
    let right = characters(b);
    let mut i: usize = 0;
    assert(left@.skip(0) =~= left@);
    assert(right@.skip(0) =~= right@);
    while i < left.len() && i < right.len() && left[i] == right[i]
        invariant
            i <= left@.len(),
            i <= right@.len(),
            left@ == a@,
            right@ == b@,
            text_lt(a@, b@) == text_lt(left@.skip(i as int), right@.skip(i as int)),
        decreases left@.len() - i,
    {
        assert(left@.skip(i as int).drop_first() =~= left@.skip(i + 1));
        assert(right@.skip(i as int).drop_first() =~= right@.skip(i + 1));
        i += 1;
    }
    if i == right.len() {
        false
    } else if i == left.len() {
        true
    } else {
        left[i] < right[i]
    }
}

// --- numbers ---------------------------------------------------------------

/// The place of a floating-point number among the others, from its bits: the greater of two
/// numbers has the greater place, and the two zeros have the same one.
///
/// The bits of a number that is not negative order as it does. Those of a negative one have
/// the topmost bit set, and order the other way round.
pub open spec fn place_of_number(bits: u64) -> u64 {
    if bits < 0x8000_0000_0000_0000 {
        (bits + 0x8000_0000_0000_0000) as u64
    } else {
        (0x1_0000_0000_0000_0000 - bits) as u64
    }
}

/// The places order as the numbers do: the greater a number that is not negative, the greater
/// its bits and its place; the greater a negative number, the smaller its bits and the greater
/// its place; and each of the latter comes before each of the former, but for the two zeros,
/// which are one number.
pub proof fn law_places_order_as_numbers_do(a: u64, b: u64)
    ensures
        a < 0x8000_0000_0000_0000 && b < 0x8000_0000_0000_0000 ==> (place_of_number(a)
            < place_of_number(b) <==> a < b),
        a >= 0x8000_0000_0000_0000 && b >= 0x8000_0000_0000_0000 ==> (place_of_number(a)
            < place_of_number(b) <==> a > b),
        a > 0x8000_0000_0000_0000 && b < 0x8000_0000_0000_0000 ==> place_of_number(a)
            < place_of_number(b),
        place_of_number(0x8000_0000_0000_0000) == place_of_number(0),
{
}

/// The place of a floating-point number among the others, from its bits.
pub fn number_place(bits: u64) -> (r: u64)
    ensures
        r == place_of_number(bits),
{
    if bits < 0x8000_0000_0000_0000 {
        bits + 0x8000_0000_0000_0000
    } else {
        u64::MAX - bits + 1
    }
}

// --- keys ------------------------------------------------------------------

/// What one row is ordered by: the smaller rank first, then the greater
/// weight, then the text.
pub struct SortKey {
    pub rank: u64,
    pub weight: u64,
    pub text: String,
}

/// The contents of a [`SortKey`].
#[verifier::ext_equal]
pub struct KeyModel {
    pub rank: u64,
    pub weight: u64,
    pub text: Seq<char>,
}

impl View for SortKey {
    type V = KeyModel;

    open spec fn view(&self) -> KeyModel {
        KeyModel { rank: self.rank, weight: self.weight, text: self.text@ }
    }
}

impl DeepView for SortKey {
    type V = KeyModel;

    open spec fn deep_view(&self) -> KeyModel {
        self@
    }
}

/// Which way the text of a key runs, and which of two rows with equal keys
/// comes first.
#[derive(Clone, Copy)]
pub struct Arrangement {
    pub text_descending: bool,
    pub newest_row_first: bool,
}

/// `a` is ordered before `b`.
pub open spec fn key_before(a: KeyModel, b: KeyModel, how: Arrangement) -> bool {
    ||| a.rank < b.rank
    ||| a.rank == b.rank && a.weight > b.weight
    ||| a.rank == b.rank && a.weight == b.weight && if how.text_descending {
        text_lt(b.text, a.text)
    } else {
        text_lt(a.text, b.text)
    }
}

/// Row `i` is listed before row `j`.
pub open spec fn precedes(keys: Seq<KeyModel>, how: Arrangement, i: int, j: int) -> bool {
    ||| key_before(keys[i], keys[j], how)
    ||| !key_before(keys[j], keys[i], how) && if how.newest_row_first {
        j < i
    } else {
        i < j
    }
}

/// `rows` lists exactly the selected rows before `bound`, each once, in order.
pub open spec fn lists_up_to(
    keys: Seq<KeyModel>,
    selected: Seq<bool>,
    how: Arrangement,
    bound: int,
    rows: Seq<int>,
) -> bool {
    &&& forall|i: int|
        0 <= i < rows.len() ==> 0 <= #[trigger] rows[i] < bound && selected[rows[i]]
    &&& forall|k: int| 0 <= k < bound && #[trigger] selected[k] ==> rows.contains(k)
    &&& forall|i: int, j: int|
        0 <= i < j < rows.len() ==> precedes(keys, how, #[trigger] rows[i], #[trigger] rows[j])
}

/// `rows` lists exactly the selected rows, each once, in order.
pub open spec fn is_listing(
    keys: Seq<KeyModel>,
    selected: Seq<bool>,
    how: Arrangement,
    rows: Seq<int>,
) -> bool {
    lists_up_to(keys, selected, how, keys.len() as int, rows)
}

/// The selected rows in order. There is exactly one listing, so this is it.
pub open spec fn arranged(keys: Seq<KeyModel>, selected: Seq<bool>, how: Arrangement) -> Seq<int> {
    choose|rows: Seq<int>| is_listing(keys, selected, how, rows)
}

proof fn lemma_key_order(a: KeyModel, b: KeyModel, c: KeyModel, how: Arrangement)
    ensures
        !key_before(a, a, how),
        key_before(a, b, how) ==> !key_before(b, a, how),
        key_before(a, b, how) && key_before(b, c, how) ==> key_before(a, c, how),
        key_before(a, b, how) && !key_before(c, b, how) && !key_before(b, c, how) ==> key_before(
            a,
            c,
            how,
        ),
        !key_before(a, b, how) && !key_before(b, a, how) && key_before(b, c, how) ==> key_before(
            a,
            c,
            how,
        ),
        !key_before(a, b, how) && !key_before(b, a, how) && !key_before(b, c, how) && !key_before(
            c,
            b,
            how,
        ) ==> !key_before(a, c, how) && !key_before(c, a, how),
{
    lemma_text_lt_irreflexive(a.text);
    lemma_text_lt_irreflexive(b.text);
    lemma_text_lt_irreflexive(c.text);
    lemma_text_lt_total(a.text, b.text);
    lemma_text_lt_total(b.text, c.text);
    lemma_text_lt_total(a.text, c.text);
    if text_lt(a.text, b.text) && text_lt(b.text, c.text) {
        lemma_text_lt_transitive(a.text, b.text, c.text);
    }
    if text_lt(c.text, b.text) && text_lt(b.text, a.text) {
        lemma_text_lt_transitive(c.text, b.text, a.text);
    }
}

/// Of two different rows exactly one precedes the other.
pub proof fn lemma_precedes_total(keys: Seq<KeyModel>, how: Arrangement, i: int, j: int)
    ensures
        !precedes(keys, how, i, i),
        i != j ==> (precedes(keys, how, i, j) <==> !precedes(keys, how, j, i)),
{
    lemma_key_order(keys[i], keys[j], keys[i], how);
}

/// Preceding is transitive.
pub proof fn lemma_precedes_transitive(
    keys: Seq<KeyModel>,
    how: Arrangement,
    i: int,
    j: int,
    k: int,
)
    requires
        precedes(keys, how, i, j),
        precedes(keys, how, j, k),
    ensures
        precedes(keys, how, i, k),
{
    lemma_key_order(keys[i], keys[j], keys[k], how);
    lemma_key_order(keys[j], keys[k], keys[i], how);
    lemma_key_order(keys[k], keys[i], keys[j], how);
    lemma_key_order(keys[k], keys[j], keys[i], how);
}

proof fn lemma_sorted_unique(
    keys: Seq<KeyModel>,
    how: Arrangement,
    a: Seq<int>,
    b: Seq<int>,
)
    requires
        forall|i: int, j: int|
            0 <= i < j < a.len() ==> precedes(keys, how, #[trigger] a[i], #[trigger] a[j]),
        forall|i: int, j: int|
            0 <= i < j < b.len() ==> precedes(keys, how, #[trigger] b[i], #[trigger] b[j]),
        forall|x: int| a.contains(x) <==> b.contains(x),
    ensures
        a == b,
    decreases a.len(),
{
    if a.len() == 0 {
        if b.len() > 0 {
            assert(b.contains(b[0]));
            assert(a.contains(b[0]));
        }
        assert(a =~= b);
    } else {
        assert(a.contains(a[0]));
        assert(b.contains(a[0]));
        let q = choose|q: int| 0 <= q < b.len() && b[q] == a[0];
        assert(b.contains(b[0]));
        assert(a.contains(b[0]));
        let r = choose|r: int| 0 <= r < a.len() && a[r] == b[0];
        lemma_precedes_total(keys, how, a[0], b[0]);
        if q > 0 {
            assert(precedes(keys, how, b[0], b[q]));
            if r > 0 {
                assert(precedes(keys, how, a[0], a[r]));
            }
            assert(false);
        }
        let rest_a = a.drop_first();
        let rest_b = b.drop_first();
        assert forall|x: int| rest_a.contains(x) <==> rest_b.contains(x) by {
            if rest_a.contains(x) {
                let i = choose|i: int| 0 <= i < rest_a.len() && rest_a[i] == x;
                assert(a[i + 1] == x);
                assert(a.contains(x));
                assert(b.contains(x));
                let j = choose|j: int| 0 <= j < b.len() && b[j] == x;
                if j == 0 {
                    assert(precedes(keys, how, a[0], a[i + 1]));
                    lemma_precedes_total(keys, how, x, x);
                }
                assert(rest_b[j - 1] == x);
            }
            if rest_b.contains(x) {
                let i = choose|i: int| 0 <= i < rest_b.len() && rest_b[i] == x;
                assert(b[i + 1] == x);
                assert(b.contains(x));
                assert(a.contains(x));
                let j = choose|j: int| 0 <= j < a.len() && a[j] == x;
                if j == 0 {
                    assert(precedes(keys, how, b[0], b[i + 1]));
                    lemma_precedes_total(keys, how, x, x);
                }
                assert(rest_a[j - 1] == x);
            }
        }
        assert forall|i: int, j: int| 0 <= i < j < rest_a.len() implies precedes(
            keys,
            how,
            #[trigger] rest_a[i],
            #[trigger] rest_a[j],
        ) by {
            assert(precedes(keys, how, a[i + 1], a[j + 1]));
        }
        assert forall|i: int, j: int| 0 <= i < j < rest_b.len() implies precedes(
            keys,
            how,
            #[trigger] rest_b[i],
            #[trigger] rest_b[j],
        ) by {
            assert(precedes(keys, how, b[i + 1], b[j + 1]));
        }
        lemma_sorted_unique(keys, how, rest_a, rest_b);
        assert(a =~= seq![a[0]] + rest_a);
        assert(b =~= seq![b[0]] + rest_b);
    }
}

/// A listing is the listing.
pub proof fn lemma_arranged(
    keys: Seq<KeyModel>,
    selected: Seq<bool>,
    how: Arrangement,
    rows: Seq<int>,
)
    requires
        is_listing(keys, selected, how, rows),
    ensures
        arranged(keys, selected, how) == rows,
        is_listing(keys, selected, how, arranged(keys, selected, how)),
{
    let other = arranged(keys, selected, how);
    assert(is_listing(keys, selected, how, other));
    assert forall|x: int| rows.contains(x) <==> other.contains(x) by {
        if rows.contains(x) {
            let i = choose|i: int| 0 <= i < rows.len() && rows[i] == x;
            assert(selected[rows[i]]);
        }
        if other.contains(x) {
            let i = choose|i: int| 0 <= i < other.len() && other[i] == x;
            assert(selected[other[i]]);
        }
    }
    lemma_sorted_unique(keys, how, rows, other);
}

/// Row numbers as mathematical integers.
pub open spec fn row_numbers(rows: Seq<usize>) -> Seq<int> {
    Seq::new(rows.len(), |i: int| rows[i] as int)
}

fn comes_first(a: &SortKey, b: &SortKey, how: Arrangement) -> (r: bool)
    ensures
        r == key_before(a@, b@, how),
{
    if a.rank != b.rank {
        a.rank < b.rank
    } else if a.weight != b.weight {
        a.weight > b.weight
    } else if how.text_descending {
        text_less(b.text.as_str(), a.text.as_str())
    } else {
        text_less(a.text.as_str(), b.text.as_str())
    }
}

fn goes_before(keys: &Vec<SortKey>, how: Arrangement, i: usize, j: usize) -> (r: bool)
    requires
        i < keys@.len(),
        j < keys@.len(),
    ensures
        r == precedes(keys.deep_view(), how, i as int, j as int),
{
    if comes_first(&keys[i], &keys[j], how) {
        true
    } else if comes_first(&keys[j], &keys[i], how) {
        false
    } else if how.newest_row_first {
        j < i
    } else {
        i < j
    }
}

/// Where row `k` belongs in an ordered list of earlier rows.
fn place_for(keys: &Vec<SortKey>, how: Arrangement, rows: &Vec<usize>, k: usize) -> (p: usize)
    requires
        k < keys@.len(),
        forall|i: int| 0 <= i < rows@.len() ==> #[trigger] rows@[i] < k,
    ensures
        p <= rows@.len(),
        forall|i: int|
            0 <= i < p ==> precedes(keys.deep_view(), how, #[trigger] rows@[i] as int, k as int),
        p < rows@.len() ==> precedes(keys.deep_view(), how, k as int, rows@[p as int] as int),
{
    let mut p: usize = 0;
    while p < rows.len() && goes_before(keys, how, rows[p], k)
        invariant
            p <= rows@.len(),
            k < keys@.len(),
            forall|i: int| 0 <= i < rows@.len() ==> #[trigger] rows@[i] < k,
            forall|i: int|
                0 <= i < p ==> precedes(
                    keys.deep_view(),
                    how,
                    #[trigger] rows@[i] as int,
                    k as int,
                ),
        decreases rows@.len() - p,
    {
        p += 1;
    }
    proof {
        if p < rows@.len() {
            lemma_precedes_total(keys.deep_view(), how, k as int, rows@[p as int] as int);
        }
    }
    p
}

proof fn lemma_insert_listed(
    keys: Seq<KeyModel>,
    selected: Seq<bool>,
    how: Arrangement,
    rows: Seq<int>,
    k: int,
    p: int,
)
    requires
        0 <= k,
        selected[k],
        lists_up_to(keys, selected, how, k, rows),
        0 <= p <= rows.len(),
        forall|i: int| 0 <= i < p ==> precedes(keys, how, #[trigger] rows[i], k),
        p < rows.len() ==> precedes(keys, how, k, rows[p]),
    ensures
        lists_up_to(keys, selected, how, k + 1, rows.insert(p, k)),
{
    let longer = rows.insert(p, k);
    assert forall|i: int| 0 <= i < longer.len() implies 0 <= #[trigger] longer[i] < k + 1
        && selected[longer[i]] by {
        if i < p {
            assert(longer[i] == rows[i]);
        } else if i > p {
            assert(longer[i] == rows[i - 1]);
        }
    }
    assert forall|m: int| 0 <= m < k + 1 && #[trigger] selected[m] implies longer.contains(m) by {
        if m == k {
            assert(longer[p] == k);
        } else {
            assert(rows.contains(m));
            let i = choose|i: int| 0 <= i < rows.len() && rows[i] == m;
            if i < p {
                assert(longer[i] == m);
            } else {
                assert(longer[i + 1] == m);
            }
        }
    }
    assert forall|i: int, j: int| 0 <= i < j < longer.len() implies precedes(
        keys,
        how,
        #[trigger] longer[i],
        #[trigger] longer[j],
    ) by {
        if j < p {
            assert(longer[i] == rows[i] && longer[j] == rows[j]);
        } else if j == p {
            assert(longer[i] == rows[i]);
        } else if i > p {
            assert(longer[i] == rows[i - 1] && longer[j] == rows[j - 1]);
        } else if i == p {
            assert(longer[j] == rows[j - 1]);
            if j - 1 > p {
                assert(precedes(keys, how, rows[p], rows[j - 1]));
                lemma_precedes_transitive(keys, how, k, rows[p], rows[j - 1]);
            }
        } else {
            assert(longer[i] == rows[i] && longer[j] == rows[j - 1]);
        }
    }
}

/// The selected rows in order.
pub fn arrange(keys: &Vec<SortKey>, selected: &Vec<bool>, how: Arrangement) -> (rows: Vec<usize>)
    requires
        selected@.len() == keys@.len(),
    ensures
        row_numbers(rows@) == arranged(keys.deep_view(), selected@, how),
        is_listing(keys.deep_view(), selected@, how, row_numbers(rows@)),
        forall|i: int| 0 <= i < rows@.len() ==> #[trigger] rows@[i] < keys@.len(),
{
    let mut rows: Vec<usize> = Vec::new();
    let mut k: usize = 0;
    while k < keys.len()
        invariant
            k <= keys@.len(),
            selected@.len() == keys@.len(),
            lists_up_to(keys.deep_view(), selected@, how, k as int, row_numbers(rows@)),
        decreases keys@.len() - k,
    {
        if selected[k] {
            assert forall|i: int| 0 <= i < rows@.len() implies #[trigger] rows@[i] < k by {
                assert(row_numbers(rows@)[i] < k);
            }
            let p: usize = place_for(keys, how, &rows, k);
            let ghost before = row_numbers(rows@);
            proof {
                assert forall|i: int| 0 <= i < p implies precedes(
                    keys.deep_view(),
                    how,
                    #[trigger] before[i],
                    k as int,
                ) by {
                    assert(before[i] == rows@[i] as int);
                }
                lemma_insert_listed(keys.deep_view(), selected@, how, before, k as int, p as int);
            }
            rows.insert(p, k);
            assert(row_numbers(rows@) =~= before.insert(p as int, k as int));
        } else {
            let ghost listed = row_numbers(rows@);
            assert forall|m: int| 0 <= m < k + 1 && #[trigger] selected@[m] implies listed.contains(
                m,
            ) by {}
        }
        k += 1;
    }
    proof {
        lemma_arranged(keys.deep_view(), selected@, how, row_numbers(rows@));
        assert forall|i: int| 0 <= i < rows@.len() implies #[trigger] rows@[i] < keys@.len() by {
            assert(row_numbers(rows@)[i] < keys@.len());
        }
    }
    rows
}

// --- laws ------------------------------------------------------------------

proof fn lemma_place_exists(
    keys: Seq<KeyModel>,
    how: Arrangement,
    rows: Seq<int>,
    k: int,
    from: int,
) -> (p: int)
    requires
        0 <= from <= rows.len(),
        forall|i: int| 0 <= i < rows.len() ==> #[trigger] rows[i] != k,
        forall|i: int| 0 <= i < from ==> precedes(keys, how, #[trigger] rows[i], k),
    ensures
        from <= p <= rows.len(),
        forall|i: int| 0 <= i < p ==> precedes(keys, how, #[trigger] rows[i], k),
        p < rows.len() ==> precedes(keys, how, k, rows[p]),
    decreases rows.len() - from,
{
    if from < rows.len() && precedes(keys, how, rows[from], k) {
        lemma_place_exists(keys, how, rows, k, from + 1)
    } else {
        if from < rows.len() {
            lemma_precedes_total(keys, how, k, rows[from]);
        }
        from
    }
}

proof fn lemma_listing_up_to(
    keys: Seq<KeyModel>,
    selected: Seq<bool>,
    how: Arrangement,
    bound: int,
) -> (rows: Seq<int>)
    requires
        0 <= bound,
    ensures
        lists_up_to(keys, selected, how, bound, rows),
    decreases bound,
{
    if bound == 0 {
        Seq::empty()
    } else {
        let rows = lemma_listing_up_to(keys, selected, how, bound - 1);
        if selected[bound - 1] {
            let p = lemma_place_exists(keys, how, rows, bound - 1, 0);
            lemma_insert_listed(keys, selected, how, rows, bound - 1, p);
            rows.insert(p, bound - 1)
        } else {
            rows
        }
    }
}

/// Whatever rows are selected and whatever they are ordered by, an arrangement lists
/// exactly the selected rows, each once and in order.
pub proof fn law_arranged_lists_the_selected(
    keys: Seq<KeyModel>,
    selected: Seq<bool>,
    how: Arrangement,
)
    ensures
        is_listing(keys, selected, how, arranged(keys, selected, how)),
{
    let rows = lemma_listing_up_to(keys, selected, how, keys.len() as int);
    lemma_arranged(keys, selected, how, rows);
}

/// Rows that are not selected do not matter: appended, or changed, they leave the
/// arrangement as it is.
pub proof fn law_unselected_rows_do_not_matter(
    keys: Seq<KeyModel>,
    selected: Seq<bool>,
    more_keys: Seq<KeyModel>,
    more_selected: Seq<bool>,
    how: Arrangement,
)
    requires
        keys.len() <= more_keys.len(),
        forall|k: int|
            0 <= k < keys.len() ==> #[trigger] selected[k] == more_selected[k] && (selected[k]
                ==> keys[k] == more_keys[k]),
        forall|k: int| keys.len() <= k < more_keys.len() ==> !#[trigger] more_selected[k],
    ensures
        arranged(more_keys, more_selected, how) == arranged(keys, selected, how),
{
    let rows = arranged(keys, selected, how);
    law_arranged_lists_the_selected(keys, selected, how);
    assert forall|i: int| 0 <= i < rows.len() implies 0 <= #[trigger] rows[i] < more_keys.len()
        && more_selected[rows[i]] by {
        assert(selected[rows[i]]);
    }
    assert forall|k: int| 0 <= k < more_keys.len() && #[trigger] more_selected[k] implies rows.contains(
        k,
    ) by {
        assert(selected[k]);
    }
    assert forall|i: int, j: int| 0 <= i < j < rows.len() implies precedes(
        more_keys,
        how,
        #[trigger] rows[i],
        #[trigger] rows[j],
    ) by {
        assert(selected[rows[i]] && selected[rows[j]]);
        assert(precedes(keys, how, rows[i], rows[j]));
    }
    lemma_arranged(more_keys, more_selected, how, rows);
}

/// A listing holds the selected rows, each once.
pub proof fn lemma_listed_once(keys: Seq<KeyModel>, selected: Seq<bool>, how: Arrangement)
    ensures
        forall|k: int|
            #![trigger arranged(keys, selected, how).contains(k)]
            arranged(keys, selected, how).contains(k) ==> 0 <= k < keys.len() && selected[k],
        forall|k: int|
            0 <= k < keys.len() && #[trigger] selected[k] ==> arranged(
                keys,
                selected,
                how,
            ).contains(k),
        forall|i: int, j: int|
            0 <= i < j < arranged(keys, selected, how).len() ==> (#[trigger] arranged(
                keys,
                selected,
                how,
            )[i]) != (#[trigger] arranged(keys, selected, how)[j]),
{
    let rows = arranged(keys, selected, how);
    law_arranged_lists_the_selected(keys, selected, how);
    assert forall|i: int, j: int| 0 <= i < j < rows.len() implies (#[trigger] rows[i]) != (
    #[trigger] rows[j]) by {
        if rows[i] == rows[j] {
            lemma_precedes_total(keys, how, rows[i], rows[j]);
        }
    }
    assert forall|k: int| #[trigger] rows.contains(k) implies 0 <= k < keys.len() && selected[k] by {
        let i = choose|i: int| 0 <= i < rows.len() && rows[i] == k;
        assert(selected[rows[i]]);
    }
}

} // verus!
