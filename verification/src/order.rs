//! The orders a table's rows are shown in.
//!
//! Every table sorts the same way: by one column, stably, so rows that tie
//! keep the order the report gave them. A sort is answered as the positions
//! of the rows in their new order, which is what lets a panel keep reading
//! its rows from the report rather than copying them.

use vstd::prelude::*;

verus! {

/// Whether one text sorts strictly before another: character by character,
/// by code point, and a prefix before anything it is a prefix of. This is
/// the order of UTF-8 strings byte by byte, since UTF-8 keeps code point
/// order.
pub open spec fn text_less(a: Seq<char>, b: Seq<char>) -> bool
    decreases a.len(),
{
    if a.len() == 0 {
        b.len() > 0
    } else if b.len() == 0 {
        false
    } else if a[0] != b[0] {
        a[0] < b[0]
    } else {
        text_less(a.drop_first(), b.drop_first())
    }
}

proof fn lemma_text_irreflexive(a: Seq<char>)
    ensures
        !text_less(a, a),
    decreases a.len(),
{
    if a.len() > 0 {
        lemma_text_irreflexive(a.drop_first());
    }
}

proof fn lemma_text_transitive(a: Seq<char>, b: Seq<char>, c: Seq<char>)
    requires
        text_less(a, b),
        text_less(b, c),
    ensures
        text_less(a, c),
    decreases a.len(),
{
    if a.len() > 0 && b.len() > 0 && c.len() > 0 && a[0] == b[0] && b[0] == c[0] {
        lemma_text_transitive(a.drop_first(), b.drop_first(), c.drop_first());
    }
}

proof fn lemma_text_total(a: Seq<char>, b: Seq<char>)
    requires
        a != b,
    ensures
        text_less(a, b) || text_less(b, a),
    decreases a.len(),
{
    if a.len() > 0 && b.len() > 0 {
        if a[0] == b[0] {
            if a.drop_first() == b.drop_first() {
                assert(a =~= seq![a[0]] + a.drop_first());
                assert(b =~= seq![b[0]] + b.drop_first());
            }
            lemma_text_total(a.drop_first(), b.drop_first());
        }
    } else if a.len() == 0 && b.len() == 0 {
        assert(a =~= b);
    }
}

/// The column a table is sorted by, as one key per row.
pub enum SortKey {
    /// Smallest first.
    Smallest(Vec<u64>),
    /// Largest first.
    Largest(Vec<u64>),
    /// Alphabetical by code point.
    Text(Vec<Vec<char>>),
}

/// A sort key as contracts read it.
pub ghost enum KeyView {
    Smallest(Seq<u64>),
    Largest(Seq<u64>),
    Text(Seq<Seq<char>>),
}

impl View for SortKey {
    type V = KeyView;

    open spec fn view(&self) -> KeyView {
        match self {
            SortKey::Smallest(k) => KeyView::Smallest(k@),
            SortKey::Largest(k) => KeyView::Largest(k@),
            SortKey::Text(k) => KeyView::Text(Seq::new(k@.len(), |i: int| k@[i]@)),
        }
    }
}

impl KeyView {
    /// How many rows the key covers.
    pub open spec fn count(self) -> nat {
        match self {
            KeyView::Smallest(k) => k.len(),
            KeyView::Largest(k) => k.len(),
            KeyView::Text(k) => k.len(),
        }
    }

    /// Whether row `a` is shown before row `b`: by the key, and a tie by the
    /// order the rows came in.
    pub open spec fn before(self, a: int, b: int) -> bool {
        match self {
            KeyView::Smallest(k) => k[a] < k[b] || (k[a] == k[b] && a < b),
            KeyView::Largest(k) => k[a] > k[b] || (k[a] == k[b] && a < b),
            KeyView::Text(k) => text_less(k[a], k[b]) || (k[a] == k[b] && a < b),
        }
    }
}

impl SortKey {
    pub fn len(&self) -> (r: usize)
        ensures
            r == self@.count(),
    {
        match self {
            SortKey::Smallest(k) => k.len(),
            SortKey::Largest(k) => k.len(),
            SortKey::Text(k) => k.len(),
        }
    }

    fn precedes(&self, a: usize, b: usize) -> (r: bool)
        requires
            a < self@.count(),
            b < self@.count(),
        ensures
            r == self@.before(a as int, b as int),
    {
        match self {
            SortKey::Smallest(k) => k[a] < k[b] || (k[a] == k[b] && a < b),
            SortKey::Largest(k) => k[a] > k[b] || (k[a] == k[b] && a < b),
            SortKey::Text(k) => {
                let c = compare_text(&k[a], &k[b]);
                c < 0 || (c == 0 && a < b)
            },
        }
    }
}

/// Three-way comparison of two texts: negative, zero or positive as the
/// first sorts before, with or after the second.
fn compare_text(a: &Vec<char>, b: &Vec<char>) -> (r: i8)
    ensures
        r < 0 <==> text_less(a@, b@),
        r == 0 <==> a@ == b@,
        r > 0 <==> text_less(b@, a@),
{
    proof {
        lemma_text_irreflexive(a@);
        if a@ != b@ {
            lemma_text_total(a@, b@);
        }
    }
    let mut i: usize = 0;
    assert(a@.skip(0) =~= a@);
    assert(b@.skip(0) =~= b@);
    while i < a.len() && i < b.len() && a[i] == b[i]
        invariant
            i <= a.len(),
            i <= b.len(),
            a@.take(i as int) == b@.take(i as int),
            text_less(a@, b@) == text_less(a@.skip(i as int), b@.skip(i as int)),
            text_less(b@, a@) == text_less(b@.skip(i as int), a@.skip(i as int)),
        decreases a.len() - i,
    {
        assert(a@.skip(i as int).drop_first() =~= a@.skip(i + 1));
        assert(b@.skip(i as int).drop_first() =~= b@.skip(i + 1));
        assert(a@.take(i + 1) =~= a@.take(i as int).push(a@[i as int]));
        assert(b@.take(i + 1) =~= b@.take(i as int).push(b@[i as int]));
        i = i + 1;
    }
    if i < a.len() && i < b.len() {
        assert(a@.skip(i as int)[0] == a@[i as int]);
        assert(b@.skip(i as int)[0] == b@[i as int]);
        if a[i] < b[i] {
            -1
        } else {
            1
        }
    } else if i < a.len() {
        1
    } else if i < b.len() {
        -1
    } else {
        assert(a@ =~= a@.take(i as int));
        assert(b@ =~= b@.take(i as int));
        0
    }
}

/// The order a sort key puts every row in is strict and total: no row
/// before itself, before chains, and of two different rows one comes first.
pub proof fn lemma_before_is_an_order(keys: KeyView, a: int, b: int, c: int)
    requires
        0 <= a < keys.count(),
        0 <= b < keys.count(),
        0 <= c < keys.count(),
    ensures
        !keys.before(a, a),
        keys.before(a, b) && keys.before(b, c) ==> keys.before(a, c),
        a != b ==> keys.before(a, b) || keys.before(b, a),
        keys.before(a, b) ==> !keys.before(b, a),
{
    match keys {
        KeyView::Text(k) => {
            lemma_text_irreflexive(k[a]);
            lemma_text_irreflexive(k[b]);
            if text_less(k[a], k[b]) && text_less(k[b], k[a]) {
                lemma_text_transitive(k[a], k[b], k[a]);
            }
            if keys.before(a, b) && keys.before(b, c) {
                if text_less(k[a], k[b]) && text_less(k[b], k[c]) {
                    lemma_text_transitive(k[a], k[b], k[c]);
                }
            }
            if k[a] != k[b] {
                lemma_text_total(k[a], k[b]);
            }
        },
        _ => {},
    }
}

/// An order of rows: every row exactly once, each before the next.
pub open spec fn arranges(order: Seq<usize>, keys: KeyView) -> bool {
    &&& order.len() == keys.count()
    &&& forall|i: int| 0 <= i < order.len() ==> order[i] < keys.count()
    &&& forall|k: usize| k < keys.count() ==> #[trigger] order.contains(k)
    &&& forall|i: int, j: int|
        0 <= i < j < order.len() ==> keys.before(order[i] as int, order[j] as int)
}

/// The one order a key puts its rows in.
pub open spec fn sorted_spec(keys: KeyView) -> Seq<usize> {
    choose|o: Seq<usize>| arranges(o, keys)
}

/// The rows in the order the key puts them.
pub fn sorted(keys: &SortKey) -> (order: Vec<usize>)
    ensures
        arranges(order@, keys@),
        order@ == sorted_spec(keys@),
{
    let n = keys.len();
    let mut order: Vec<usize> = Vec::new();
    let mut i: usize = 0;
    while i < n
        invariant
            n == keys@.count(),
            i <= n,
            order@.len() == i,
            forall|q: int| 0 <= q < order@.len() ==> order@[q] < i,
            forall|k: usize| k < i ==> #[trigger] order@.contains(k),
            forall|p: int, q: int|
                0 <= p < q < order@.len() ==> keys@.before(order@[p] as int, order@[q] as int),
        decreases n - i,
    {
        let mut p: usize = 0;
        while p < order.len() && keys.precedes(order[p], i)
            invariant
                n == keys@.count(),
                i < n,
                p <= order@.len(),
                forall|q: int| 0 <= q < order@.len() ==> order@[q] < i,
                forall|q: int| 0 <= q < p ==> keys@.before(#[trigger] order@[q] as int, i as int),
            decreases order@.len() - p,
        {
            p = p + 1;
        }
        proof {
            assert forall|q: int| p <= q < order@.len() implies keys@.before(
                i as int,
                #[trigger] order@[q] as int,
            ) by {
                lemma_before_is_an_order(keys@, order@[p as int] as int, order@[q] as int, i as int);
                lemma_before_is_an_order(keys@, order@[q] as int, i as int, order@[p as int] as int);
                lemma_before_is_an_order(keys@, i as int, order@[q] as int, i as int);
            }
        }
        let ghost before = order@;
        order.insert(p, i);
        proof {
            before.insert_ensures(p as int, i);
            assert forall|k: usize| k <= i implies #[trigger] order@.contains(k) by {
                if k == i {
                    assert(order@[p as int] == i);
                } else {
                    assert(before.contains(k));
                    let t = choose|t: int| 0 <= t < before.len() && before[t] == k;
                    if t < p {
                        assert(order@[t] == k);
                    } else {
                        assert(order@[t + 1] == k);
                    }
                }
            }
            assert forall|a: int, b: int| 0 <= a < b < order@.len() implies keys@.before(
                order@[a] as int,
                order@[b] as int,
            ) by {
                if b < p {
                } else if b == p {
                    assert(order@[a] == before[a]);
                } else if a < p {
                    assert(order@[b] == before[b - 1]);
                } else if a == p {
                    assert(order@[b] == before[b - 1]);
                } else {
                    assert(order@[a] == before[a - 1]);
                    assert(order@[b] == before[b - 1]);
                }
            }
        }
        i = i + 1;
    }
    proof {
        assert(arranges(order@, keys@));
        law_one_order_per_key(order@, sorted_spec(keys@), keys@);
    }
    order
}

/// Two orderings of the same rows, each strictly by the key, are the same
/// ordering.
proof fn lemma_sorted_unique(o1: Seq<usize>, o2: Seq<usize>, keys: KeyView)
    requires
        o1.len() == o2.len(),
        forall|i: int| 0 <= i < o1.len() ==> o1[i] < keys.count(),
        forall|i: int| 0 <= i < o2.len() ==> o2[i] < keys.count(),
        forall|x: usize| o1.contains(x) ==> #[trigger] o2.contains(x),
        forall|x: usize| o2.contains(x) ==> #[trigger] o1.contains(x),
        forall|i: int, j: int| 0 <= i < j < o1.len() ==> keys.before(o1[i] as int, o1[j] as int),
        forall|i: int, j: int| 0 <= i < j < o2.len() ==> keys.before(o2[i] as int, o2[j] as int),
    ensures
        o1 == o2,
    decreases o1.len(),
{
    if o1.len() == 0 {
        assert(o1 =~= o2);
    } else {
        let h1 = o1[0];
        let h2 = o2[0];
        assert(o1.contains(h1));
        assert(o2.contains(h2));
        assert(o2.contains(h1));
        assert(o1.contains(h2));
        if h1 != h2 {
            let j = choose|j: int| 0 <= j < o2.len() && o2[j] == h1;
            let t = choose|t: int| 0 <= t < o1.len() && o1[t] == h2;
            assert(j > 0 && t > 0);
            assert(keys.before(h2 as int, h1 as int));
            assert(keys.before(h1 as int, h2 as int));
            lemma_before_is_an_order(keys, h1 as int, h2 as int, h1 as int);
        }
        let r1 = o1.drop_first();
        let r2 = o2.drop_first();
        assert forall|x: usize| r1.contains(x) implies #[trigger] r2.contains(x) by {
            let t = choose|t: int| 0 <= t < r1.len() && r1[t] == x;
            assert(o1[t + 1] == x);
            assert(o1.contains(x));
            assert(o2.contains(x));
            let j = choose|j: int| 0 <= j < o2.len() && o2[j] == x;
            if j == 0 {
                assert(keys.before(o1[0] as int, o1[t + 1] as int));
                lemma_before_is_an_order(keys, x as int, x as int, x as int);
            }
            assert(r2[j - 1] == x);
        }
        assert forall|x: usize| r2.contains(x) implies #[trigger] r1.contains(x) by {
            let t = choose|t: int| 0 <= t < r2.len() && r2[t] == x;
            assert(o2[t + 1] == x);
            assert(o2.contains(x));
            assert(o1.contains(x));
            let j = choose|j: int| 0 <= j < o1.len() && o1[j] == x;
            if j == 0 {
                assert(keys.before(o2[0] as int, o2[t + 1] as int));
                lemma_before_is_an_order(keys, x as int, x as int, x as int);
            }
            assert(r1[j - 1] == x);
        }
        assert forall|i: int, j: int| 0 <= i < j < r1.len() implies keys.before(
            r1[i] as int,
            r1[j] as int,
        ) by {
            assert(r1[i] == o1[i + 1] && r1[j] == o1[j + 1]);
        }
        assert forall|i: int, j: int| 0 <= i < j < r2.len() implies keys.before(
            r2[i] as int,
            r2[j] as int,
        ) by {
            assert(r2[i] == o2[i + 1] && r2[j] == o2[j + 1]);
        }
        lemma_sorted_unique(r1, r2, keys);
        assert(o1 =~= seq![h1] + r1);
        assert(o2 =~= seq![h2] + r2);
    }
}

/// A sort key decides the order of the rows completely: there is one way to
/// show every row once with each before the next, so a stable sort has
/// exactly one answer.
pub proof fn law_one_order_per_key(o1: Seq<usize>, o2: Seq<usize>, keys: KeyView)
    requires
        arranges(o1, keys),
        arranges(o2, keys),
    ensures
        o1 == o2,
{
    assert forall|x: usize| o1.contains(x) implies #[trigger] o2.contains(x) by {
        let t = choose|t: int| 0 <= t < o1.len() && o1[t] == x;
        assert(x < keys.count());
    }
    assert forall|x: usize| o2.contains(x) implies #[trigger] o1.contains(x) by {
        let t = choose|t: int| 0 <= t < o2.len() && o2[t] == x;
        assert(x < keys.count());
    }
    lemma_sorted_unique(o1, o2, keys);
}

/// The same rows, last first.
pub fn reversed(order: &Vec<usize>) -> (r: Vec<usize>)
    ensures
        r@ == order@.reverse(),
{
    let mut r: Vec<usize> = Vec::new();
    let mut i: usize = order.len();
    while i > 0
        invariant
            i <= order@.len(),
            r@.len() == order@.len() - i,
            forall|j: int| 0 <= j < r@.len() ==> r@[j] == order@[order@.len() - 1 - j],
        decreases i,
    {
        i = i - 1;
        r.push(order[i]);
    }
    assert(r@ =~= order@.reverse());
    r
}

/// The order a table shows its rows in: the key's order, or that order
/// reversed when the sort is descending.
pub open spec fn shown_spec(keys: KeyView, descending: bool) -> Seq<usize> {
    if descending {
        sorted_spec(keys).reverse()
    } else {
        sorted_spec(keys)
    }
}

/// Counts that never fall from one row to the next, or, descending, never
/// rise.
pub open spec fn counts_in_order(counts: Seq<int>, descending: bool) -> bool {
    forall|a: int, b: int|
        0 <= a < b < counts.len() ==> if descending {
            counts[a] >= counts[b]
        } else {
            counts[a] <= counts[b]
        }
}

/// Texts of which none sorts before an earlier one, or, descending, after
/// an earlier one.
pub open spec fn texts_in_order(texts: Seq<Seq<char>>, descending: bool) -> bool {
    forall|a: int, b: int|
        0 <= a < b < texts.len() ==> if descending {
            !text_less(texts[a], texts[b])
        } else {
            !text_less(texts[b], texts[a])
        }
}

/// The keys of rows, taken in the order given, are in the key's order: a
/// count never falls going down (never rises when descending, and the other
/// way round for a largest-first key), and no text sorts before the one
/// above it (after it, when descending).
pub open spec fn follows_key(keys: KeyView, rows: Seq<usize>, descending: bool) -> bool {
    match keys {
        KeyView::Smallest(k) => counts_in_order(
            Seq::new(rows.len(), |t: int| k[rows[t] as int] as int),
            descending,
        ),
        KeyView::Largest(k) => counts_in_order(
            Seq::new(rows.len(), |t: int| k[rows[t] as int] as int),
            !descending,
        ),
        KeyView::Text(k) => texts_in_order(Seq::new(rows.len(), |t: int| k[rows[t] as int]), descending),
    }
}

/// The rows as a table shows them follow their key, ascending or
/// descending.
pub proof fn law_shown_rows_follow_their_key(keys: KeyView, order: Seq<usize>, descending: bool)
    requires
        arranges(order, keys),
    ensures
        follows_key(
            keys,
            if descending {
                order.reverse()
            } else {
                order
            },
            descending,
        ),
{
    let n = order.len() as int;
    let r = if descending {
        order.reverse()
    } else {
        order
    };
    assert forall|a: int, b: int| #![trigger r[a], r[b]] 0 <= a < b < n implies {
        let (x, y) = if descending {
            (r[b] as int, r[a] as int)
        } else {
            (r[a] as int, r[b] as int)
        };
        keys.before(x, y) && !keys.before(y, x)
    } by {
        let (i, j) = if descending {
            (n - 1 - b, n - 1 - a)
        } else {
            (a, b)
        };
        assert(keys.before(order[i] as int, order[j] as int));
        lemma_before_is_an_order(keys, order[i] as int, order[j] as int, order[j] as int);
    }
    match keys {
        KeyView::Smallest(k) => {
            let c = Seq::new(r.len(), |t: int| k[r[t] as int] as int);
            assert forall|a: int, b: int| 0 <= a < b < c.len() implies (if descending {
                c[a] >= c[b]
            } else {
                c[a] <= c[b]
            }) by {}
        },
        KeyView::Largest(k) => {
            let c = Seq::new(r.len(), |t: int| k[r[t] as int] as int);
            assert forall|a: int, b: int| 0 <= a < b < c.len() implies (if !descending {
                c[a] >= c[b]
            } else {
                c[a] <= c[b]
            }) by {}
        },
        KeyView::Text(k) => {
            let c = Seq::new(r.len(), |t: int| k[r[t] as int]);
            assert forall|a: int, b: int| 0 <= a < b < c.len() implies (if descending {
                !text_less(c[a], c[b])
            } else {
                !text_less(c[b], c[a])
            }) by {}
        },
    }
}

/// The rows in the order a table shows them.
pub fn shown(keys: &SortKey, descending: bool) -> (r: Vec<usize>)
    ensures
        r@ == shown_spec(keys@, descending),
        r@.len() == keys@.count(),
        forall|t: int| 0 <= t < r@.len() ==> r@[t] < keys@.count(),
        follows_key(keys@, r@, descending),
{
    let order = sorted(keys);
    proof {
        law_shown_rows_follow_their_key(keys@, order@, descending);
    }
    if descending {
        let r = reversed(&order);
        assert forall|t: int| 0 <= t < r@.len() implies r@[t] < keys@.count() by {
            assert(r@[t] == order@[order@.len() - 1 - t]);
        }
        r
    } else {
        order
    }
}

} // verus!
