//! The order of the rows of a report.
//!
//! Rows are ordered by what one column holds, from small to large or, in a
//! reversed report, from large to small. Rows that hold the same stay in the
//! order in which they were found. The order is given as the list of the
//! rows' indices.

use crate::fields::Field;
use crate::options::Options;
use crate::stats::{ProcessDetails, SortKey};
use crate::text::{lemma_text_order_total, lemma_text_order_transitive};
use vstd::prelude::*;

verus! {

/// The column that a report is ordered by: the one that the options name,
/// or the resident size.
pub open spec fn sort_column(sort_field: Option<Field>) -> Field {
    match sort_field {
        Some(field) => field,
        None => Field::Rss,
    }
}

/// What the rows are ordered by under a column, row by row.
pub open spec fn keys_of(rows: Seq<ProcessDetails>, field: Field, numeric: bool) -> Seq<SortKey> {
    Seq::new(rows.len(), |i: int| rows[i].sort_key(field, numeric))
}

/// Whether all keys are numbers or all are texts.
pub open spec fn one_kind(keys: Seq<SortKey>) -> bool {
    (forall|i: int| 0 <= i < keys.len() ==> (#[trigger] keys[i]) is Number) || (forall|i: int|
        0 <= i < keys.len() ==> (#[trigger] keys[i]) is Text)
}

/// Whether key `a` is ahead of key `b`: before it, or after it in a
/// reversed order.
pub open spec fn ahead(a: SortKey, b: SortKey, reverse: bool) -> bool {
    if reverse {
        b.before(a)
    } else {
        a.before(b)
    }
}

/// Whether row `a` stands above row `b` in the report: its key is ahead, or
/// neither key is ahead of the other and row `a` was found first.
pub open spec fn above(keys: Seq<SortKey>, a: int, b: int, reverse: bool) -> bool {
    ahead(keys[a], keys[b], reverse) || (!ahead(keys[b], keys[a], reverse) && a < b)
}

/// Whether `order` lists the rows as the report shows them: it holds each
/// row's index, and each row stands above those listed after it.
pub open spec fn is_order(order: Seq<usize>, keys: Seq<SortKey>, reverse: bool) -> bool {
    &&& order.len() == keys.len()
    &&& forall|i: int| 0 <= i < order.len() ==> (#[trigger] order[i]) < keys.len()
    &&& forall|k: int| 0 <= k < keys.len() ==> #[trigger] holds(order, k)
    &&& forall|i: int, j: int|
        0 <= i < j < order.len() ==> above(
            keys,
            #[trigger] order[i] as int,
            #[trigger] order[j] as int,
            reverse,
        )
}

/// Whether the list holds the index of row `k`.
pub open spec fn holds(order: Seq<usize>, k: int) -> bool {
    exists|i: int| 0 <= i < order.len() && #[trigger] order[i] == k
}

/// Whether no two rows hold the same key.
pub open spec fn distinct(keys: Seq<SortKey>) -> bool {
    forall|a: int, b: int|
        0 <= a < keys.len() && 0 <= b < keys.len() && a != b ==> #[trigger] keys[a]
            != #[trigger] keys[b]
}

/// Two keys of one kind are equal, or one of them is before the other, and
/// only one of the three holds.
pub proof fn lemma_keys_compare(a: SortKey, b: SortKey)
    requires
        a is Number <==> b is Number,
    ensures
        a.before(b) || a == b || b.before(a),
        !(a.before(b) && b.before(a)),
        !(a.before(b) && a == b),
{
    match (a, b) {
        (SortKey::Text(x), SortKey::Text(y)) => {
            lemma_text_order_total(x, y);
        },
        _ => {},
    }
}

/// A key that is before one that is before a third is before the third.
pub proof fn lemma_keys_chain(a: SortKey, b: SortKey, c: SortKey)
    requires
        a.before(b),
        b.before(c),
    ensures
        a.before(c),
{
    match (a, b, c) {
        (SortKey::Text(x), SortKey::Text(y), SortKey::Text(z)) => {
            lemma_text_order_transitive(x, y, z);
        },
        _ => {},
    }
}

/// The keys of rows under one column are of one kind.
pub proof fn lemma_keys_of_one_kind(rows: Seq<ProcessDetails>, field: Field, numeric: bool)
    ensures
        one_kind(keys_of(rows, field, numeric)),
{
}

/// Of two different rows one stands above the other, and not both.
pub proof fn lemma_above_total(keys: Seq<SortKey>, a: int, b: int, reverse: bool)
    requires
        one_kind(keys),
        0 <= a < keys.len(),
        0 <= b < keys.len(),
    ensures
        a != b ==> above(keys, a, b, reverse) || above(keys, b, a, reverse),
        !(above(keys, a, b, reverse) && above(keys, b, a, reverse)),
        !above(keys, a, a, reverse),
{
    lemma_keys_compare(keys[a], keys[b]);
}

/// A row that stands above one that stands above a third stands above the third.
pub proof fn lemma_above_chain(keys: Seq<SortKey>, a: int, b: int, c: int, reverse: bool)
    requires
        one_kind(keys),
        0 <= a < keys.len(),
        0 <= b < keys.len(),
        0 <= c < keys.len(),
        above(keys, a, b, reverse),
        above(keys, b, c, reverse),
    ensures
        above(keys, a, c, reverse),
{
    let (x, y, z) = (keys[a], keys[b], keys[c]);
    lemma_keys_compare(x, y);
    lemma_keys_compare(y, z);
    lemma_keys_compare(x, z);
    if x.before(y) && y.before(z) {
        lemma_keys_chain(x, y, z);
    }
    if z.before(y) && y.before(x) {
        lemma_keys_chain(z, y, x);
    }
}

/// The order of rows with the given keys: the one list that is their order.
pub open spec fn order_of(keys: Seq<SortKey>, reverse: bool) -> Seq<usize> {
    choose|order: Seq<usize>| is_order(order, keys, reverse)
}

/// Whether the list holds the rows from `lo` up to `hi`, each once, and no other.
pub open spec fn holds_range(list: Seq<usize>, lo: int, hi: int) -> bool {
    &&& list.len() == hi - lo
    &&& forall|i: int| 0 <= i < list.len() ==> lo <= (#[trigger] list[i]) < hi
    &&& forall|k: int| lo <= k < hi ==> #[trigger] holds(list, k)
}

/// Merges the orders of two stretches of rows that follow one another into
/// the order of both.
fn merge(
    rows: &Vec<ProcessDetails>,
    left: &Vec<usize>,
    right: &Vec<usize>,
    field: Field,
    options: &Options,
    Ghost(lo): Ghost<int>,
    Ghost(mid): Ghost<int>,
    Ghost(hi): Ghost<int>,
) -> (out: Vec<usize>)
    requires
        0 <= lo <= mid <= hi <= rows@.len(),
        holds_range(left@, lo, mid),
        holds_range(right@, mid, hi),
        is_sorted(left@, keys_of(rows@, field, options.numeric), options.reverse),
        is_sorted(right@, keys_of(rows@, field, options.numeric), options.reverse),
    ensures
        holds_range(out@, lo, hi),
        is_sorted(out@, keys_of(rows@, field, options.numeric), options.reverse),
{
    let ghost keys = keys_of(rows@, field, options.numeric);
    let ghost reverse = options.reverse;
    proof {
        lemma_keys_of_one_kind(rows@, field, options.numeric);
    }
    let mut out: Vec<usize> = Vec::new();
    let mut i: usize = 0;
    let mut j: usize = 0;
    while i < left.len() || j < right.len()
        invariant
            0 <= lo <= mid <= hi <= rows@.len() == keys.len(),
            keys == keys_of(rows@, field, options.numeric),
            reverse == options.reverse,
            one_kind(keys),
            holds_range(left@, lo, mid),
            holds_range(right@, mid, hi),
            is_sorted(left@, keys, reverse),
            is_sorted(right@, keys, reverse),
            i <= left@.len(),
            j <= right@.len(),
            out@.len() == i + j,
            forall|p: int| 0 <= p < out@.len() ==> lo <= (#[trigger] out@[p]) < hi,
            forall|t: int| 0 <= t < i ==> holds(out@, #[trigger] left@[t] as int),
            forall|t: int| 0 <= t < j ==> holds(out@, #[trigger] right@[t] as int),
            forall|p: int, q: int|
                0 <= p < q < out@.len() ==> above(
                    keys,
                    #[trigger] out@[p] as int,
                    #[trigger] out@[q] as int,
                    reverse,
                ),
            forall|p: int, t: int|
                0 <= p < out@.len() && i <= t < left@.len() ==> above(
                    keys,
                    #[trigger] out@[p] as int,
                    #[trigger] left@[t] as int,
                    reverse,
                ),
            forall|p: int, t: int|
                0 <= p < out@.len() && j <= t < right@.len() ==> above(
                    keys,
                    #[trigger] out@[p] as int,
                    #[trigger] right@[t] as int,
                    reverse,
                ),
        decreases left@.len() - i + right@.len() - j,
    {
        let from_right = if i == left.len() {
            true
        } else if j == right.len() {
            false
        } else {
            rows[right[j]].is_ahead(field, &rows[left[i]], options)
        };
        let ghost before = out@;
        if from_right {
            let y = right[j];
            out.push(y);
            proof {
                assert forall|t: int| i <= t < left@.len() implies above(
                    keys,
                    y as int,
                    #[trigger] left@[t] as int,
                    reverse,
                ) by {
                    if t > i {
                        assert(above(keys, left@[i as int] as int, left@[t] as int, reverse));
                        lemma_above_chain(
                            keys,
                            y as int,
                            left@[i as int] as int,
                            left@[t] as int,
                            reverse,
                        );
                    }
                }
                assert forall|t: int| j + 1 <= t < right@.len() implies above(
                    keys,
                    y as int,
                    #[trigger] right@[t] as int,
                    reverse,
                ) by {
                    assert(above(keys, right@[j as int] as int, right@[t] as int, reverse));
                }
                assert forall|t: int| 0 <= t < i implies holds(
                    out@,
                    #[trigger] left@[t] as int,
                ) by {
                    let w = choose|w: int|
                        0 <= w < before.len() && #[trigger] before[w] == left@[t];
                    assert(out@[w] == left@[t]);
                }
                assert forall|t: int| 0 <= t < j + 1 implies holds(
                    out@,
                    #[trigger] right@[t] as int,
                ) by {
                    if t < j {
                        let w = choose|w: int|
                            0 <= w < before.len() && #[trigger] before[w] == right@[t];
                        assert(out@[w] == right@[t]);
                    } else {
                        assert(out@[before.len() as int] == right@[t]);
                    }
                }
            }
            j = j + 1;
        } else {
            let x = left[i];
            out.push(x);
            proof {
                assert forall|t: int| i + 1 <= t < left@.len() implies above(
                    keys,
                    x as int,
                    #[trigger] left@[t] as int,
                    reverse,
                ) by {
                    assert(above(keys, left@[i as int] as int, left@[t] as int, reverse));
                }
                assert forall|t: int| j <= t < right@.len() implies above(
                    keys,
                    x as int,
                    #[trigger] right@[t] as int,
                    reverse,
                ) by {
                    assert(above(keys, x as int, right@[j as int] as int, reverse));
                    if t > j {
                        assert(above(keys, right@[j as int] as int, right@[t] as int, reverse));
                        lemma_above_chain(
                            keys,
                            x as int,
                            right@[j as int] as int,
                            right@[t] as int,
                            reverse,
                        );
                    }
                }
                assert forall|t: int| 0 <= t < i + 1 implies holds(
                    out@,
                    #[trigger] left@[t] as int,
                ) by {
                    if t < i {
                        let w = choose|w: int|
                            0 <= w < before.len() && #[trigger] before[w] == left@[t];
                        assert(out@[w] == left@[t]);
                    } else {
                        assert(out@[before.len() as int] == left@[t]);
                    }
                }
                assert forall|t: int| 0 <= t < j implies holds(
                    out@,
                    #[trigger] right@[t] as int,
                ) by {
                    let w = choose|w: int|
                        0 <= w < before.len() && #[trigger] before[w] == right@[t];
                    assert(out@[w] == right@[t]);
                }
            }
            i = i + 1;
        }
    }
    proof {
        assert forall|k: int| lo <= k < hi implies #[trigger] holds(out@, k) by {
            if k < mid {
                assert(holds(left@, k));
                let t = choose|t: int| 0 <= t < left@.len() && #[trigger] left@[t] == k;
                assert(holds(out@, left@[t] as int));
            } else {
                assert(holds(right@, k));
                let t = choose|t: int| 0 <= t < right@.len() && #[trigger] right@[t] == k;
                assert(holds(out@, right@[t] as int));
            }
        }
    }
    out
}

/// Orders the rows from `lo` up to `hi`.
fn sort_range(
    rows: &Vec<ProcessDetails>,
    lo: usize,
    hi: usize,
    field: Field,
    options: &Options,
) -> (out: Vec<usize>)
    requires
        lo <= hi <= rows@.len(),
    ensures
        holds_range(out@, lo as int, hi as int),
        is_sorted(out@, keys_of(rows@, field, options.numeric), options.reverse),
    decreases hi - lo,
{
    if hi - lo < 2 {
        let mut out: Vec<usize> = Vec::new();
        if lo < hi {
            out.push(lo);
            assert(out@[0] == lo);
        }
        return out;
    }
    let mid = lo + (hi - lo) / 2;
    let left = sort_range(rows, lo, mid, field, options);
    let right = sort_range(rows, mid, hi, field, options);
    merge(
        rows,
        &left,
        &right,
        field,
        options,
        Ghost(lo as int),
        Ghost(mid as int),
        Ghost(hi as int),
    )
}

/// The order of the rows in the report: by the column that the options name,
/// reversed where they say so.
pub fn sort_order(rows: &Vec<ProcessDetails>, options: &Options) -> (order: Vec<usize>)
    ensures
        is_order(
            order@,
            keys_of(rows@, sort_column(options.sort_field), options.numeric),
            options.reverse,
        ),
        order@ == order_of(
            keys_of(rows@, sort_column(options.sort_field), options.numeric),
            options.reverse,
        ),
{
    let field = match options.sort_field {
        Some(field) => field,
        None => Field::Rss,
    };
    let ghost keys = keys_of(rows@, field, options.numeric);
    let order = sort_range(rows, 0, rows.len(), field, options);
    proof {
        lemma_keys_of_one_kind(rows@, field, options.numeric);
        assert(is_order(order@, keys, options.reverse));
        lemma_order_unique(order@, order_of(keys, options.reverse), keys, options.reverse);
    }
    order
}

/// Whether each row that the list holds stands above those listed after it.
pub open spec fn is_sorted(list: Seq<usize>, keys: Seq<SortKey>, reverse: bool) -> bool {
    &&& forall|i: int| 0 <= i < list.len() ==> (#[trigger] list[i]) < keys.len()
    &&& forall|i: int, j: int|
        0 <= i < j < list.len() ==> above(
            keys,
            #[trigger] list[i] as int,
            #[trigger] list[j] as int,
            reverse,
        )
}

/// Two lists that hold the same rows, each row above those listed after it,
/// are the same list.
pub proof fn lemma_sorted_lists_agree(
    x: Seq<usize>,
    y: Seq<usize>,
    keys: Seq<SortKey>,
    reverse: bool,
)
    requires
        one_kind(keys),
        is_sorted(x, keys, reverse),
        is_sorted(y, keys, reverse),
        forall|k: int| holds(x, k) <==> holds(y, k),
    ensures
        x == y,
    decreases x.len(),
{
    if x.len() == 0 {
        if y.len() > 0 {
            assert(holds(y, y[0] as int));
        }
        assert(x =~= y);
    } else {
        assert(holds(x, x[0] as int));
        assert(holds(y, x[0] as int));
        let k = choose|k: int| 0 <= k < y.len() && #[trigger] y[k] == x[0];
        assert(holds(y, y[0] as int));
        assert(holds(x, y[0] as int));
        let m = choose|m: int| 0 <= m < x.len() && #[trigger] x[m] == y[0];
        lemma_above_total(keys, x[0] as int, y[0] as int, reverse);
        if k > 0 && m > 0 {
            assert(above(keys, y[0] as int, y[k] as int, reverse));
            assert(above(keys, x[0] as int, x[m] as int, reverse));
        }
        assert(x[0] == y[0]);
        let xs = x.skip(1);
        let ys = y.skip(1);
        assert forall|k: int| holds(xs, k) <==> holds(ys, k) by {
            lemma_tail_holds(x, keys, reverse, k);
            lemma_tail_holds(y, keys, reverse, k);
        }
        assert forall|i: int, j: int| 0 <= i < j < xs.len() implies above(
            keys,
            #[trigger] xs[i] as int,
            #[trigger] xs[j] as int,
            reverse,
        ) by {
            assert(xs[i] == x[i + 1] && xs[j] == x[j + 1]);
        }
        assert forall|i: int, j: int| 0 <= i < j < ys.len() implies above(
            keys,
            #[trigger] ys[i] as int,
            #[trigger] ys[j] as int,
            reverse,
        ) by {
            assert(ys[i] == y[i + 1] && ys[j] == y[j + 1]);
        }
        lemma_sorted_lists_agree(xs, ys, keys, reverse);
        assert(x =~= seq![x[0]] + xs);
        assert(y =~= seq![y[0]] + ys);
    }
}

/// What a list holds after its first entry is what it holds, but for that entry.
proof fn lemma_tail_holds(x: Seq<usize>, keys: Seq<SortKey>, reverse: bool, k: int)
    requires
        one_kind(keys),
        is_sorted(x, keys, reverse),
        x.len() > 0,
    ensures
        holds(x.skip(1), k) <==> holds(x, k) && k != x[0],
{
    let xs = x.skip(1);
    if holds(xs, k) {
        let t = choose|t: int| 0 <= t < xs.len() && #[trigger] xs[t] == k;
        assert(x[t + 1] == k);
        assert(above(keys, x[0] as int, x[t + 1] as int, reverse));
        lemma_above_total(keys, x[0] as int, x[0] as int, reverse);
    }
    if holds(x, k) && k != x[0] {
        let t = choose|t: int| 0 <= t < x.len() && #[trigger] x[t] == k;
        assert(xs[t - 1] == k);
    }
}

/// The rows settle their order: two lists that both are the order of the
/// same rows are the same list.
pub proof fn lemma_order_unique(a: Seq<usize>, b: Seq<usize>, keys: Seq<SortKey>, reverse: bool)
    requires
        one_kind(keys),
        is_order(a, keys, reverse),
        is_order(b, keys, reverse),
    ensures
        a == b,
{
    assert forall|k: int| holds(a, k) <==> holds(b, k) by {
        if holds(a, k) {
            let t = choose|t: int| 0 <= t < a.len() && #[trigger] a[t] == k;
            assert(0 <= k < keys.len());
        }
        if holds(b, k) {
            let t = choose|t: int| 0 <= t < b.len() && #[trigger] b[t] == k;
            assert(0 <= k < keys.len());
        }
    }
    lemma_sorted_lists_agree(a, b, keys, reverse);
}

/// Where no two rows hold the same key, the reversed order is the order
/// read from its end: what ordering from small to large and then turning
/// the list round gives is what ordering from large to small gives.
pub proof fn lemma_reversed_order(
    ascending: Seq<usize>,
    descending: Seq<usize>,
    keys: Seq<SortKey>,
)
    requires
        one_kind(keys),
        distinct(keys),
        is_order(ascending, keys, false),
        is_order(descending, keys, true),
    ensures
        descending == ascending.reverse(),
{
    let turned = ascending.reverse();
    let n = ascending.len() as int;
    assert forall|k: int| 0 <= k < keys.len() implies #[trigger] holds(turned, k) by {
        assert(holds(ascending, k));
        let t = choose|t: int| 0 <= t < ascending.len() && #[trigger] ascending[t] == k;
        assert(turned[n - 1 - t] == k);
    }
    assert forall|i: int, j: int| 0 <= i < j < turned.len() implies above(
        keys,
        #[trigger] turned[i] as int,
        #[trigger] turned[j] as int,
        true,
    ) by {
        let u = ascending[n - 1 - i];
        let v = ascending[n - 1 - j];
        assert(turned[i] == u && turned[j] == v);
        assert(above(keys, v as int, u as int, false));
        lemma_above_total(keys, u as int, u as int, false);
        lemma_keys_compare(keys[u as int], keys[v as int]);
    }
    lemma_order_unique(descending, turned, keys, true);
}

} // verus!
