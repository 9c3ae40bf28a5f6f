//! The final order of environment rows: pinned rows first, then by label
//! without regard to case, then by id.
//!
//! Lower case is what `str::to_lowercase` makes of a label; the order of
//! two strings is the order of their characters at the first difference.

use vstd::prelude::*;
use vstd::seq_lib::{to_multiset_build, to_multiset_insert};

use crate::environments::{distinct_ids, EnvironmentRowNapi, RowModel};
use crate::text::{
    chars_of, lemma_text_less_irreflexive, lemma_text_less_total, lemma_text_less_transitive,
    lowercased, text_before, text_less, to_lowercase,
};

verus! {

/// A row counts as pinned where its pin is set and true.
pub open spec fn is_pinned_row(row: RowModel) -> bool {
    row.is_pinned == Some(true)
}

/// The label a row is ordered by: its label in lower case, the empty
/// string where it has none.
pub open spec fn order_label(row: RowModel) -> Seq<char> {
    lowercased(
        match row.label {
            Some(label) => label,
            None => Seq::empty(),
        },
    )
}

/// The order of two rows by their three keys: the pinned one first; of two
/// pinned alike the one with the smaller label; of two with the same label
/// the one with the smaller id.
pub open spec fn keys_before(
    pinned_a: bool,
    label_a: Seq<char>,
    id_a: Seq<char>,
    pinned_b: bool,
    label_b: Seq<char>,
    id_b: Seq<char>,
) -> bool {
    if pinned_a != pinned_b {
        pinned_a
    } else if label_a != label_b {
        text_less(label_a, label_b)
    } else {
        text_less(id_a, id_b)
    }
}

/// `a` stands before `b` in the final order: a pinned row before an
/// unpinned one; among rows pinned alike the one with the smaller label,
/// case disregarded; among rows with the same such label the one with the
/// smaller id.
pub open spec fn row_before(a: RowModel, b: RowModel) -> bool {
    keys_before(
        is_pinned_row(a),
        order_label(a),
        a.id,
        is_pinned_row(b),
        order_label(b),
        b.id,
    )
}

/// The rows stand in the final order: none stands after a row that it
/// should stand before.
pub open spec fn in_order(rows: Seq<RowModel>) -> bool {
    forall|i: int, j: int| 0 <= i < j < rows.len() ==> !row_before(rows[j], rows[i])
}

/// Each row stands before all rows after it.
pub open spec fn in_strict_order(rows: Seq<RowModel>) -> bool {
    forall|i: int, j: int| 0 <= i < j < rows.len() ==> row_before(rows[i], rows[j])
}

/// No row stands before itself.
pub proof fn lemma_row_before_irreflexive(a: RowModel)
    ensures
        !row_before(a, a),
{
    lemma_text_less_irreflexive(a.id);
}

/// The final order is transitive.
pub proof fn lemma_row_before_transitive(a: RowModel, b: RowModel, c: RowModel)
    requires
        row_before(a, b),
        row_before(b, c),
    ensures
        row_before(a, c),
{
    let (la, lb, lc) = (order_label(a), order_label(b), order_label(c));
    lemma_text_less_irreflexive(la);
    lemma_text_less_irreflexive(a.id);
    if is_pinned_row(a) == is_pinned_row(b) && is_pinned_row(b) == is_pinned_row(c) {
        if la != lb && lb != lc {
            lemma_text_less_transitive(la, lb, lc);
        } else if la == lb && lb == lc {
            lemma_text_less_transitive(a.id, b.id, c.id);
        }
    }
}

/// Of two rows with different ids one stands before the other, and only
/// one: the final order leaves no choice among rows with distinct ids.
pub proof fn lemma_row_before_total(a: RowModel, b: RowModel)
    ensures
        !(row_before(a, b) && row_before(b, a)),
        a.id != b.id ==> row_before(a, b) || row_before(b, a),
{
    lemma_text_less_total(order_label(a), order_label(b));
    lemma_text_less_total(a.id, b.id);
}

/// Rows with distinct ids that stand in the final order stand in it
/// strictly.
pub proof fn lemma_order_is_strict(rows: Seq<RowModel>)
    requires
        in_order(rows),
        distinct_ids(rows),
    ensures
        in_strict_order(rows),
{
    assert forall|i: int, j: int| 0 <= i < j < rows.len() implies row_before(rows[i], rows[j]) by {
        lemma_row_before_total(rows[i], rows[j]);
    }
}

/// The final order of a set of rows with distinct ids is unique: two
/// orderings of the same rows are the same sequence.
pub proof fn lemma_order_is_unique(a: Seq<RowModel>, b: Seq<RowModel>)
    requires
        in_order(a),
        in_order(b),
        distinct_ids(a),
        a.to_multiset() == b.to_multiset(),
    ensures
        a == b,
    decreases a.len(),
{
    broadcast use vstd::seq_lib::group_to_multiset_ensures;

    vstd::seq_lib::to_multiset_len(a);
    vstd::seq_lib::to_multiset_len(b);
    if a.len() == 0 {
        assert(a =~= b);
    } else {
        // The first row of `a` occurs in `b`, and the first row of `b` in `a`.
        assert(a.contains(a[0]));
        assert(b.to_multiset().count(a[0]) > 0);
        assert(b.contains(a[0]));
        let j = choose|j: int| 0 <= j < b.len() && b[j] == a[0];
        assert(b.contains(b[0]));
        assert(a.to_multiset().count(b[0]) > 0);
        assert(a.contains(b[0]));
        let i = choose|i: int| 0 <= i < a.len() && a[i] == b[0];
        if i != 0 {
            lemma_order_is_strict(a);
            assert(row_before(a[0], a[i]));
            if j != 0 {
                assert(!row_before(b[j], b[0]));
            } else {
                lemma_row_before_irreflexive(a[0]);
            }
            assert(false);
        }
        assert(a[0] == b[0]);
        assert(a.drop_first().to_multiset() =~= a.to_multiset().remove(a[0])) by {
            assert(a.remove(0) =~= a.drop_first());
        }
        assert(b.drop_first().to_multiset() =~= b.to_multiset().remove(b[0])) by {
            assert(b.remove(0) =~= b.drop_first());
        }
        lemma_order_is_unique(a.drop_first(), b.drop_first());
        assert(a =~= seq![a[0]] + a.drop_first());
        assert(b =~= seq![b[0]] + b.drop_first());
    }
}

/// The characters by which a row's label is ordered.
fn order_label_of(row: &EnvironmentRowNapi) -> (label: Vec<char>)
    ensures
        label@ == order_label(row.deep_view()),
{
    let lower = match &row.label {
        Some(label) => to_lowercase(label.as_str()),
        None => {
            let empty = String::new();
            to_lowercase(empty.as_str())
        },
    };
    chars_of(lower.as_str())
}

/// Tests whether the row with the first three keys stands before the row
/// with the other three. The labels are taken as they are given: in lower
/// case already.
pub fn before_by_keys(
    pinned_a: bool,
    label_a: &Vec<char>,
    id_a: &Vec<char>,
    pinned_b: bool,
    label_b: &Vec<char>,
    id_b: &Vec<char>,
) -> (r: bool)
    ensures
        r == (if pinned_a != pinned_b {
            pinned_a
        } else if label_a@ != label_b@ {
            text_less(label_a@, label_b@)
        } else {
            text_less(id_a@, id_b@)
        }),
{
    if pinned_a != pinned_b {
        return pinned_a;
    }
    proof {
        lemma_text_less_total(label_a@, label_b@);
    }
    if text_before(label_a, label_b) {
        return true;
    }
    if text_before(label_b, label_a) {
        return false;
    }
    text_before(id_a, id_b)
}

/// Tests whether `a` stands before `b` in the final order.
pub fn stands_before(a: &EnvironmentRowNapi, b: &EnvironmentRowNapi) -> (r: bool)
    ensures
        r == row_before(a.deep_view(), b.deep_view()),
{
    let pinned_a = match a.is_pinned {
        Some(pin) => pin,
        None => false,
    };
    let pinned_b = match b.is_pinned {
        Some(pin) => pin,
        None => false,
    };
    let label_a = order_label_of(a);
    let label_b = order_label_of(b);
    let id_a = chars_of(a.id.as_str());
    let id_b = chars_of(b.id.as_str());
    before_by_keys(pinned_a, &label_a, &id_a, pinned_b, &label_b, &id_b)
}

/// The final order does not tell `a` and `b` apart.
pub open spec fn ordered_alike(a: RowModel, b: RowModel) -> bool {
    !row_before(a, b) && !row_before(b, a)
}

/// A row that stands before `a` stands before every row that does not
/// stand before `a` itself.
pub proof fn lemma_row_before_passes(x: RowModel, a: RowModel, b: RowModel)
    requires
        row_before(x, a),
        !row_before(b, a),
    ensures
        row_before(x, b),
{
    lemma_text_less_total(order_label(a), order_label(b));
    lemma_text_less_total(a.id, b.id);
    if row_before(a, b) {
        lemma_row_before_transitive(x, a, b);
    }
}

/// `sorted` is `rows` put in another arrangement: `origin` says for each
/// place of `sorted` which place of `rows` its row was taken from, no place
/// is taken from twice, and rows that the final order does not tell apart
/// stand as they stood in `rows`.
pub open spec fn arranged_stably(
    rows: Seq<RowModel>,
    sorted: Seq<RowModel>,
    origin: Seq<int>,
) -> bool {
    &&& origin.len() == sorted.len()
    &&& sorted.len() == rows.len()
    &&& forall|k: int|
        0 <= k < sorted.len() ==> 0 <= #[trigger] origin[k] < rows.len() && sorted[k]
            == rows[origin[k]]
    &&& forall|i: int, j: int|
        0 <= i < j < sorted.len() ==> #[trigger] origin[i] != #[trigger] origin[j]
    &&& forall|i: int, j: int|
        0 <= i < j < sorted.len() && ordered_alike(sorted[i], sorted[j]) ==> #[trigger] origin[i]
            < #[trigger] origin[j]
}

/// Puts the rows in the final order. Rows that the order does not tell
/// apart keep the order they came in.
pub fn sort_environment_rows(rows: Vec<EnvironmentRowNapi>) -> (sorted: Vec<EnvironmentRowNapi>)
    ensures
        in_order(sorted.deep_view()),
        sorted.deep_view().to_multiset() == rows.deep_view().to_multiset(),
        sorted@.to_multiset() == rows@.to_multiset(),
        exists|origin: Seq<int>| arranged_stably(rows.deep_view(), sorted.deep_view(), origin),
{
    let ghost input = rows@;
    let ghost models = rows.deep_view();
    let ghost mut origin: Seq<int> = Seq::empty();
    let mut sorted: Vec<EnvironmentRowNapi> = Vec::new();
    assert(models.take(0) =~= sorted.deep_view());
    assert(input.take(0) =~= sorted@);
    for row in it: rows
        invariant
            it.seq() == input,
            input == rows@,
            models == rows.deep_view(),
            in_order(sorted.deep_view()),
            sorted.deep_view().to_multiset() == models.take(it.index()).to_multiset(),
            sorted@.to_multiset() == input.take(it.index()).to_multiset(),
            arranged_stably(models.take(it.index()), sorted.deep_view(), origin),
    {
        let ghost before = sorted.deep_view();
        let ghost before_rows = sorted@;
        let ghost before_origin = origin;
        let ghost x = row.deep_view();
        let ghost taken = it.index();
        let mut at: usize = 0;
        while at < sorted.len() && !stands_before(&row, &sorted[at])
            invariant
                at <= sorted.len(),
                before == sorted.deep_view(),
                x == row.deep_view(),
                forall|k: int| 0 <= k < at ==> !row_before(x, before[k]),
            decreases sorted.len() - at,
        {
            at += 1;
        }
        sorted.insert(at, row);
        proof {
            let after = sorted.deep_view();
            origin = before_origin.insert(at as int, taken);
            assert(after =~= before.insert(at as int, x));
            assert(models.take(taken + 1) =~= models.take(taken).push(x));
            assert(input.take(taken + 1) =~= input.take(taken).push(row));
            // Every row behind the new one is a row that the new one
            // stands before.
            assert forall|j: int| at < j < after.len() implies row_before(
                x,
                #[trigger] after[j],
            ) by {
                assert(after[j] == before[j - 1]);
                if j - 1 > at {
                    lemma_row_before_passes(x, before[at as int], before[j - 1]);
                }
            }
            assert forall|i: int, j: int| 0 <= i < j < after.len() implies !row_before(
                after[j],
                after[i],
            ) by {
                if i == at {
                    lemma_row_before_total(x, after[j]);
                } else if j == at {
                } else {
                    let oi = if i < at { i } else { i - 1 };
                    let oj = if j < at { j } else { j - 1 };
                    assert(after[i] == before[oi] && after[j] == before[oj]);
                }
            }
            assert forall|k: int| 0 <= k < after.len() implies 0 <= #[trigger] origin[k] < taken
                + 1 && after[k] == models.take(taken + 1)[origin[k]] by {
                if k != at {
                    let ok = if k < at { k } else { k - 1 };
                    assert(origin[k] == before_origin[ok] && after[k] == before[ok]);
                }
            }
            assert forall|i: int, j: int| 0 <= i < j < after.len() implies #[trigger] origin[i]
                != #[trigger] origin[j] by {
                let oi = if i < at { i } else { i - 1 };
                let oj = if j < at { j } else { j - 1 };
                if i != at && j != at {
                    assert(origin[i] == before_origin[oi] && origin[j] == before_origin[oj]);
                } else if i == at {
                    assert(origin[j] == before_origin[oj]);
                } else {
                    assert(origin[i] == before_origin[oi]);
                }
            }
            assert forall|i: int, j: int|
                0 <= i < j < after.len() && ordered_alike(
                    after[i],
                    after[j],
                ) implies #[trigger] origin[i] < #[trigger] origin[j] by {
                let oi = if i < at { i } else { i - 1 };
                let oj = if j < at { j } else { j - 1 };
                if i != at && j != at {
                    assert(origin[i] == before_origin[oi] && origin[j] == before_origin[oj]);
                    assert(after[i] == before[oi] && after[j] == before[oj]);
                } else if i == at {
                    assert(row_before(x, after[j]));
                } else {
                    assert(origin[i] == before_origin[oi]);
                }
            }
            to_multiset_insert(before, at as int, x);
            to_multiset_insert(before_rows, at as int, row);
            to_multiset_build(models.take(taken), x);
            to_multiset_build(input.take(taken), row);
        }
    }
    assert(models.take(models.len() as int) =~= models);
    assert(input.take(input.len() as int) =~= input);
    sorted
}

/// Rows with distinct ids have distinct ids in whatever order they stand.
pub proof fn lemma_distinct_ids_reordered(a: Seq<RowModel>, b: Seq<RowModel>)
    requires
        distinct_ids(a),
        a.to_multiset() == b.to_multiset(),
    ensures
        distinct_ids(b),
{
    broadcast use vstd::seq_lib::group_to_multiset_ensures;

    assert(a.no_duplicates());
    a.lemma_multiset_has_no_duplicates();
    b.lemma_multiset_has_no_duplicates_conv();
    assert forall|i: int, j: int| 0 <= i < j < b.len() implies b[i].id != b[j].id by {
        assert(b.contains(b[i]) && b.contains(b[j]));
        assert(a.to_multiset().count(b[i]) > 0 && a.to_multiset().count(b[j]) > 0);
        assert(a.contains(b[i]) && a.contains(b[j]));
        let p = choose|p: int| 0 <= p < a.len() && a[p] == b[i];
        let q = choose|q: int| 0 <= q < a.len() && a[q] == b[j];
        assert(b[i] != b[j]);
        assert(p != q);
    }
}

} // verus!
