//! Environment records: merging what several queries returned into one row
//! per id.
//!
//! Rows are merged in the order in which they are handed in. The first
//! report of an id makes the row; later reports can fill a missing label
//! and can pin the row, and change nothing else.
//!
//! The rows are kept as a list in the order of the first report of each
//! id, and an id is looked up by going through the list. That no id has
//! two rows is the invariant [`distinct_ids`], which merging keeps.

use vstd::prelude::*;

verus! {

/// One environment as a query reports it.
#[derive(Debug, Clone, PartialEq, Eq)]
pub struct CodeEnvironment {
    pub id: String,
    pub label: Option<String>,
    pub is_pinned: Option<bool>,
}

/// Mathematical model of a [`CodeEnvironment`].
pub struct EnvironmentModel {
    pub id: Seq<char>,
    pub label: Option<Seq<char>>,
    pub is_pinned: Option<bool>,
}

impl DeepView for CodeEnvironment {
    type V = EnvironmentModel;

    open spec fn deep_view(&self) -> EnvironmentModel {
        EnvironmentModel {
            id: self.id@,
            label: self.label.deep_view(),
            is_pinned: self.is_pinned,
        }
    }
}

/// One environment in the merged result.
#[derive(Debug, Clone, PartialEq, Eq)]
pub struct EnvironmentRowNapi {
    pub id: String,
    pub label: Option<String>,
    pub is_pinned: Option<bool>,
    pub repo_hints: Option<String>,
}

/// Mathematical model of an [`EnvironmentRowNapi`].
pub struct RowModel {
    pub id: Seq<char>,
    pub label: Option<Seq<char>>,
    pub is_pinned: Option<bool>,
    pub repo_hints: Option<Seq<char>>,
}

impl DeepView for EnvironmentRowNapi {
    type V = RowModel;

    open spec fn deep_view(&self) -> RowModel {
        RowModel {
            id: self.id@,
            label: self.label.deep_view(),
            is_pinned: self.is_pinned,
            repo_hints: self.repo_hints.deep_view(),
        }
    }
}

/// The row that the first report of an id makes.
pub open spec fn new_row(incoming: EnvironmentModel, repo_hint: Option<Seq<char>>) -> RowModel {
    RowModel {
        id: incoming.id,
        label: incoming.label,
        is_pinned: incoming.is_pinned,
        repo_hints: repo_hint,
    }
}

/// The pin of a row after a further report: a report that says nothing
/// leaves it, any other makes it the disjunction of both.
pub open spec fn merged_pin(existing: Option<bool>, incoming: Option<bool>) -> Option<bool> {
    match incoming {
        Some(pin) => Some(existing == Some(true) || pin),
        None => existing,
    }
}

/// A row after a further report of its id: a missing label is filled, the
/// pin is merged, id and repository hint stay.
pub open spec fn merged_row(existing: RowModel, incoming: EnvironmentModel) -> RowModel {
    RowModel {
        id: existing.id,
        label: match existing.label {
            Some(label) => Some(label),
            None => incoming.label,
        },
        is_pinned: merged_pin(existing.is_pinned, incoming.is_pinned),
        repo_hints: existing.repo_hints,
    }
}

/// The first position at or after `from` of a row with this id.
pub open spec fn position_from(rows: Seq<RowModel>, id: Seq<char>, from: int) -> Option<int>
    decreases rows.len() - from,
{
    if from < 0 || from >= rows.len() {
        None
    } else if rows[from].id == id {
        Some(from)
    } else {
        position_from(rows, id, from + 1)
    }
}

/// The position of the row with this id.
pub open spec fn position_of(rows: Seq<RowModel>, id: Seq<char>) -> Option<int> {
    position_from(rows, id, 0)
}

/// The rows after one report was merged in: the row of that id is merged
/// in its place, and a row for a new id is put at the end.
pub open spec fn merged_into(
    rows: Seq<RowModel>,
    incoming: EnvironmentModel,
    repo_hint: Option<Seq<char>>,
) -> Seq<RowModel> {
    match position_of(rows, incoming.id) {
        Some(at) => rows.update(at, merged_row(rows[at], incoming)),
        None => rows.push(new_row(incoming, repo_hint)),
    }
}

/// The rows after a list of reports was merged in, first to last.
pub open spec fn merged_all(
    rows: Seq<RowModel>,
    list: Seq<EnvironmentModel>,
    repo_hint: Option<Seq<char>>,
) -> Seq<RowModel>
    decreases list.len(),
{
    if list.len() == 0 {
        rows
    } else {
        merged_all(merged_into(rows, list[0], repo_hint), list.drop_first(), repo_hint)
    }
}

/// No two rows have the same id.
pub open spec fn distinct_ids(rows: Seq<RowModel>) -> bool {
    forall|i: int, j: int| 0 <= i < j < rows.len() ==> rows[i].id != rows[j].id
}

/// What `position_from` finds is a row of that id, and no row of that id
/// stands between `from` and it.
pub proof fn lemma_position_from(rows: Seq<RowModel>, id: Seq<char>, from: int)
    requires
        0 <= from,
    ensures
        match position_from(rows, id, from) {
            Some(at) => from <= at < rows.len() && rows[at].id == id && forall|k: int|
                from <= k < at ==> rows[k].id != id,
            None => forall|k: int| from <= k < rows.len() ==> rows[k].id != id,
        },
    decreases rows.len() - from,
{
    if from < rows.len() && rows[from].id != id {
        lemma_position_from(rows, id, from + 1);
    }
}

/// Merging a report keeps the ids of the rows distinct, keeps every row
/// where it was, and leaves a row with the id of the report.
pub proof fn lemma_merged_into(
    rows: Seq<RowModel>,
    incoming: EnvironmentModel,
    repo_hint: Option<Seq<char>>,
)
    requires
        distinct_ids(rows),
    ensures
        distinct_ids(merged_into(rows, incoming, repo_hint)),
        merged_into(rows, incoming, repo_hint).len() >= rows.len(),
        forall|k: int|
            0 <= k < rows.len() ==> (#[trigger] merged_into(rows, incoming, repo_hint)[k]).id
                == rows[k].id,
        position_of(merged_into(rows, incoming, repo_hint), incoming.id) is Some,
{
    lemma_position_from(rows, incoming.id, 0);
    let after = merged_into(rows, incoming, repo_hint);
    lemma_position_from(after, incoming.id, 0);
    match position_of(rows, incoming.id) {
        Some(at) => {
            assert(after[at].id == incoming.id);
        },
        None => {
            assert(after[rows.len() as int].id == incoming.id);
        },
    }
}

/// Two reports of one id, the first unpinned and the second pinned, leave
/// the row of that id pinned, whatever else was merged before.
pub proof fn lemma_pin_is_disjunction(
    rows: Seq<RowModel>,
    first: EnvironmentModel,
    second: EnvironmentModel,
    first_hint: Option<Seq<char>>,
    second_hint: Option<Seq<char>>,
)
    requires
        distinct_ids(rows),
        first.id == second.id,
        first.is_pinned == Some(false),
        second.is_pinned == Some(true),
    ensures
        ({
            let after = merged_into(merged_into(rows, first, first_hint), second, second_hint);
            &&& position_of(after, first.id) is Some
            &&& after[position_of(after, first.id).unwrap()].is_pinned == Some(true)
        }),
{
    let middle = merged_into(rows, first, first_hint);
    lemma_merged_into(rows, first, first_hint);
    lemma_merged_into(middle, second, second_hint);
    lemma_position_from(middle, second.id, 0);
    let after = merged_into(middle, second, second_hint);
    lemma_position_from(after, first.id, 0);
    let at = position_of(middle, second.id).unwrap();
    assert(after[at].id == first.id);
}

/// What a further report cannot take from a row: a pin stays, a label
/// stays, and the repository hint stays, whether the report comes from a
/// query for one repository or from the query for all.
pub proof fn lemma_merge_keeps(
    rows: Seq<RowModel>,
    incoming: EnvironmentModel,
    repo_hint: Option<Seq<char>>,
    at: int,
)
    requires
        distinct_ids(rows),
        0 <= at < rows.len(),
    ensures
        ({
            let after = merged_into(rows, incoming, repo_hint);
            &&& at < after.len()
            &&& after[at].id == rows[at].id
            &&& after[at].repo_hints == rows[at].repo_hints
            &&& rows[at].is_pinned == Some(true) ==> after[at].is_pinned == Some(true)
            &&& rows[at].label is Some ==> after[at].label == rows[at].label
            &&& rows[at].id != incoming.id ==> after[at] == rows[at]
        }),
{
    lemma_position_from(rows, incoming.id, 0);
}

/// A report of a new id makes a row that carries the repository hint of the
/// query it came from, and none where the query was for all repositories.
pub proof fn lemma_new_row_hint(
    rows: Seq<RowModel>,
    incoming: EnvironmentModel,
    repo_hint: Option<Seq<char>>,
)
    requires
        position_of(rows, incoming.id) is None,
    ensures
        merged_into(rows, incoming, repo_hint) == rows.push(new_row(incoming, repo_hint)),
        merged_into(rows, incoming, repo_hint).last().repo_hints == repo_hint,
{
}

/// Reports of a query for all repositories set no repository hint: every
/// row that was there keeps its place, its id and its hint, and every row
/// that was added has none.
pub proof fn lemma_global_source_sets_no_hint(rows: Seq<RowModel>, list: Seq<EnvironmentModel>)
    requires
        distinct_ids(rows),
    ensures
        ({
            let after = merged_all(rows, list, None);
            &&& after.len() >= rows.len()
            &&& forall|k: int|
                0 <= k < rows.len() ==> (#[trigger] after[k]).id == rows[k].id
                    && after[k].repo_hints == rows[k].repo_hints
            &&& forall|k: int|
                rows.len() <= k < after.len() ==> (#[trigger] after[k]).repo_hints is None
        }),
    decreases list.len(),
{
    if list.len() > 0 {
        let middle = merged_into(rows, list[0], None);
        lemma_merged_into(rows, list[0], None);
        lemma_position_from(rows, list[0].id, 0);
        lemma_global_source_sets_no_hint(middle, list.drop_first());
        let after = merged_all(rows, list, None);
        assert forall|k: int| 0 <= k < rows.len() implies (#[trigger] after[k]).id == rows[k].id
            && after[k].repo_hints == rows[k].repo_hints by {
            lemma_merge_keeps(rows, list[0], None, k);
        }
        assert forall|k: int| rows.len() <= k < after.len() implies (#[trigger] after[
            k
        ]).repo_hints is None by {
            if k < middle.len() {
                assert(middle[k].repo_hints is None);
            }
        }
    }
}

/// The position of the row with this id, if there is one.
fn find_row(rows: &Vec<EnvironmentRowNapi>, id: &String) -> (found: Option<usize>)
    ensures
        match found {
            Some(at) => at < rows.len() && position_of(rows.deep_view(), id@) == Some(at as int),
            None => position_of(rows.deep_view(), id@) is None,
        },
{
    let ghost models = rows.deep_view();
    let mut i: usize = 0;
    while i < rows.len()
        invariant
            i <= rows.len(),
            models == rows.deep_view(),
            position_from(models, id@, i as int) == position_of(models, id@),
        decreases rows.len() - i,
    {
        if rows[i].id == *id {
            return Some(i);
        }
        i += 1;
    }
    None
}

/// Merges one report into the rows.
pub fn merge_environment(
    rows: &mut Vec<EnvironmentRowNapi>,
    incoming: CodeEnvironment,
    repo_hint: &Option<String>,
)
    ensures
        final(rows).deep_view() == merged_into(
            old(rows).deep_view(),
            incoming.deep_view(),
            repo_hint.deep_view(),
        ),
{
    let ghost before = rows.deep_view();
    match find_row(rows, &incoming.id) {
        Some(at) => {
            let existing = rows.remove(at);
            let label = match existing.label {
                Some(label) => Some(label),
                None => incoming.label,
            };
            let is_pinned = match incoming.is_pinned {
                Some(pin) => Some(existing.is_pinned == Some(true) || pin),
                None => existing.is_pinned,
            };
            let row = EnvironmentRowNapi {
                id: existing.id,
                label,
                is_pinned,
                repo_hints: existing.repo_hints,
            };
            rows.insert(at, row);
            assert(rows.deep_view() =~= before.update(
                at as int,
                merged_row(before[at as int], incoming.deep_view()),
            ));
        },
        None => {
            let hint = match repo_hint {
                Some(h) => Some(h.clone()),
                None => None,
            };
            let row = EnvironmentRowNapi {
                id: incoming.id,
                label: incoming.label,
                is_pinned: incoming.is_pinned,
                repo_hints: hint,
            };
            rows.push(row);
            assert(rows.deep_view() =~= before.push(
                new_row(incoming.deep_view(), repo_hint.deep_view()),
            ));
        },
    }
}

/// Merges a list of reports into the rows, first to last.
pub fn merge_environments(
    rows: &mut Vec<EnvironmentRowNapi>,
    list: Vec<CodeEnvironment>,
    repo_hint: &Option<String>,
)
    ensures
        final(rows).deep_view() == merged_all(
            old(rows).deep_view(),
            list.deep_view(),
            repo_hint.deep_view(),
        ),
{
    let ghost all = list.deep_view();
    let ghost start = rows.deep_view();
    assert(all.skip(0) =~= all);
    for incoming in it: list
        invariant
            it.seq() == list@,
            all == list.deep_view(),
            merged_all(rows.deep_view(), all.skip(it.index()), repo_hint.deep_view())
                == merged_all(start, all, repo_hint.deep_view()),
    {
        assert(all.skip(it.index()).drop_first() =~= all.skip(it.index() + 1));
        assert(incoming.deep_view() == all[it.index()]);
        merge_environment(rows, incoming, repo_hint);
    }
}

/// Merging a list of reports keeps the ids of the rows distinct.
pub proof fn lemma_merged_all_distinct(
    rows: Seq<RowModel>,
    list: Seq<EnvironmentModel>,
    repo_hint: Option<Seq<char>>,
)
    requires
        distinct_ids(rows),
    ensures
        distinct_ids(merged_all(rows, list, repo_hint)),
    decreases list.len(),
{
    if list.len() > 0 {
        lemma_merged_into(rows, list[0], repo_hint);
        lemma_merged_all_distinct(
            merged_into(rows, list[0], repo_hint),
            list.drop_first(),
            repo_hint,
        );
    }
}

} // verus!
