//! Discovering environments: which queries to make for the remotes of a
//! working copy, and what their answers amount to.
//!
//! Making the queries is the caller's work. A query that failed is an
//! answer without rows; it is passed over, so that the result is whatever
//! the other queries gave.

use vstd::prelude::*;
use vstd::string::StringExecFns;

use crate::config::{normalize_base_url, normalized_base_url, BACKEND_API_SEGMENT};
use crate::environments::{
    distinct_ids, lemma_merged_all_distinct, merge_environments, merged_all, CodeEnvironment,
    EnvironmentModel, EnvironmentRowNapi, RowModel,
};
use crate::remotes::{owner_repo, parse_owner_repo};
use crate::row_order::{in_order, lemma_distinct_ids_reordered, sort_environment_rows};
use crate::text::{chars_of, contains_text, find_in_window};

verus! {

/// One query for environments: the address to ask, and the repository
/// that rows found there are credited to.
#[derive(Debug, Clone, PartialEq, Eq)]
pub struct EnvironmentQuery {
    pub url: String,
    pub repo_hint: Option<String>,
}

/// Mathematical model of an [`EnvironmentQuery`].
pub struct QueryModel {
    pub url: Seq<char>,
    pub repo_hint: Option<Seq<char>>,
}

impl DeepView for EnvironmentQuery {
    type V = QueryModel;

    open spec fn deep_view(&self) -> QueryModel {
        QueryModel { url: self.url@, repo_hint: self.repo_hint.deep_view() }
    }
}

/// What one query returned: its reports, or `None` where it failed.
#[derive(Debug, Clone, PartialEq, Eq)]
pub struct QueryAnswer {
    pub repo_hint: Option<String>,
    pub rows: Option<Vec<CodeEnvironment>>,
}

/// Mathematical model of a [`QueryAnswer`].
pub struct AnswerModel {
    pub repo_hint: Option<Seq<char>>,
    pub rows: Option<Seq<EnvironmentModel>>,
}

impl DeepView for QueryAnswer {
    type V = AnswerModel;

    open spec fn deep_view(&self) -> AnswerModel {
        AnswerModel { repo_hint: self.repo_hint.deep_view(), rows: self.rows.deep_view() }
    }
}

/// Path of the query for one repository, under the backend segment.
pub const WHAM_BY_REPO_PATH: &'static str = "/wham/environments/by-repo/github/";

/// Path of the query for one repository, elsewhere.
pub const CODEX_BY_REPO_PATH: &'static str = "/api/codex/environments/by-repo/github/";

/// Path of the query for all environments, under the backend segment.
pub const WHAM_LIST_PATH: &'static str = "/wham/environments";

/// Path of the query for all environments, elsewhere.
pub const CODEX_LIST_PATH: &'static str = "/api/codex/environments";

/// What stands between owner and repository.
pub const PATH_SEPARATOR: &'static str = "/";

/// The repository hint of rows found for `owner` and `repo`.
pub open spec fn repo_hint_for(owner: Seq<char>, repo: Seq<char>) -> Seq<char> {
    owner + PATH_SEPARATOR@ + repo
}

/// The address of the query for one repository, under a normalized base.
pub open spec fn by_repo_url(base: Seq<char>, owner: Seq<char>, repo: Seq<char>) -> Seq<char> {
    let path = if contains_text(base, BACKEND_API_SEGMENT@) {
        WHAM_BY_REPO_PATH@
    } else {
        CODEX_BY_REPO_PATH@
    };
    base + path + owner + PATH_SEPARATOR@ + repo
}

/// The address of the query for all environments, under a normalized base.
pub open spec fn list_url(base: Seq<char>) -> Seq<char> {
    if contains_text(base, BACKEND_API_SEGMENT@) {
        base + WHAM_LIST_PATH@
    } else {
        base + CODEX_LIST_PATH@
    }
}

/// The queries for single repositories: one for each remote address that
/// names owner and repository, in the order of the addresses.
pub open spec fn repo_queries(base: Seq<char>, origins: Seq<Seq<char>>) -> Seq<QueryModel>
    decreases origins.len(),
{
    if origins.len() == 0 {
        Seq::empty()
    } else {
        let earlier = repo_queries(base, origins.drop_last());
        match owner_repo(origins.last()) {
            Some((owner, repo)) => earlier.push(
                QueryModel {
                    url: by_repo_url(base, owner, repo),
                    repo_hint: Some(repo_hint_for(owner, repo)),
                },
            ),
            None => earlier,
        }
    }
}

/// All queries to make for a base address and the remotes of the working
/// copy: those for single repositories, then the one for all environments.
pub open spec fn planned_queries(base_url: Seq<char>, origins: Seq<Seq<char>>) -> Seq<QueryModel> {
    let base = normalized_base_url(base_url);
    repo_queries(base, origins).push(QueryModel { url: list_url(base), repo_hint: None })
}

/// Plans the queries for environments. Remote addresses that name no owner
/// and repository are passed over.
pub fn environment_queries(base_url: &str, origins: &Vec<String>) -> (queries: Vec<
    EnvironmentQuery,
>)
    ensures
        queries.deep_view() == planned_queries(base_url@, origins.deep_view()),
{
    let base = normalize_base_url(base_url);
    let base_chars = chars_of(base.as_str());
    let segment = chars_of(BACKEND_API_SEGMENT);
    assert(base_chars@.subrange(0, base_chars.len() as int) =~= base@);
    let under_backend = find_in_window(&base_chars, 0, base_chars.len(), &segment).is_some();
    let ghost all = origins.deep_view();
    let mut queries: Vec<EnvironmentQuery> = Vec::new();
    assert(queries.deep_view() =~= repo_queries(base@, all.take(0)));
    let mut i: usize = 0;
    while i < origins.len()
        invariant
            i <= origins.len(),
            all == origins.deep_view(),
            under_backend == contains_text(base@, BACKEND_API_SEGMENT@),
            queries.deep_view() == repo_queries(base@, all.take(i as int)),
        decreases origins.len() - i,
    {
        let ghost before = queries.deep_view();
        assert(all.take(i + 1).drop_last() =~= all.take(i as int));
        assert(all.take(i + 1).last() == origins[i as int]@);
        match parse_owner_repo(origins[i].as_str()) {
            Some((owner, repo)) => {
                let mut url = base.clone();
                if under_backend {
                    url.append(WHAM_BY_REPO_PATH);
                } else {
                    url.append(CODEX_BY_REPO_PATH);
                }
                url.append(owner.as_str());
                url.append(PATH_SEPARATOR);
                url.append(repo.as_str());
                let mut hint = owner;
                hint.append(PATH_SEPARATOR);
                hint.append(repo.as_str());
                queries.push(EnvironmentQuery { url, repo_hint: Some(hint) });
                assert(queries.deep_view() =~= before.push(
                    QueryModel {
                        url: by_repo_url(base@, owner@, repo@),
                        repo_hint: Some(repo_hint_for(owner@, repo@)),
                    },
                ));
            },
            None => {},
        }
        i += 1;
    }
    assert(all.take(origins.len() as int) =~= all);
    let ghost before = queries.deep_view();
    let mut url = base;
    if under_backend {
        url.append(WHAM_LIST_PATH);
    } else {
        url.append(CODEX_LIST_PATH);
    }
    queries.push(EnvironmentQuery { url, repo_hint: None });
    assert(queries.deep_view() =~= before.push(
        QueryModel { url: list_url(normalized_base_url(base_url@)), repo_hint: None },
    ));
    queries
}

/// The rows that a run of answers leaves: the reports of each answer that
/// did not fail are merged in, answer after answer.
pub open spec fn accumulated(answers: Seq<AnswerModel>) -> Seq<RowModel>
    decreases answers.len(),
{
    if answers.len() == 0 {
        Seq::empty()
    } else {
        let earlier = accumulated(answers.drop_last());
        match answers.last().rows {
            Some(list) => merged_all(earlier, list, answers.last().repo_hint),
            None => earlier,
        }
    }
}

/// The accumulated rows have distinct ids.
pub proof fn lemma_accumulated_distinct(answers: Seq<AnswerModel>)
    ensures
        distinct_ids(accumulated(answers)),
    decreases answers.len(),
{
    if answers.len() > 0 {
        lemma_accumulated_distinct(answers.drop_last());
        match answers.last().rows {
            Some(list) => lemma_merged_all_distinct(
                accumulated(answers.drop_last()),
                list,
                answers.last().repo_hint,
            ),
            None => {},
        }
    }
}

/// A failed answer changes nothing: the rows are those of the answers
/// before it.
pub proof fn lemma_failed_answer_is_skipped(answers: Seq<AnswerModel>, failed: AnswerModel)
    requires
        failed.rows is None,
    ensures
        accumulated(answers.push(failed)) == accumulated(answers),
{
    assert(answers.push(failed).drop_last() =~= answers);
}

/// Where every answer failed, no row is left.
pub proof fn lemma_all_failed(answers: Seq<AnswerModel>)
    requires
        forall|k: int| 0 <= k < answers.len() ==> answers[k].rows is None,
    ensures
        accumulated(answers) == Seq::<RowModel>::empty(),
    decreases answers.len(),
{
    if answers.len() > 0 {
        lemma_all_failed(answers.drop_last());
    }
}

/// Merges the answers in the order given and puts the rows in the final
/// order. The result holds one row for each id that any answer reported.
pub fn aggregate_environments(answers: Vec<QueryAnswer>) -> (rows: Vec<EnvironmentRowNapi>)
    ensures
        in_order(rows.deep_view()),
        distinct_ids(rows.deep_view()),
        rows.deep_view().to_multiset() == accumulated(answers.deep_view()).to_multiset(),
{
    let ghost all = answers.deep_view();
    let mut merged: Vec<EnvironmentRowNapi> = Vec::new();
    assert(merged.deep_view() =~= accumulated(all.take(0)));
    for answer in it: answers
        invariant
            it.seq() == answers@,
            all == answers.deep_view(),
            merged.deep_view() == accumulated(all.take(it.index())),
    {
        assert(all.take(it.index() + 1).drop_last() =~= all.take(it.index()));
        assert(all.take(it.index() + 1).last() == answer.deep_view());
        match answer.rows {
            Some(list) => {
                merge_environments(&mut merged, list, &answer.repo_hint);
            },
            None => {},
        }
    }
    assert(all.take(all.len() as int) =~= all);
    proof {
        lemma_accumulated_distinct(all);
    }
    let ghost unsorted = merged.deep_view();
    let rows = sort_environment_rows(merged);
    proof {
        lemma_distinct_ids_reordered(unsorted, rows.deep_view());
    }
    rows
}

} // verus!
