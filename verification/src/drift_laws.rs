//! What holds of drift detection whatever the rows are.

use vstd::prelude::*;

use crate::drift::{
    classified, consistent, deployed, judged, lemma_consistent_iff_all_agree, lemma_runs_unique,
    one_project, project_runs, retained, splits_into_runs, GroupView,
};
use crate::row::RowView;

verus! {

/// Filtering keeps the rows for which `deployed` holds and nothing else, so
/// a sequence of such rows passes unchanged.
pub proof fn lemma_retained_keeps_deployed(rows: Seq<RowView>)
    requires
        forall|i: int| 0 <= i < rows.len() ==> deployed(#[trigger] rows[i]),
    ensures
        retained(rows) == rows,
    decreases rows.len(),
{
    reveal(Seq::filter);
    if rows.len() > 0 {
        let front = rows.drop_last();
        assert forall|i: int| 0 <= i < front.len() implies deployed(#[trigger] front[i]) by {
            assert(front[i] == rows[i]);
        }
        lemma_retained_keeps_deployed(front);
        assert(deployed(rows[rows.len() - 1]));
        assert(front.push(rows.last()) =~= rows);
    }
}

/// Every row that survives the filter names a commit.
pub proof fn lemma_retained_are_deployed(rows: Seq<RowView>)
    ensures
        forall|i: int| 0 <= i < retained(rows).len() ==> deployed(#[trigger] retained(rows)[i]),
    decreases rows.len(),
{
    reveal(Seq::filter);
    if rows.len() > 0 {
        lemma_retained_are_deployed(rows.drop_last());
    }
}

/// Dropping the rows without a commit a second time changes nothing.
pub proof fn filter_is_idempotent(rows: Seq<RowView>)
    ensures
        retained(retained(rows)) == retained(rows),
{
    lemma_retained_are_deployed(rows);
    lemma_retained_keeps_deployed(retained(rows));
}

/// A group without rows is consistent: it names no commit at all.
pub proof fn no_rows_are_consistent()
    ensures
        consistent(Seq::<RowView>::empty()),
{
    lemma_consistent_iff_all_agree(Seq::<RowView>::empty());
}

/// A group of a single row is consistent.
pub proof fn single_row_is_consistent(row: RowView)
    ensures
        consistent(seq![row]),
{
    lemma_consistent_iff_all_agree(seq![row]);
}

/// Rows of one project that all name a commit form a single group.
pub proof fn one_project_gives_one_group(rows: Seq<RowView>)
    requires
        rows.len() > 0,
        one_project(rows),
        forall|i: int| 0 <= i < rows.len() ==> deployed(#[trigger] rows[i]),
    ensures
        classified(rows) == seq![judged(rows)],
{
    lemma_retained_keeps_deployed(rows);
    let groups = seq![rows];
    assert(splits_into_runs(rows, groups)) by {
        groups.lemma_flatten_singleton();
    }
    lemma_runs_unique(rows, groups);
    assert(classified(rows) =~= seq![judged(rows)]);
}

/// The report on a single row never shows drift: the row stands alone in a
/// consistent group, or, where it names no commit, nothing is shown at all.
pub proof fn single_row_never_drifts(row: RowView)
    ensures
        classified(seq![row]) == if deployed(row) {
            seq![GroupView { rows: seq![row], consistent: true }]
        } else {
            Seq::<GroupView>::empty()
        },
{
    let rows = seq![row];
    if deployed(row) {
        single_row_is_consistent(row);
        one_project_gives_one_group(rows);
    } else {
        reveal_with_fuel(Seq::filter, 2);
        assert(retained(rows) =~= Seq::<RowView>::empty());
        assert(classified(rows) =~= Seq::<GroupView>::empty());
    }
}

/// Rows that all name one commit are consistent, however many there are.
pub proof fn same_commit_is_consistent(rows: Seq<RowView>)
    requires
        forall|i: int, j: int|
            0 <= i < rows.len() && 0 <= j < rows.len() ==> rows[i].commit_sha == rows[j].commit_sha,
    ensures
        consistent(rows),
{
    lemma_consistent_iff_all_agree(rows);
}

/// Joining two consistent groups that name the same commit gives a
/// consistent group.
pub proof fn joining_keeps_consistency(first: Seq<RowView>, second: Seq<RowView>)
    requires
        consistent(first),
        consistent(second),
        first.len() > 0 && second.len() > 0 ==> first[0].commit_sha == second[0].commit_sha,
    ensures
        consistent(first + second),
{
    let joined = first + second;
    lemma_consistent_iff_all_agree(first);
    lemma_consistent_iff_all_agree(second);
    lemma_consistent_iff_all_agree(joined);
    assert forall|i: int| 0 <= i < joined.len() implies (#[trigger] joined[i]).commit_sha
        == joined[0].commit_sha by {
        if i < first.len() {
            assert(joined[i] == first[i]);
        } else {
            assert(joined[i] == second[i - first.len()]);
        }
    }
}

/// Any number of copies of a row that names a commit are reported as one
/// consistent group.
pub proof fn duplicates_are_consistent(row: RowView, copies: nat)
    requires
        deployed(row),
        copies > 0,
    ensures
        classified(Seq::new(copies, |i: int| row)) == seq![
            GroupView { rows: Seq::new(copies, |i: int| row), consistent: true },
        ],
{
    let rows = Seq::new(copies, |i: int| row);
    same_commit_is_consistent(rows);
    one_project_gives_one_group(rows);
}

/// A group in which two rows name different commits is not consistent.
pub proof fn two_commits_are_drift(rows: Seq<RowView>, i: int, j: int)
    requires
        0 <= i < rows.len(),
        0 <= j < rows.len(),
        rows[i].commit_sha != rows[j].commit_sha,
    ensures
        !consistent(rows),
{
    lemma_consistent_iff_all_agree(rows);
}

/// Every group of a report that holds two different commits is marked as
/// drifted.
pub proof fn drift_is_reported(rows: Seq<RowView>, g: int, i: int, j: int)
    requires
        0 <= g < classified(rows).len(),
        0 <= i < classified(rows)[g].rows.len(),
        0 <= j < classified(rows)[g].rows.len(),
        classified(rows)[g].rows[i].commit_sha != classified(rows)[g].rows[j].commit_sha,
    ensures
        !classified(rows)[g].consistent,
{
    two_commits_are_drift(classified(rows)[g].rows, i, j);
}

/// Rows of one project of which two name different commits are reported as
/// one drifted group.
pub proof fn one_project_two_commits_drift(rows: Seq<RowView>, i: int, j: int)
    requires
        one_project(rows),
        forall|k: int| 0 <= k < rows.len() ==> deployed(#[trigger] rows[k]),
        0 <= i < rows.len(),
        0 <= j < rows.len(),
        rows[i].commit_sha != rows[j].commit_sha,
    ensures
        classified(rows) == seq![GroupView { rows, consistent: false }],
{
    two_commits_are_drift(rows, i, j);
    one_project_gives_one_group(rows);
}

/// The groups of a report, put one after the other, are the rows that name a
/// commit; no group is empty.
pub proof fn report_keeps_the_deployed_rows(rows: Seq<RowView>)
    ensures
        classified(rows).map_values(|group: GroupView| group.rows).flatten() == retained(rows),
        forall|g: int| 0 <= g < classified(rows).len() ==> (#[trigger] classified(rows)[g]).rows.len() > 0,
{
    let runs = project_runs(retained(rows));
    crate::drift::lemma_runs_split(retained(rows));
    assert(classified(rows).map_values(|group: GroupView| group.rows) =~= runs);
    assert forall|g: int| 0 <= g < classified(rows).len() implies (#[trigger] classified(
        rows,
    )[g]).rows.len() > 0 by {
        assert(runs[g].len() > 0);
    }
}

} // verus!
