//! Drift detection: which projects have environments on different commits.
//!
//! Rows that name no commit are dropped, the rest is cut into runs of
//! neighbouring rows of one project, and each run is marked consistent when
//! its rows name no more than one commit.

use itertools::Itertools;
use vstd::prelude::*;

use crate::row::{row_views, EnvironmentRow, RowView};

verus! {

/// A row takes part in the report when it names a deployed commit.
pub open spec fn deployed(row: RowView) -> bool {
    row.commit_sha.len() > 0
}

/// The rows that name a commit, in the order in which they stand.
pub open spec fn retained(rows: Seq<RowView>) -> Seq<RowView> {
    rows.filter(|row: RowView| deployed(row))
}

/// The distinct commits that a group of rows is deployed at.
pub open spec fn distinct_commits(rows: Seq<RowView>) -> Set<Seq<char>> {
    rows.map_values(|row: RowView| row.commit_sha).to_set()
}

/// A group is consistent when its rows name no more than one commit. A
/// group without rows names none and is consistent.
pub open spec fn consistent(rows: Seq<RowView>) -> bool {
    distinct_commits(rows).len() <= 1
}

/// All rows belong to one project.
pub open spec fn one_project(rows: Seq<RowView>) -> bool {
    forall|i: int, j: int|
        0 <= i < rows.len() && 0 <= j < rows.len() ==> rows[i].project_name == rows[j].project_name
}

/// `groups` cuts `rows` into its runs: the groups follow one another as the
/// rows do, none is empty, each holds rows of one project, and where one
/// group ends and the next begins the project changes.
pub open spec fn splits_into_runs(rows: Seq<RowView>, groups: Seq<Seq<RowView>>) -> bool {
    &&& groups.flatten() == rows
    &&& forall|g: int|
        0 <= g < groups.len() ==> (#[trigger] groups[g]).len() > 0 && one_project(groups[g])
    &&& forall|g: int, h: int|
        0 <= g && h == g + 1 && h < groups.len() ==> (#[trigger] groups[g]).last().project_name != (
        #[trigger] groups[h]).first().project_name
}

/// The runs of neighbouring rows that share a project name, in order.
///
/// Rows of one project that do not stand next to each other end up in
/// separate runs: nothing is sorted.
pub open spec fn project_runs(rows: Seq<RowView>) -> Seq<Seq<RowView>>
    decreases rows.len(),
{
    if rows.len() == 0 {
        Seq::empty()
    } else {
        let earlier = project_runs(rows.drop_last());
        if earlier.len() > 0 && earlier.last().last().project_name == rows.last().project_name {
            earlier.drop_last().push(earlier.last().push(rows.last()))
        } else {
            earlier.push(seq![rows.last()])
        }
    }
}

/// The contents of a sequence of groups of rows.
pub open spec fn nested_row_views(groups: Seq<Vec<EnvironmentRow>>) -> Seq<Seq<RowView>> {
    groups.map_values(|group: Vec<EnvironmentRow>| row_views(group@))
}

/// The rows of one project that stand together, and whether they agree.
pub struct ProjectGroup {
    pub rows: Vec<EnvironmentRow>,
    pub consistent: bool,
}

/// The mathematical content of a [`ProjectGroup`].
pub struct GroupView {
    pub rows: Seq<RowView>,
    pub consistent: bool,
}

impl View for ProjectGroup {
    type V = GroupView;

    open spec fn view(&self) -> GroupView {
        GroupView { rows: row_views(self.rows@), consistent: self.consistent }
    }
}

/// The contents of a sequence of groups, in order.
pub open spec fn group_views(groups: Seq<ProjectGroup>) -> Seq<GroupView> {
    groups.map_values(|group: ProjectGroup| group@)
}

/// A run together with its verdict.
pub open spec fn judged(run: Seq<RowView>) -> GroupView {
    GroupView { rows: run, consistent: consistent(run) }
}

/// What the report shows for `rows`: the runs of the rows that name a commit,
/// each with its verdict.
pub open spec fn classified(rows: Seq<RowView>) -> Seq<GroupView> {
    project_runs(retained(rows)).map_values(|run: Seq<RowView>| judged(run))
}

/// No more than one commit is named exactly when every row agrees with the
/// first.
pub proof fn lemma_consistent_iff_all_agree(rows: Seq<RowView>)
    ensures
        consistent(rows) <==> forall|i: int|
            0 <= i < rows.len() ==> (#[trigger] rows[i]).commit_sha == rows[0].commit_sha,
{
    let commits = rows.map_values(|row: RowView| row.commit_sha);
    let distinct = distinct_commits(rows);
    vstd::seq_lib::seq_to_set_is_finite(commits);
    if rows.len() == 0 {
        assert(distinct =~= Set::empty());
    } else {
        assert(commits[0] == rows[0].commit_sha);
        assert(distinct.contains(commits[0]));
        assert(distinct.len() >= 1) by {
            if distinct.len() == 0 {
                assert(distinct =~= Set::empty());
            }
        }
        if forall|i: int|
            0 <= i < rows.len() ==> (#[trigger] rows[i]).commit_sha == rows[0].commit_sha {
            assert(distinct =~= set![rows[0].commit_sha]) by {
                assert forall|c: Seq<char>| distinct.contains(c) implies c
                    == rows[0].commit_sha by {
                    let i = choose|i: int| 0 <= i < commits.len() && commits[i] == c;
                    assert(commits[i] == rows[i].commit_sha);
                }
            }
        }
        if consistent(rows) {
            Set::lemma_is_singleton(distinct);
            assert forall|i: int| 0 <= i < rows.len() implies (#[trigger] rows[i]).commit_sha
                == rows[0].commit_sha by {
                assert(commits[i] == rows[i].commit_sha);
                assert(distinct.contains(commits[i]));
            }
        }
    }
}

/// The runs of a sequence do cut it into runs.
pub proof fn lemma_runs_split(rows: Seq<RowView>)
    ensures
        splits_into_runs(rows, project_runs(rows)),
    decreases rows.len(),
{
    let runs = project_runs(rows);
    if rows.len() == 0 {
        assert(runs.flatten() =~= rows);
    } else {
        let row = rows.last();
        let earlier = project_runs(rows.drop_last());
        lemma_runs_split(rows.drop_last());
        assert(rows =~= rows.drop_last().push(row));
        if earlier.len() > 0 && earlier.last().last().project_name == row.project_name {
            let front = earlier.drop_last();
            let grown = earlier.last().push(row);
            assert(earlier =~= front.push(earlier.last()));
            assert(runs.flatten() =~= rows) by {
                front.lemma_flatten_push(earlier.last());
                front.lemma_flatten_push(grown);
            }
            assert(one_project(grown)) by {
                assert(one_project(earlier.last()));
                assert forall|i: int, j: int|
                    0 <= i < grown.len() && 0 <= j < grown.len() implies grown[i].project_name
                    == grown[j].project_name by {
                    let k = earlier.last().len() - 1;
                    assert(earlier.last()[k].project_name == row.project_name);
                    if i < k + 1 {
                        assert(earlier.last()[i].project_name == earlier.last()[k].project_name);
                    }
                    if j < k + 1 {
                        assert(earlier.last()[j].project_name == earlier.last()[k].project_name);
                    }
                }
            }
            assert forall|g: int| 0 <= g < runs.len() implies (#[trigger] runs[g]).len() > 0
                && one_project(runs[g]) by {
                if g < front.len() {
                    assert(runs[g] == earlier[g]);
                }
            }
            assert forall|g: int, h: int| 0 <= g && h == g + 1 && h < runs.len() implies (
            #[trigger] runs[g]).last().project_name != (#[trigger] runs[h]).first().project_name by {
                assert(runs[g] == earlier[g]);
                if h < front.len() {
                    assert(runs[h] == earlier[h]);
                } else {
                    assert(grown.first() == earlier[h].first());
                }
            }
        } else {
            assert(runs.flatten() =~= rows) by {
                earlier.lemma_flatten_push(seq![row]);
            }
            assert forall|g: int| 0 <= g < runs.len() implies (#[trigger] runs[g]).len() > 0
                && one_project(runs[g]) by {
                if g < earlier.len() {
                    assert(runs[g] == earlier[g]);
                }
            }
            assert forall|g: int, h: int| 0 <= g && h == g + 1 && h < runs.len() implies (
            #[trigger] runs[g]).last().project_name != (#[trigger] runs[h]).first().project_name by {
                assert(runs[g] == earlier[g]);
                if h < earlier.len() {
                    assert(runs[h] == earlier[h]);
                }
            }
        }
    }
}

/// A sequence is cut into runs in one way only.
pub proof fn lemma_runs_unique(rows: Seq<RowView>, groups: Seq<Seq<RowView>>)
    requires
        splits_into_runs(rows, groups),
    ensures
        groups == project_runs(rows),
    decreases rows.len(),
{
    if groups.len() == 0 {
        assert(groups =~= project_runs(rows));
    } else {
        let front = groups.drop_last();
        let closing = groups.last();
        assert(groups =~= front.push(closing));
        front.lemma_flatten_push(closing);
        assert(rows =~= front.flatten() + closing);
        assert(closing.len() > 0);
        let row = rows.last();
        assert(row == closing.last());
        if closing.len() == 1 {
            assert(rows.drop_last() =~= front.flatten());
            assert(splits_into_runs(rows.drop_last(), front)) by {
                assert forall|g: int| 0 <= g < front.len() implies (#[trigger] front[g]).len() > 0
                    && one_project(front[g]) by {
                    assert(front[g] == groups[g]);
                }
                assert forall|g: int, h: int| 0 <= g && h == g + 1 && h < front.len() implies (
                #[trigger] front[g]).last().project_name != (
                #[trigger] front[h]).first().project_name by {
                    assert(front[g] == groups[g]);
                    assert(front[h] == groups[h]);
                }
            }
            lemma_runs_unique(rows.drop_last(), front);
            if front.len() > 0 {
                let g = front.len() - 1;
                assert(groups[g].last().project_name != groups[g + 1].first().project_name);
            }
            assert(seq![row] =~= closing);
        } else {
            let shorter = closing.drop_last();
            let earlier = front.push(shorter);
            front.lemma_flatten_push(shorter);
            assert(rows.drop_last() =~= front.flatten() + shorter);
            assert(splits_into_runs(rows.drop_last(), earlier)) by {
                assert(one_project(closing));
                assert forall|g: int| 0 <= g < earlier.len() implies (#[trigger] earlier[g]).len()
                    > 0 && one_project(earlier[g]) by {
                    if g < front.len() {
                        assert(earlier[g] == groups[g]);
                    } else {
                        assert forall|i: int, j: int|
                            0 <= i < shorter.len() && 0 <= j < shorter.len() implies shorter[i].project_name
                            == shorter[j].project_name by {
                            assert(closing[i].project_name == closing[j].project_name);
                        }
                    }
                }
                assert forall|g: int, h: int| 0 <= g && h == g + 1 && h < earlier.len() implies (
                #[trigger] earlier[g]).last().project_name != (
                #[trigger] earlier[h]).first().project_name by {
                    assert(earlier[g] == groups[g]);
                    if h < front.len() {
                        assert(earlier[h] == groups[h]);
                    } else {
                        assert(shorter.first() == groups[h].first());
                    }
                }
            }
            lemma_runs_unique(rows.drop_last(), earlier);
            assert(earlier.drop_last() =~= front);
            assert(shorter.last().project_name == row.project_name) by {
                assert(closing[closing.len() - 2].project_name == closing[closing.len()
                    - 1].project_name);
            }
            assert(shorter.push(row) =~= closing);
        }
    }
}

/// Keeps the rows that name a commit, in the order in which they stand.
pub fn retain_deployed(rows: &Vec<EnvironmentRow>) -> (kept: Vec<EnvironmentRow>)
    ensures
        row_views(kept@) == retained(row_views(rows@)),
{
    let mut kept: Vec<EnvironmentRow> = Vec::new();
    let mut i: usize = 0;
    proof {
        reveal(Seq::filter);
        assert(row_views(rows@).take(0) =~= Seq::<RowView>::empty());
        assert(row_views(kept@) =~= Seq::<RowView>::empty());
    }
    while i < rows.len()
        invariant
            i <= rows.len(),
            row_views(kept@) == retained(row_views(rows@).take(i as int)),
        decreases rows.len() - i,
    {
        let ghost seen = row_views(rows@).take(i as int);
        let ghost before = row_views(kept@);
        proof {
            assert(row_views(rows@).take(i + 1) =~= seen.push(rows[i as int]@));
            seen.lemma_filter_push(rows[i as int]@, |row: RowView| deployed(row));
        }
        if !rows[i].commit_sha.as_str().is_empty() {
            kept.push(rows[i].clone());
            assert(row_views(kept@) =~= before.push(rows[i as int]@));
        }
        i += 1;
    }
    assert(row_views(rows@).take(rows.len() as int) =~= row_views(rows@));
    kept
}

/// Tells whether the rows are deployed at no more than one commit.
///
/// An empty slice names no commit at all and is therefore consistent.
pub fn all_the_same(results: &[EnvironmentRow]) -> (same: bool)
    ensures
        same == consistent(row_views(results@)),
{
    let ghost rows = row_views(results@);
    proof {
        lemma_consistent_iff_all_agree(rows);
    }
    if results.len() == 0 {
        return true;
    }
    let mut i: usize = 1;
    while i < results.len()
        invariant
            1 <= i <= results.len(),
            rows == row_views(results@),
            forall|k: int| 0 <= k < i ==> (#[trigger] rows[k]).commit_sha == rows[0].commit_sha,
        decreases results.len() - i,
    {
        if results[i].commit_sha != results[0].commit_sha {
            proof {
                lemma_consistent_iff_all_agree(rows);
                assert(rows[i as int].commit_sha != rows[0].commit_sha);
            }
            return false;
        }
        i += 1;
    }
    true
}

/// Collects the runs that `Itertools::group_by` makes of the rows when it is
/// keyed by the project name.
///
/// Not proved, taken from the documentation of `group_by`: consecutive
/// elements that map to the same key are assigned to the same group. The
/// groups come in the order of the rows, each holds the rows of one run, and
/// a new group starts exactly where the key changes.
#[verifier::external_body]
fn runs_by_project_name(rows: &Vec<EnvironmentRow>) -> (groups: Vec<Vec<EnvironmentRow>>)
    ensures
        splits_into_runs(row_views(rows@), nested_row_views(groups@)),
{
    rows.iter()
        .group_by(|row| row.project_name.clone())
        .into_iter()
        .map(|(_, group)| group.cloned().collect())
        .collect()
}

/// Cuts the rows into runs of neighbouring rows of one project.
pub fn group_by_project(rows: &Vec<EnvironmentRow>) -> (groups: Vec<Vec<EnvironmentRow>>)
    ensures
        nested_row_views(groups@) == project_runs(row_views(rows@)),
{
    let groups = runs_by_project_name(rows);
    proof {
        lemma_runs_unique(row_views(rows@), nested_row_views(groups@));
    }
    groups
}

/// Drops the rows without a commit, groups the others by project and judges
/// each group.
pub fn classify(rows: &Vec<EnvironmentRow>) -> (groups: Vec<ProjectGroup>)
    ensures
        group_views(groups@) == classified(row_views(rows@)),
{
    let kept = retain_deployed(rows);
    let runs = group_by_project(&kept);
    let ghost expected = project_runs(retained(row_views(rows@)));
    let mut groups: Vec<ProjectGroup> = Vec::new();
    assert(group_views(groups@) =~= expected.take(0).map_values(|run: Seq<RowView>| judged(run)));
    for run in it: runs
        invariant
            expected == nested_row_views(runs@),
            group_views(groups@) == expected.take(it.index() as int).map_values(
                |run: Seq<RowView>| judged(run),
            ),
    {
        let ghost before = group_views(groups@);
        let ghost done = it.index() as int;
        let consistent = all_the_same(run.as_slice());
        let group = ProjectGroup { rows: run, consistent };
        assert(group@ == judged(expected[done]));
        groups.push(group);
        proof {
            assert(group_views(groups@) =~= before.push(judged(expected[done])));
            assert(expected.take(done + 1) =~= expected.take(done).push(expected[done]));
            assert(expected.take(done + 1).map_values(|run: Seq<RowView>| judged(run))
                =~= before.push(judged(expected[done])));
        }
    }
    assert(expected.take(expected.len() as int) =~= expected);
    groups
}

} // verus!
