//! From the chosen projects to the rows of their environments.
//!
//! The environments of each project are tagged with the project they belong
//! to, put in one line in the order of the projects, and the rows that come
//! back for them are gathered. A listing that failed counts as empty; a
//! failure to fetch the detail of an environment fails the whole run.

use vstd::prelude::*;

use crate::age::Instant;
use crate::platform::{DetailView, Environment, EnvironmentDetail, EnvironmentView};
use crate::row::{
    build_environment_row, build_environment_row_at, row_of, row_views, EnvironmentRow, RowView,
};

verus! {

/// An environment together with the project that it belongs to.
pub struct ProjectEnvironment {
    pub project_name: String,
    pub project_id: u64,
    pub environment: Environment,
}

/// The mathematical content of a [`ProjectEnvironment`].
pub struct ScopedView {
    pub project_name: Seq<char>,
    pub project_id: u64,
    pub environment: EnvironmentView,
}

impl View for ProjectEnvironment {
    type V = ScopedView;

    open spec fn view(&self) -> ScopedView {
        ScopedView {
            project_name: self.project_name@,
            project_id: self.project_id,
            environment: self.environment@,
        }
    }
}

impl Clone for ProjectEnvironment {
    fn clone(&self) -> (copy: Self)
        ensures
            copy == *self,
    {
        ProjectEnvironment {
            project_name: self.project_name.clone(),
            project_id: self.project_id,
            environment: self.environment.clone(),
        }
    }
}

/// The contents of a sequence of environments, in order.
pub open spec fn environment_views(environments: Seq<Environment>) -> Seq<EnvironmentView> {
    environments.map_values(|environment: Environment| environment@)
}

/// The contents of a sequence of tagged environments, in order.
pub open spec fn scoped_views(environments: Seq<ProjectEnvironment>) -> Seq<ScopedView> {
    environments.map_values(|environment: ProjectEnvironment| environment@)
}

/// The contents of a sequence of sequences of tagged environments.
pub open spec fn nested_scoped_views(all: Seq<Vec<ProjectEnvironment>>) -> Seq<Seq<ScopedView>> {
    all.map_values(|environments: Vec<ProjectEnvironment>| scoped_views(environments@))
}

/// The content of a listing of environments; `None` for one that failed.
pub open spec fn listing_view(listing: Option<Vec<Environment>>) -> Option<Seq<EnvironmentView>> {
    match listing {
        Some(environments) => Some(environment_views(environments@)),
        None => None,
    }
}

/// The contents of a sequence of listings, in order.
pub open spec fn listing_views(listings: Seq<Option<Vec<Environment>>>) -> Seq<
    Option<Seq<EnvironmentView>>,
> {
    listings.map_values(|listing: Option<Vec<Environment>>| listing_view(listing))
}

/// The environments of a listing, each tagged with the project; nothing
/// where the listing failed.
pub open spec fn tagged(
    project_name: Seq<char>,
    project_id: u64,
    listing: Option<Seq<EnvironmentView>>,
) -> Seq<ScopedView> {
    match listing {
        Some(environments) => environments.map_values(
            |environment: EnvironmentView| ScopedView { project_name, project_id, environment },
        ),
        None => Seq::empty(),
    }
}

/// The listing that belongs to the project at `index`: the one at the same
/// place, or a failed one where the listings have run out.
pub open spec fn listing_at(listings: Seq<Option<Seq<EnvironmentView>>>, index: int) -> Option<
    Seq<EnvironmentView>,
> {
    if 0 <= index < listings.len() {
        listings[index]
    } else {
        None
    }
}

/// For each project, in order, its tagged environments.
pub open spec fn all_tagged(
    projects: Seq<(Seq<char>, u64)>,
    listings: Seq<Option<Seq<EnvironmentView>>>,
) -> Seq<Seq<ScopedView>> {
    Seq::new(
        projects.len(),
        |index: int| tagged(projects[index].0, projects[index].1, listing_at(listings, index)),
    )
}

/// Tags the environments of a project with the project's name and
/// identifier, in the order of the listing. A listing that failed (`None`)
/// counts as empty.
pub fn environments_of_project(
    project_name: &str,
    project_id: u64,
    listing: &Option<Vec<Environment>>,
) -> (environments: Vec<ProjectEnvironment>)
    ensures
        scoped_views(environments@) == tagged(project_name@, project_id, listing_view(*listing)),
{
    let mut environments: Vec<ProjectEnvironment> = Vec::new();
    match listing {
        None => {
            assert(scoped_views(environments@) =~= Seq::<ScopedView>::empty());
        },
        Some(listed) => {
            let ghost expected = tagged(project_name@, project_id, listing_view(*listing));
            let mut i: usize = 0;
            assert(scoped_views(environments@) =~= expected.take(0));
            while i < listed.len()
                invariant
                    i <= listed.len(),
                    expected == tagged(
                        project_name@,
                        project_id,
                        Some(environment_views(listed@)),
                    ),
                    scoped_views(environments@) == expected.take(i as int),
                decreases listed.len() - i,
            {
                let ghost before = scoped_views(environments@);
                let environment = ProjectEnvironment {
                    project_name: String::from_str(project_name),
                    project_id,
                    environment: listed[i].clone(),
                };
                assert(environment@ == expected[i as int]);
                environments.push(environment);
                assert(scoped_views(environments@) =~= before.push(expected[i as int]));
                assert(expected.take(i + 1) =~= expected.take(i as int).push(expected[i as int]));
                i += 1;
            }
            assert(expected.take(listed.len() as int) =~= expected);
        },
    }
    environments
}

/// Tags the environments of every project: one sequence per project, in the
/// order of the projects. The listing at the same place belongs to a
/// project; where there is none, or where it failed, the project has no
/// environments.
pub fn all_environments(
    projects: &Vec<(String, u64)>,
    listings: &Vec<Option<Vec<Environment>>>,
) -> (all: Vec<Vec<ProjectEnvironment>>)
    ensures
        nested_scoped_views(all@) == all_tagged(
            crate::projects::named_id_views(projects@),
            listing_views(listings@),
        ),
{
    let ghost expected = all_tagged(
        crate::projects::named_id_views(projects@),
        listing_views(listings@),
    );
    let mut all: Vec<Vec<ProjectEnvironment>> = Vec::new();
    let mut i: usize = 0;
    assert(nested_scoped_views(all@) =~= expected.take(0));
    while i < projects.len()
        invariant
            i <= projects.len(),
            expected == all_tagged(
                crate::projects::named_id_views(projects@),
                listing_views(listings@),
            ),
            nested_scoped_views(all@) == expected.take(i as int),
        decreases projects.len() - i,
    {
        let ghost before = nested_scoped_views(all@);
        let environments = if i < listings.len() {
            environments_of_project(projects[i].0.as_str(), projects[i].1, &listings[i])
        } else {
            environments_of_project(projects[i].0.as_str(), projects[i].1, &None)
        };
        assert(scoped_views(environments@) == expected[i as int]);
        all.push(environments);
        assert(nested_scoped_views(all@) =~= before.push(expected[i as int]));
        assert(expected.take(i + 1) =~= expected.take(i as int).push(expected[i as int]));
        i += 1;
    }
    assert(expected.take(projects.len() as int) =~= expected);
    all
}

/// Puts the environments of all projects in one line: project after
/// project, and within a project in the order of its environments.
pub fn in_launch_order(all: &Vec<Vec<ProjectEnvironment>>) -> (line: Vec<ProjectEnvironment>)
    ensures
        scoped_views(line@) == nested_scoped_views(all@).flatten(),
{
    let ghost nested = nested_scoped_views(all@);
    let mut line: Vec<ProjectEnvironment> = Vec::new();
    let mut i: usize = 0;
    assert(scoped_views(line@) =~= nested.take(0).flatten());
    while i < all.len()
        invariant
            i <= all.len(),
            nested == nested_scoped_views(all@),
            scoped_views(line@) == nested.take(i as int).flatten(),
        decreases all.len() - i,
    {
        let ghost before = scoped_views(line@);
        let part = &all[i];
        let mut j: usize = 0;
        assert(before + nested[i as int].take(0) =~= before);
        while j < part.len()
            invariant
                j <= part.len(),
                scoped_views(part@) == nested[i as int],
                scoped_views(line@) == before + nested[i as int].take(j as int),
            decreases part.len() - j,
        {
            let ghost so_far = scoped_views(line@);
            line.push(part[j].clone());
            assert(scoped_views(line@) =~= so_far.push(nested[i as int][j as int]));
            assert(before + nested[i as int].take(j + 1) =~= (before + nested[i as int].take(
                j as int,
            )).push(nested[i as int][j as int]));
            j += 1;
        }
        proof {
            assert(nested[i as int].take(part.len() as int) =~= nested[i as int]);
            nested.take(i as int).lemma_flatten_push(nested[i as int]);
            assert(nested.take(i + 1) =~= nested.take(i as int).push(nested[i as int]));
        }
        i += 1;
    }
    assert(nested.take(all.len() as int) =~= nested);
    line
}

/// The content of what came back for one environment: its detail, or the
/// reason why it could not be fetched.
pub open spec fn fetched_view(fetched: Result<EnvironmentDetail, String>) -> Result<
    DetailView,
    Seq<char>,
> {
    match fetched {
        Ok(detail) => Ok(detail@),
        Err(reason) => Err(reason@),
    }
}

/// The content of what became of one environment: its row, or the reason
/// why there is none.
pub open spec fn outcome_view(outcome: Result<EnvironmentRow, String>) -> Result<
    RowView,
    Seq<char>,
> {
    match outcome {
        Ok(row) => Ok(row@),
        Err(reason) => Err(reason@),
    }
}

/// The contents of a sequence of outcomes, in order.
pub open spec fn outcome_views(outcomes: Seq<Result<EnvironmentRow, String>>) -> Seq<
    Result<RowView, Seq<char>>,
> {
    outcomes.map_values(|outcome: Result<EnvironmentRow, String>| outcome_view(outcome))
}

/// The outcome at `index` is a failure and none before it is.
pub open spec fn fails_first_at(outcomes: Seq<Result<RowView, Seq<char>>>, index: int) -> bool {
    &&& 0 <= index < outcomes.len()
    &&& outcomes[index] is Err
    &&& forall|earlier: int| 0 <= earlier < index ==> (#[trigger] outcomes[earlier]) is Ok
}

/// Every outcome is a row.
pub open spec fn all_rows_built(outcomes: Seq<Result<RowView, Seq<char>>>) -> bool {
    forall|index: int| 0 <= index < outcomes.len() ==> (#[trigger] outcomes[index]) is Ok
}

/// The rows of a sequence of outcomes that are all rows.
pub open spec fn built_rows(outcomes: Seq<Result<RowView, Seq<char>>>) -> Seq<RowView> {
    outcomes.map_values(|outcome: Result<RowView, Seq<char>>| outcome->Ok_0)
}

/// Turns what came back for an environment into its row, seen at the time
/// `now`; a failed fetch is handed on.
pub fn resolve_environment_row_at(
    project_name: &str,
    fetched: &Result<EnvironmentDetail, String>,
    now: Instant,
) -> (outcome: Result<EnvironmentRow, String>)
    ensures
        outcome_view(outcome) == match fetched_view(*fetched) {
            Ok(detail) => Ok(row_of(project_name@, detail, now)),
            Err(reason) => Err(reason),
        },
{
    match fetched {
        Ok(detail) => Ok(build_environment_row_at(project_name, detail, now)),
        Err(reason) => Err(reason.clone()),
    }
}

/// Turns what came back for an environment into its row, with the age of
/// the deployment taken by the clock; a failed fetch is handed on.
pub fn resolve_environment_row(
    project_name: &str,
    fetched: &Result<EnvironmentDetail, String>,
) -> (outcome: Result<EnvironmentRow, String>)
    ensures
        match fetched_view(*fetched) {
            Ok(detail) => exists|now: Instant|
                outcome_view(outcome) == Ok::<RowView, Seq<char>>(
                    row_of(project_name@, detail, now),
                ),
            Err(reason) => outcome_view(outcome) == Err::<RowView, Seq<char>>(reason),
        },
{
    match fetched {
        Ok(detail) => {
            let row = build_environment_row(project_name, detail);
            proof {
                let now = choose|now: Instant| row@ == row_of(project_name@, detail@, now);
                assert(outcome_view(Ok(row)) == Ok::<RowView, Seq<char>>(
                    row_of(project_name@, detail@, now),
                ));
            }
            Ok(row)
        },
        Err(reason) => Err(reason.clone()),
    }
}

/// Gathers the rows of all environments, in order. The first failure among
/// the outcomes is the result; without one, all the rows are.
pub fn collect_rows(outcomes: Vec<Result<EnvironmentRow, String>>) -> (gathered: Result<
    Vec<EnvironmentRow>,
    String,
>)
    ensures
        match gathered {
            Ok(rows) => all_rows_built(outcome_views(outcomes@)) && row_views(rows@) == built_rows(
                outcome_views(outcomes@),
            ),
            Err(reason) => exists|index: int|
                fails_first_at(outcome_views(outcomes@), index) && outcome_views(
                    outcomes@,
                )[index] == Err::<RowView, Seq<char>>(reason@),
        },
{
    let ghost views = outcome_views(outcomes@);
    let mut rows: Vec<EnvironmentRow> = Vec::new();
    assert(row_views(rows@) =~= built_rows(views.take(0)));
    for outcome in it: outcomes
        invariant
            views == outcome_views(outcomes@),
            all_rows_built(views.take(it.index() as int)),
            row_views(rows@) == built_rows(views.take(it.index() as int)),
    {
        let ghost done = it.index() as int;
        let ghost before = row_views(rows@);
        assert(outcome_view(outcome) == views[done]);
        match outcome {
            Err(reason) => {
                proof {
                    assert forall|earlier: int| 0 <= earlier < done implies (
                    #[trigger] views[earlier]) is Ok by {
                        assert(views.take(done)[earlier] == views[earlier]);
                    }
                    assert(fails_first_at(views, done));
                }
                return Err(reason);
            },
            Ok(row) => {
                rows.push(row);
                proof {
                    assert(views.take(done + 1) =~= views.take(done).push(views[done]));
                    assert(row_views(rows@) =~= before.push(views[done]->Ok_0));
                    assert(built_rows(views.take(done + 1)) =~= built_rows(views.take(done)).push(
                        views[done]->Ok_0,
                    ));
                    assert forall|index: int| 0 <= index < done + 1 implies (#[trigger] views.take(
                        done + 1,
                    )[index]) is Ok by {
                        if index < done {
                            assert(views.take(done)[index] == views[index]);
                        }
                    }
                }
            },
        }
    }
    assert(views.take(views.len() as int) =~= views);
    Ok(rows)
}

} // verus!
