//! Choosing the projects of a namespace.
//!
//! The platform cannot filter projects by namespace, so all of them are
//! fetched and the choice is made here. Two names are the same namespace
//! when their upper-case forms are equal.

use vstd::prelude::*;

use crate::platform::{Project, ProjectView};

verus! {

/// The upper-case form of a text, as `str::to_uppercase` gives it.
pub uninterp spec fn uppercase(text: Seq<char>) -> Seq<char>;

/// Whether a project of the namespace `namespace` is wanted under the filter
/// `filter`: an empty filter wants every project, any other filter the
/// projects whose namespace has the same upper-case form.
pub open spec fn namespace_selected(filter: Seq<char>, namespace: Seq<char>) -> bool {
    filter.len() == 0 || uppercase(namespace) == uppercase(filter)
}

/// The contents of a sequence of projects, in order.
pub open spec fn project_views(projects: Seq<Project>) -> Seq<ProjectView> {
    projects.map_values(|project: Project| project@)
}

/// The contents of a sequence of names with their identifiers, in order.
pub open spec fn named_id_views(chosen: Seq<(String, u64)>) -> Seq<(Seq<char>, u64)> {
    chosen.map_values(|pair: (String, u64)| (pair.0@, pair.1))
}

/// The name and the identifier of a project.
pub open spec fn named_id(project: ProjectView) -> (Seq<char>, u64) {
    (project.name, project.id)
}

/// The test that a filter puts a project to.
pub open spec fn wanted_by(filter: Seq<char>) -> spec_fn(ProjectView) -> bool {
    |project: ProjectView| namespace_selected(filter, project.namespace)
}

/// The names and identifiers of a sequence of projects, in order.
pub open spec fn named_ids(projects: Seq<ProjectView>) -> Seq<(Seq<char>, u64)> {
    projects.map_values(|project: ProjectView| named_id(project))
}

/// The names and identifiers of the projects that the filter wants, in the
/// order of the projects.
pub open spec fn selected(projects: Seq<ProjectView>, filter: Seq<char>) -> Seq<(Seq<char>, u64)> {
    named_ids(projects.filter(wanted_by(filter)))
}

/// What a listing of the projects yields under a filter: the wanted
/// projects, or nothing where the listing failed.
pub open spec fn selected_of(listing: Option<Seq<ProjectView>>, filter: Seq<char>) -> Seq<
    (Seq<char>, u64),
> {
    match listing {
        Some(projects) => selected(projects, filter),
        None => Seq::empty(),
    }
}

/// Calls `str::to_uppercase`.
///
/// Not proved: that the outcome depends on the text alone, which is what
/// naming it `uppercase` says.
#[verifier::external_body]
fn upper(text: &str) -> (folded: String)
    ensures
        folded@ == uppercase(text@),
{
    text.to_uppercase()
}

/// Decides from the upper-case forms of a filter and of a namespace whether
/// the filter wants the namespace.
pub fn folded_names_match(filter: &str, folded_filter: &String, folded_namespace: &String) -> (wanted:
    bool)
    ensures
        wanted == (filter@.len() == 0 || folded_namespace@ == folded_filter@),
{
    filter.is_empty() || *folded_namespace == *folded_filter
}

/// Tells whether the filter wants the projects of a namespace: every
/// namespace for the empty filter, else the one that equals the filter when
/// case is set aside.
pub fn namespace_matches(filter: &str, namespace: &str) -> (wanted: bool)
    ensures
        wanted == namespace_selected(filter@, namespace@),
{
    if filter.is_empty() {
        return true;
    }
    let folded_filter = upper(filter);
    let folded_namespace = upper(namespace);
    folded_names_match(filter, &folded_filter, &folded_namespace)
}

/// Picks the projects of a namespace out of the listing of all projects and
/// hands out their names and identifiers, in the order of the listing. A
/// listing that failed (`None`) counts as empty.
pub fn projects_for_namespace(listing: &Option<Vec<Project>>, namespace: &str) -> (chosen: Vec<
    (String, u64),
>)
    ensures
        named_id_views(chosen@) == selected_of(
            match listing {
                Some(projects) => Some(project_views(projects@)),
                None => None,
            },
            namespace@,
        ),
{
    let mut chosen: Vec<(String, u64)> = Vec::new();
    match listing {
        None => {
            assert(named_id_views(chosen@) =~= Seq::<(Seq<char>, u64)>::empty());
        },
        Some(projects) => {
            let ghost views = project_views(projects@);
            let mut i: usize = 0;
            proof {
                reveal(Seq::filter);
                assert(views.take(0) =~= Seq::<ProjectView>::empty());
                assert(named_id_views(chosen@) =~= selected(views.take(0), namespace@));
            }
            while i < projects.len()
                invariant
                    i <= projects.len(),
                    views == project_views(projects@),
                    named_id_views(chosen@) == selected(views.take(i as int), namespace@),
                decreases projects.len() - i,
            {
                let ghost before = named_id_views(chosen@);
                let ghost seen = views.take(i as int);
                proof {
                    assert(views.take(i + 1) =~= seen.push(views[i as int]));
                    seen.lemma_filter_push(views[i as int], wanted_by(namespace@));
                }
                let project = &projects[i];
                if namespace_matches(namespace, project.namespace.as_str()) {
                    chosen.push((project.name.clone(), project.id));
                    proof {
                        let kept = seen.filter(wanted_by(namespace@));
                        assert(named_id_views(chosen@) =~= before.push(named_id(views[i as int])));
                        assert(named_ids(kept.push(views[i as int])) =~= named_ids(kept).push(
                            named_id(views[i as int]),
                        ));
                    }
                }
                i += 1;
            }
            assert(views.take(projects.len() as int) =~= views);
        },
    }
    chosen
}

} // verus!
