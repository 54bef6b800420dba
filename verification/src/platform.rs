//! What the platform reports about projects, environments and deployments,
//! as plain values.

use vstd::prelude::*;

verus! {

/// A project of the platform.
pub struct Project {
    pub id: u64,
    pub name: String,
    /// The name of the namespace (group) that the project belongs to.
    pub namespace: String,
}

/// The mathematical content of a [`Project`].
pub struct ProjectView {
    pub id: u64,
    pub name: Seq<char>,
    pub namespace: Seq<char>,
}

impl View for Project {
    type V = ProjectView;

    open spec fn view(&self) -> ProjectView {
        ProjectView { id: self.id, name: self.name@, namespace: self.namespace@ }
    }
}

/// A deployment target of a project, as the list of environments names it.
pub struct Environment {
    pub id: u64,
    pub name: String,
}

/// The mathematical content of an [`Environment`].
pub struct EnvironmentView {
    pub id: u64,
    pub name: Seq<char>,
}

impl View for Environment {
    type V = EnvironmentView;

    open spec fn view(&self) -> EnvironmentView {
        EnvironmentView { id: self.id, name: self.name@ }
    }
}

impl Clone for Environment {
    fn clone(&self) -> (copy: Self)
        ensures
            copy == *self,
    {
        Environment { id: self.id, name: self.name.clone() }
    }
}

/// A record of a commit having been deployed to an environment.
pub struct Deployment {
    /// The number of the deployment within its project.
    pub iid: u64,
    /// The user who made the deployment.
    pub username: String,
    /// The short identifier of the deployed commit, where it is known.
    pub commit_short_id: Option<String>,
    /// When the deployment was made, as the platform wrote it.
    pub created_at: String,
}

/// The mathematical content of a [`Deployment`].
pub struct DeploymentView {
    pub iid: u64,
    pub username: Seq<char>,
    pub commit_short_id: Option<Seq<char>>,
    pub created_at: Seq<char>,
}

impl View for Deployment {
    type V = DeploymentView;

    open spec fn view(&self) -> DeploymentView {
        DeploymentView {
            iid: self.iid,
            username: self.username@,
            commit_short_id: match self.commit_short_id {
                Some(id) => Some(id@),
                None => None,
            },
            created_at: self.created_at@,
        }
    }
}

/// An environment in full: its name and its latest deployment, if it ever
/// had one.
pub struct EnvironmentDetail {
    pub name: String,
    pub last_deployment: Option<Deployment>,
}

/// The mathematical content of an [`EnvironmentDetail`].
pub struct DetailView {
    pub name: Seq<char>,
    pub last_deployment: Option<DeploymentView>,
}

impl View for EnvironmentDetail {
    type V = DetailView;

    open spec fn view(&self) -> DetailView {
        DetailView {
            name: self.name@,
            last_deployment: match self.last_deployment {
                Some(deployment) => Some(deployment@),
                None => None,
            },
        }
    }
}

} // verus!
