//! The display row, the unit every later stage works on.

use vstd::prelude::*;

use crate::age::{updated_label, updated_label_of, Instant};
use crate::platform::{DeploymentView, DetailView, EnvironmentDetail};
use crate::text::{decimal, to_decimal};

verus! {

/// One line of the report: what is deployed in one environment of one project.
pub struct EnvironmentRow {
    pub project_name: String,
    pub environment_name: String,
    /// `"<number> by <user>"`, empty when nothing was ever deployed.
    pub deployment_by: String,
    /// Short identifier of the deployed commit, empty when it is not known.
    pub commit_sha: String,
    /// How long ago the deployment was made, in words; may be empty.
    pub updated: String,
}

/// The mathematical content of an [`EnvironmentRow`].
pub struct RowView {
    pub project_name: Seq<char>,
    pub environment_name: Seq<char>,
    pub deployment_by: Seq<char>,
    pub commit_sha: Seq<char>,
    pub updated: Seq<char>,
}

impl View for EnvironmentRow {
    type V = RowView;

    open spec fn view(&self) -> RowView {
        RowView {
            project_name: self.project_name@,
            environment_name: self.environment_name@,
            deployment_by: self.deployment_by@,
            commit_sha: self.commit_sha@,
            updated: self.updated@,
        }
    }
}

impl Clone for EnvironmentRow {
    fn clone(&self) -> (copy: Self)
        ensures
            copy == *self,
    {
        EnvironmentRow {
            project_name: self.project_name.clone(),
            environment_name: self.environment_name.clone(),
            deployment_by: self.deployment_by.clone(),
            commit_sha: self.commit_sha.clone(),
            updated: self.updated.clone(),
        }
    }
}

/// The contents of a sequence of rows, in order.
pub open spec fn row_views(rows: Seq<EnvironmentRow>) -> Seq<RowView> {
    rows.map_values(|row: EnvironmentRow| row@)
}

/// The label of a deployment: its number, ` by ` and the user who made it.
pub open spec fn deployment_label_of(deployment: DeploymentView) -> Seq<char> {
    decimal(deployment.iid as nat) + " by "@ + deployment.username
}

/// The row for an environment of the named project, seen at the time `now`.
///
/// Without a deployment the three derived texts are empty. With one, the
/// commit is empty where the platform did not name it, and the age is empty
/// where the time of the deployment cannot be read.
pub open spec fn row_of(project_name: Seq<char>, detail: DetailView, now: Instant) -> RowView {
    match detail.last_deployment {
        None => RowView {
            project_name,
            environment_name: detail.name,
            deployment_by: Seq::empty(),
            commit_sha: Seq::empty(),
            updated: Seq::empty(),
        },
        Some(deployment) => RowView {
            project_name,
            environment_name: detail.name,
            deployment_by: deployment_label_of(deployment),
            commit_sha: match deployment.commit_short_id {
                Some(id) => id,
                None => Seq::empty(),
            },
            updated: updated_label_of(deployment.created_at, now),
        },
    }
}

/// Writes the label of a deployment: `"<number> by <user>"`.
pub fn deployment_label(iid: u64, username: &str) -> (label: String)
    ensures
        label@ == decimal(iid as nat) + " by "@ + username@,
{
    let mut label = to_decimal(iid);
    label.append(" by ");
    label.append(username);
    label
}

/// Builds the row for an environment of the named project, with the age of
/// its deployment taken at the time `now`.
pub fn build_environment_row_at(project_name: &str, env: &EnvironmentDetail, now: Instant) -> (row:
    EnvironmentRow)
    ensures
        row@ == row_of(project_name@, env@, now),
{
    match &env.last_deployment {
        None => EnvironmentRow {
            project_name: String::from_str(project_name),
            environment_name: env.name.clone(),
            deployment_by: String::new(),
            commit_sha: String::new(),
            updated: String::new(),
        },
        Some(deployment) => {
            let commit_sha = match &deployment.commit_short_id {
                Some(id) => id.clone(),
                None => String::new(),
            };
            EnvironmentRow {
                project_name: String::from_str(project_name),
                environment_name: env.name.clone(),
                deployment_by: deployment_label(deployment.iid, deployment.username.as_str()),
                commit_sha,
                updated: updated_label(deployment.created_at.as_str(), now),
            }
        },
    }
}

/// Builds the row for an environment of the named project, with the age of
/// its deployment taken by the clock at the moment of the call.
pub fn build_environment_row(project_name: &str, env: &EnvironmentDetail) -> (row: EnvironmentRow)
    ensures
        exists|now: Instant| row@ == row_of(project_name@, env@, now),
        row@.project_name == project_name@,
        row@.environment_name == env@.name,
        env@.last_deployment is None ==> row@.deployment_by.len() == 0 && row@.commit_sha.len() == 0
            && row@.updated.len() == 0,
        env@.last_deployment matches Some(deployment) ==> row@.deployment_by == deployment_label_of(
            deployment,
        ) && row@.commit_sha == match deployment.commit_short_id {
            Some(id) => id,
            None => Seq::empty(),
        },
{
    let now = Instant::now();
    let row = build_environment_row_at(project_name, env, now);
    assert(row@ == row_of(project_name@, env@, now));
    row
}

} // verus!
