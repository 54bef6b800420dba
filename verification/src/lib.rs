//! Deployment drift reporting for the environments of a source-control platform.
//!
//! The crate takes the projects, environments and deployments that a client
//! has fetched, turns them into display rows, finds the projects whose
//! environments disagree on the deployed commit, and lays the result out as
//! an aligned table. Fetching and printing are left to the caller.

pub mod age;
pub mod config;
pub mod drift;
pub mod drift_laws;
pub mod environments;
pub mod platform;
pub mod projects;
pub mod row;
pub mod table;
pub mod text;
