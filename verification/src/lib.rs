//! Verified request-handling logic for the dev-pulse REST surface:
//! parsing and validation of query parameters and bodies, the
//! merge/overlay rules of partial updates, issue filtering, grouping
//! and sorting, tag-link batch planning, and the error mapping that
//! every handler shares.

pub mod text;
pub mod error;
pub mod ids;
pub mod project_issues;
pub mod issue_buckets;
pub mod project_milestones;
pub mod repos;
pub mod issue_list;
pub mod tags;
pub mod exec_summary;
pub mod projects;
pub mod settings;
pub mod project_views;
pub mod reports;
pub mod rma;
pub mod repo_project_link;
pub mod project_repos;
pub mod audit;
