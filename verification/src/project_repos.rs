//! Project ↔ repository links: the same-organisation rule and the
//! enrichment of a link with its repository and organisation.

use vstd::prelude::*;

use crate::error::{bad_request, is_bad, ApiError, ErrorCode};

verus! {

/// A repository may join a project of its own organisation only;
/// otherwise `cross_org_repo`.
pub fn check_same_org(project_org: u128, repo_org: u128) -> (r: Result<(), ApiError>)
    ensures
        project_org == repo_org ==> r is Ok,
        project_org != repo_org ==> (r matches Err(e) && is_bad(
            e,
            ErrorCode::CrossOrgRepo,
            "repo must belong to the same org as the project"@,
        )),
{
    if project_org == repo_org {
        Ok(())
    } else {
        Err(bad_request(ErrorCode::CrossOrgRepo, "repo must belong to the same org as the project".to_owned()))
    }
}

/// A stored project ↔ repository link.
#[derive(Debug, Clone, Copy)]
pub struct ProjectRepo {
    pub project_id: u128,
    pub repo_id: u128,
    pub added_by: Option<u128>,
    /// Microseconds since the Unix epoch (UTC).
    pub added_at: i64,
}

/// A link with its repository's organisation and name.
#[derive(Debug, Clone)]
pub struct ProjectRepoDto {
    pub project_id: u128,
    pub repo_id: u128,
    pub repo_org_id: u128,
    pub repo_org_login: String,
    pub repo_name: String,
    pub added_by: Option<u128>,
    pub added_at: i64,
}

/// The enriched link: the repository's `(org, name)` when it exists
/// (else the nil id and an empty name), the login of that organisation
/// when it exists (else empty).
pub fn enrich(row: ProjectRepo, repo: Option<(u128, String)>, org_login: Option<String>) -> (r: ProjectRepoDto)
    ensures
        r.project_id == row.project_id && r.repo_id == row.repo_id && r.added_by == row.added_by && r.added_at
            == row.added_at,
        match repo {
            Some((o, n)) => r.repo_org_id == o && r.repo_name == n,
            None => r.repo_org_id == 0 && r.repo_name@.len() == 0,
        },
        match org_login {
            Some(l) => r.repo_org_login == l,
            None => r.repo_org_login@.len() == 0,
        },
{
    let (repo_org_id, repo_name) = match repo {
        Some((o, n)) => (o, n),
        None => (0u128, String::new()),
    };
    let repo_org_login = match org_login {
        Some(l) => l,
        None => String::new(),
    };
    ProjectRepoDto {
        project_id: row.project_id,
        repo_id: row.repo_id,
        repo_org_id,
        repo_org_login,
        repo_name,
        added_by: row.added_by,
        added_at: row.added_at,
    }
}

} // verus!
