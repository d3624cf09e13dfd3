//! Design assets and their versioned revisions, which the client approves
//! or rejects; and what a client may see of its own projects.
use vstd::prelude::*;
use crate::authz::{authorize_project, authorize_project_workstream, project_access, project_workstream_access, RoleAssignment};
use crate::error::{ApiError, BadRequest};
use crate::project::Project;
use crate::schedule::{Role, WorkstreamType};
use crate::text::{blank, is_blank};
use crate::versions::{compute_next_version, next_version, versions_below_max, Versioned};

verus! {

/// A design asset of a project.
#[derive(Clone, Copy, Debug, PartialEq, Eq, Structural)]
pub struct DesignAsset {
    pub id: u128,
    pub project_id: u128,
}

/// Where a design revision stands.
#[derive(Clone, Copy, Debug, PartialEq, Eq, Structural)]
pub enum RevisionStatus {
    Submitted,
    Approved,
    Rejected,
}

/// A design revision: which asset and version it is, where it stands, who
/// submitted it and when, and who decided it and when (times in
/// microseconds since the Unix epoch).
#[derive(Clone, Copy, Debug, PartialEq, Eq, Structural)]
pub struct DesignRevision {
    pub id: u128,
    pub design_asset_id: u128,
    pub version: i32,
    pub status: RevisionStatus,
    pub submitted_by: u128,
    pub submitted_at: i64,
    /// The client user who decided it.
    pub decided_by: Option<u128>,
    pub decided_at: Option<i64>,
}

impl Versioned for DesignRevision {
    open spec fn owner(&self) -> u128 {
        self.design_asset_id
    }

    open spec fn version_number(&self) -> i32 {
        self.version
    }

    fn owner_of(&self) -> (r: u128) {
        self.design_asset_id
    }

    fn version_of(&self) -> (r: i32) {
        self.version
    }
}

/// Two optional texts are the same text, or both absent.
pub open spec fn same_text(a: Option<String>, b: Option<String>) -> bool {
    match (a, b) {
        (Some(x), Some(y)) => x@ == y@,
        (None, None) => true,
        _ => false,
    }
}

fn copy_text(t: &Option<String>) -> (r: Option<String>)
    ensures
        same_text(r, *t),
{
    match t {
        Some(x) => Some(x.clone()),
        None => None,
    }
}

/// A design asset with its revisions.
pub struct DesignAssetWithRevisions {
    pub asset: DesignAsset,
    pub revisions: Vec<DesignRevision>,
}

/// A request for a design asset.
pub struct CreateDesignAssetRequest {
    pub title: String,
}

/// Creates a design asset (id `id`): the title must not be blank and the
/// caller needs the sales-and-design role in the project's business unit.
pub fn create_design_asset(
    req: &CreateDesignAssetRequest,
    project: Option<Project>,
    enabled_workstreams: &Vec<WorkstreamType>,
    assignments: &Vec<RoleAssignment>,
    user_id: u128,
    id: u128,
) -> (r: Result<DesignAsset, ApiError>)
    ensures
        r == (if blank(req.title@) {
            Err(ApiError::BadRequest(BadRequest::TitleRequired))
        } else {
            match project_workstream_access(project, assignments@, user_id, Some(Role::SalesDesign), enabled_workstreams@, WorkstreamType::Design) {
                Err(e) => Err(e),
                Ok(p) => Ok(DesignAsset { id, project_id: p.id }),
            }
        }),
{
    if is_blank(req.title.as_str()) {
        return Err(ApiError::BadRequest(BadRequest::TitleRequired));
    }
    match authorize_project_workstream(project, assignments, user_id, Some(Role::SalesDesign), enabled_workstreams, WorkstreamType::Design) {
        Err(e) => Err(e),
        Ok(p) => Ok(DesignAsset { id, project_id: p.id }),
    }
}

/// Notes submitted with a revision.
pub struct SubmitRevisionRequest {
    pub notes: Option<String>,
}

/// A revision as recorded, with the notes it was submitted with.
pub struct SubmittedRevision {
    pub revision: DesignRevision,
    pub notes: Option<String>,
}

/// The revision a submission records, or why it is refused (see
/// `submit_design_revision`).
pub open spec fn submission_outcome(
    asset: Option<DesignAsset>,
    project: Option<Project>,
    revisions: Seq<DesignRevision>,
    assignments: Seq<RoleAssignment>,
    user_id: u128,
    id: u128,
    now: i64,
) -> Result<DesignRevision, ApiError> {
    match asset {
        None => Err(ApiError::NotFound),
        Some(a) => match project_access(project, assignments, user_id, Some(Role::SalesDesign)) {
            Err(e) => Err(e),
            Ok(_) => Ok(
                DesignRevision {
                    id,
                    design_asset_id: a.id,
                    version: next_version(revisions, a.id) as i32,
                    status: RevisionStatus::Submitted,
                    submitted_by: user_id,
                    submitted_at: now,
                    decided_by: None,
                    decided_at: None,
                },
            ),
        },
    }
}

/// Submits a new revision (id `id`) of a design asset (`None`: not found;
/// `project` is its project) at `now`: the caller needs the sales-and-design
/// role in the project's business unit; the revision is submitted by the
/// caller, at the asset's next version, with the request's notes, and is
/// undecided. `revisions` are the asset's existing revisions.
pub fn submit_design_revision(
    req: &SubmitRevisionRequest,
    asset: Option<DesignAsset>,
    project: Option<Project>,
    revisions: &Vec<DesignRevision>,
    assignments: &Vec<RoleAssignment>,
    user_id: u128,
    id: u128,
    now: i64,
) -> (r: Result<SubmittedRevision, ApiError>)
    requires
        asset matches Some(a) ==> versions_below_max(revisions@, a.id),
    ensures
        match submission_outcome(asset, project, revisions@, assignments@, user_id, id, now) {
            Err(e) => r matches Err(e2) && e2 == e,
            Ok(rev) => r matches Ok(s) && s.revision == rev && same_text(s.notes, req.notes),
        },
{
    let a = match asset {
        None => return Err(ApiError::NotFound),
        Some(a) => a,
    };
    match authorize_project(project, assignments, user_id, Some(Role::SalesDesign)) {
        Err(e) => return Err(e),
        Ok(_) => {},
    }
    let version = compute_next_version(revisions, a.id);
    Ok(
        SubmittedRevision {
            revision: DesignRevision {
                id,
                design_asset_id: a.id,
                version,
                status: RevisionStatus::Submitted,
                submitted_by: user_id,
                submitted_at: now,
                decided_by: None,
                decided_at: None,
            },
            notes: copy_text(&req.notes),
        },
    )
}

/// The project, when it exists and belongs to the client; `NotFound`
/// otherwise, so that a client cannot tell another client's project from a
/// missing one.
pub open spec fn client_project_access(project: Option<Project>, client_id: u128) -> Result<Project, ApiError> {
    match project {
        None => Err(ApiError::NotFound),
        Some(p) => if p.client_id == client_id {
            Ok(p)
        } else {
            Err(ApiError::NotFound)
        },
    }
}

/// Checks a client's access to a project; see `client_project_access`.
pub fn authorize_client_project(project: Option<Project>, client_id: u128) -> (r: Result<Project, ApiError>)
    ensures
        r == client_project_access(project, client_id),
{
    match project {
        None => Err(ApiError::NotFound),
        Some(p) => if p.client_id == client_id {
            Ok(p)
        } else {
            Err(ApiError::NotFound)
        },
    }
}

/// A decided revision, with the client's decision notes.
pub struct RevisionDecision {
    pub revision: DesignRevision,
    pub decision_notes: Option<String>,
}

/// The revision a client's decision records, or why it is refused (see
/// `decide_revision`).
pub open spec fn revision_decision_outcome(
    revision: Option<DesignRevision>,
    asset: Option<DesignAsset>,
    project: Option<Project>,
    client_id: u128,
    client_user_id: u128,
    approve: bool,
    now: i64,
) -> Result<DesignRevision, ApiError> {
    match revision {
        None => Err(ApiError::NotFound),
        Some(rev) => match asset {
            None => Err(ApiError::NotFound),
            Some(_) => match client_project_access(project, client_id) {
                Err(e) => Err(e),
                Ok(_) => if rev.status != RevisionStatus::Submitted {
                    Err(ApiError::BadRequest(BadRequest::AlreadyDecided))
                } else {
                    Ok(
                        DesignRevision {
                            status: if approve {
                                RevisionStatus::Approved
                            } else {
                                RevisionStatus::Rejected
                            },
                            decided_by: Some(client_user_id),
                            decided_at: Some(now),
                            ..rev
                        },
                    )
                },
            },
        },
    }
}

/// The decision of client user `client_user_id` of client `client_id` on a
/// design revision, at `now`. `revision`, `asset` and `project` are the
/// revision asked for, its asset and the asset's project (`None`: missing,
/// `NotFound`); the project must be the client's; only a submitted revision
/// can be decided. The decision records who decided, when, and the notes.
pub fn decide_revision(
    req: &DecisionRequest,
    revision: Option<DesignRevision>,
    asset: Option<DesignAsset>,
    project: Option<Project>,
    client_id: u128,
    client_user_id: u128,
    approve: bool,
    now: i64,
) -> (r: Result<RevisionDecision, ApiError>)
    ensures
        match revision_decision_outcome(revision, asset, project, client_id, client_user_id, approve, now) {
            Err(e) => r matches Err(e2) && e2 == e,
            Ok(rev) => r matches Ok(d) && d.revision == rev && same_text(d.decision_notes, req.notes),
        },
{
    let rev = match revision {
        None => return Err(ApiError::NotFound),
        Some(rev) => rev,
    };
    if asset.is_none() {
        return Err(ApiError::NotFound);
    }
    match authorize_client_project(project, client_id) {
        Err(e) => return Err(e),
        Ok(_) => {},
    }
    if rev.status != RevisionStatus::Submitted {
        return Err(ApiError::BadRequest(BadRequest::AlreadyDecided));
    }
    let status = if approve {
        RevisionStatus::Approved
    } else {
        RevisionStatus::Rejected
    };
    Ok(
        RevisionDecision {
            revision: DesignRevision { status, decided_by: Some(client_user_id), decided_at: Some(now), ..rev },
            decision_notes: copy_text(&req.notes),
        },
    )
}

/// A client's decision note.
pub struct DecisionRequest {
    pub notes: Option<String>,
}

/// The projects a client sees: its own, in order.
pub fn list_my_projects(projects: &Vec<Project>, client_id: u128) -> (r: Vec<Project>)
    ensures
        r@ == projects@.filter(|p: Project| p.client_id == client_id),
{
    let ghost pred = |p: Project| p.client_id == client_id;
    let mut out: Vec<Project> = Vec::new();
    let mut i: usize = 0;
    proof {
        reveal(Seq::filter);
        assert(projects@.take(0).filter(pred) =~= Seq::<Project>::empty());
    }
    while i < projects.len()
        invariant
            i <= projects@.len(),
            pred == (|p: Project| p.client_id == client_id),
            out@ == projects@.take(i as int).filter(pred),
        decreases projects@.len() - i,
    {
        let p = projects[i];
        proof {
            reveal(Seq::filter);
            assert(projects@.take(i + 1).drop_last() =~= projects@.take(i as int));
            assert(projects@.take(i + 1).last() == p);
        }
        if p.client_id == client_id {
            out.push(p);
        }
        i = i + 1;
    }
    proof {
        assert(projects@.take(projects@.len() as int) =~= projects@);
    }
    out
}

} // verus!
