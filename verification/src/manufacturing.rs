//! Production tasks of the manufacturing workstream.
use vstd::prelude::*;
use crate::authz::{authorize_project, authorize_project_workstream, project_access, project_workstream_access, RoleAssignment};
use crate::error::{ApiError, BadRequest};
use crate::project::Project;
use crate::schedule::{Role, WorkstreamType};
use crate::text::{blank, is_blank, str_is};

verus! {

/// Progress of a production task.
#[derive(Clone, Copy, Debug, PartialEq, Eq, Structural)]
pub enum ProductionStatus {
    NotStarted,
    InProgress,
    Completed,
}

/// The status a name denotes: `"not_started"`, `"in_progress"` or
/// `"completed"`.
pub open spec fn spec_parse_production_status(s: Seq<char>) -> Option<ProductionStatus> {
    if s == "not_started"@ {
        Some(ProductionStatus::NotStarted)
    } else if s == "in_progress"@ {
        Some(ProductionStatus::InProgress)
    } else if s == "completed"@ {
        Some(ProductionStatus::Completed)
    } else {
        None
    }
}

/// Law: each production status name denotes its own status and no other:
/// "not_started" not started, "in_progress" in progress, "completed"
/// completed; any other text denotes no status.
pub proof fn lemma_production_status_names(s: Seq<char>)
    ensures
        (spec_parse_production_status(s) == Some(ProductionStatus::NotStarted)) <==> s == "not_started"@,
        (spec_parse_production_status(s) == Some(ProductionStatus::InProgress)) <==> s == "in_progress"@,
        (spec_parse_production_status(s) == Some(ProductionStatus::Completed)) <==> s == "completed"@,
        spec_parse_production_status(s) is None <==> (s != "not_started"@ && s != "in_progress"@ && s
            != "completed"@),
{
    reveal_strlit("not_started");
    reveal_strlit("in_progress");
    reveal_strlit("completed");
    assert("not_started"@.len() == 11 && "in_progress"@.len() == 11 && "completed"@.len() == 9);
    assert("not_started"@[0] != "in_progress"@[0]);
}

impl ProductionStatus {
    /// Reads a status name.
    pub fn parse(s: &str) -> (r: Option<ProductionStatus>)
        ensures
            r == spec_parse_production_status(s@),
    {
        if str_is(s, "not_started") {
            Some(ProductionStatus::NotStarted)
        } else if str_is(s, "in_progress") {
            Some(ProductionStatus::InProgress)
        } else if str_is(s, "completed") {
            Some(ProductionStatus::Completed)
        } else {
            None
        }
    }
}

/// A production task.
#[derive(Clone, Copy, Debug, PartialEq, Eq, Structural)]
pub struct ProductionTask {
    pub id: u128,
    pub project_id: u128,
    pub status: ProductionStatus,
}

/// A request for a production task.
pub struct CreateProductionTaskRequest {
    pub title: String,
}

/// Creates a production task (id `id`), not started: the title must not be
/// blank and the caller needs the delivery role in the project's business
/// unit.
pub fn create_production_task(
    req: &CreateProductionTaskRequest,
    project: Option<Project>,
    enabled_workstreams: &Vec<WorkstreamType>,
    assignments: &Vec<RoleAssignment>,
    user_id: u128,
    id: u128,
) -> (r: Result<ProductionTask, ApiError>)
    ensures
        r == (if blank(req.title@) {
            Err(ApiError::BadRequest(BadRequest::TitleRequired))
        } else {
            match project_workstream_access(project, assignments@, user_id, Some(Role::Delivery), enabled_workstreams@, WorkstreamType::Manufacturing) {
                Err(e) => Err(e),
                Ok(p) => Ok(ProductionTask { id, project_id: p.id, status: ProductionStatus::NotStarted }),
            }
        }),
{
    if is_blank(req.title.as_str()) {
        return Err(ApiError::BadRequest(BadRequest::TitleRequired));
    }
    match authorize_project_workstream(project, assignments, user_id, Some(Role::Delivery), enabled_workstreams, WorkstreamType::Manufacturing) {
        Err(e) => Err(e),
        Ok(p) => Ok(ProductionTask { id, project_id: p.id, status: ProductionStatus::NotStarted }),
    }
}

/// A requested production task status.
pub struct ProductionTaskUpdateStatusRequest {
    pub status: String,
}

/// Sets a production task's status: the status must be a known one
/// (checked first), the task must exist (`project` is its project) and the
/// caller needs the delivery role in the project's business unit.
pub fn update_production_task_status(
    req: &ProductionTaskUpdateStatusRequest,
    task: Option<ProductionTask>,
    project: Option<Project>,
    assignments: &Vec<RoleAssignment>,
    user_id: u128,
) -> (r: Result<ProductionTask, ApiError>)
    ensures
        r == (match spec_parse_production_status(req.status@) {
            None => Err(ApiError::BadRequest(BadRequest::InvalidStatus)),
            Some(st) => match task {
                None => Err(ApiError::NotFound),
                Some(t) => match project_access(project, assignments@, user_id, Some(Role::Delivery)) {
                    Err(e) => Err(e),
                    Ok(_) => Ok(ProductionTask { status: st, ..t }),
                },
            },
        }),
        r is Ok ==> {
            let u = r->Ok_0;
            &&& u == ProductionTask { status: u.status, ..task.unwrap() }
            &&& (u.status == ProductionStatus::NotStarted <==> req.status@ == "not_started"@)
            &&& (u.status == ProductionStatus::InProgress <==> req.status@ == "in_progress"@)
            &&& (u.status == ProductionStatus::Completed <==> req.status@ == "completed"@)
        },
{
    proof {
        lemma_production_status_names(req.status@);
    }
    let st = match ProductionStatus::parse(req.status.as_str()) {
        None => return Err(ApiError::BadRequest(BadRequest::InvalidStatus)),
        Some(st) => st,
    };
    let t = match task {
        None => return Err(ApiError::NotFound),
        Some(t) => t,
    };
    match authorize_project(project, assignments, user_id, Some(Role::Delivery)) {
        Err(e) => Err(e),
        Ok(_) => Ok(ProductionTask { status: st, ..t }),
    }
}

} // verus!
