//! Site execution: site tasks (each linked to a schedule task), daily logs,
//! punch lists and site queries. Every action needs the delivery role in
//! the project's business unit.
use vstd::prelude::*;
use crate::authz::{authorize_project, authorize_project_workstream, project_access, project_workstream_access, RoleAssignment};
use crate::error::{ApiError, BadRequest};
use crate::project::Project;
use crate::schedule::{no_dates, spec_parse_task_status, Role, ScheduleDates, ScheduleTask, TaskStatus, WorkstreamType};
use crate::text::{blank, is_blank};

verus! {

/// A site task.
#[derive(Clone, Copy, Debug, PartialEq, Eq, Structural)]
pub struct SiteTask {
    pub id: u128,
    pub project_id: u128,
    pub status: TaskStatus,
}

/// A request for a site task.
pub struct CreateSiteTaskRequest {
    pub title: String,
}

/// A new site task and the schedule task permanently linked to it.
pub struct SiteTaskResponse {
    pub task: SiteTask,
    pub schedule_task: ScheduleTask,
    /// The title both tasks carry.
    pub title: String,
}

/// Creates a site task (id `id`) and the site-execution schedule task (id
/// `schedule_task_id`, a second fresh id) that tracks it; both carry the
/// requested title and are not started, and the schedule task has no dates
/// yet. The title must not be blank and the caller needs the delivery role
/// in the project's business unit.
pub fn create_site_task(
    req: &CreateSiteTaskRequest,
    project: Option<Project>,
    enabled_workstreams: &Vec<WorkstreamType>,
    assignments: &Vec<RoleAssignment>,
    user_id: u128,
    id: u128,
    schedule_task_id: u128,
) -> (r: Result<SiteTaskResponse, ApiError>)
    requires
        id != schedule_task_id,
    ensures
        blank(req.title@) ==> (r matches Err(e) && e == ApiError::BadRequest(BadRequest::TitleRequired)),
        !blank(req.title@) ==> match project_workstream_access(project, assignments@, user_id, Some(Role::Delivery), enabled_workstreams@, WorkstreamType::SiteExecution) {
            Err(e) => r matches Err(e2) && e2 == e,
            Ok(p) => r matches Ok(resp) && resp.title@ == req.title@ && resp.task == (SiteTask {
                id,
                project_id: p.id,
                status: TaskStatus::NotStarted,
            }) && resp.schedule_task == (ScheduleTask {
                id: schedule_task_id,
                project_id: p.id,
                workstream_type: WorkstreamType::SiteExecution,
                status: TaskStatus::NotStarted,
                dates: no_dates(),
                site_task_id: Some(id),
            }) && resp.schedule_task.id != resp.task.id,
        },
{
    if is_blank(req.title.as_str()) {
        return Err(ApiError::BadRequest(BadRequest::TitleRequired));
    }
    let p = match authorize_project_workstream(project, assignments, user_id, Some(Role::Delivery), enabled_workstreams, WorkstreamType::SiteExecution) {
        Err(e) => return Err(e),
        Ok(p) => p,
    };
    Ok(
        SiteTaskResponse {
            task: SiteTask { id, project_id: p.id, status: TaskStatus::NotStarted },
            schedule_task: ScheduleTask {
                id: schedule_task_id,
                project_id: p.id,
                workstream_type: WorkstreamType::SiteExecution,
                status: TaskStatus::NotStarted,
                dates: ScheduleDates {
                    planned_start_date: None,
                    planned_end_date: None,
                    actual_start_date: None,
                    actual_end_date: None,
                },
                site_task_id: Some(id),
            },
            title: req.title.clone(),
        },
    )
}

/// A requested site task status.
pub struct SiteTaskUpdateStatusRequest {
    pub status: String,
}

/// A site task after a status change, with its linked schedule task.
pub struct SiteTaskStatusUpdate {
    pub task: SiteTask,
    pub schedule_task: Option<ScheduleTask>,
}

/// Sets a site task's status (`"not_started"`, `"in_progress"` or
/// `"done"`, checked first) and keeps its linked schedule task (`linked`,
/// if any) at the same status. `task` is the task asked for (`None`: not
/// found) and `project` its project.
pub fn update_site_task_status(
    req: &SiteTaskUpdateStatusRequest,
    task: Option<SiteTask>,
    project: Option<Project>,
    linked: Option<ScheduleTask>,
    assignments: &Vec<RoleAssignment>,
    user_id: u128,
) -> (r: Result<SiteTaskStatusUpdate, ApiError>)
    ensures
        match spec_parse_task_status(req.status@) {
            None => r matches Err(e) && e == ApiError::BadRequest(BadRequest::InvalidStatus),
            Some(st) => match task {
                None => r matches Err(e) && e == ApiError::NotFound,
                Some(t) => match project_access(project, assignments@, user_id, Some(Role::Delivery)) {
                    Err(e) => r matches Err(e2) && e2 == e,
                    Ok(_) => r matches Ok(u) && u.task == (SiteTask { status: st, ..t }) && match linked {
                        None => u.schedule_task is None,
                        Some(l) => u.schedule_task == Some(ScheduleTask { status: st, ..l }),
                    },
                },
            },
        },
        r is Ok ==> {
            let st = r->Ok_0.task.status;
            &&& (st == TaskStatus::NotStarted <==> req.status@ == "not_started"@)
            &&& (st == TaskStatus::InProgress <==> req.status@ == "in_progress"@)
            &&& (st == TaskStatus::Done <==> req.status@ == "done"@)
        },
{
    proof {
        crate::schedule::lemma_task_status_names(req.status@);
    }
    let st = match TaskStatus::parse(req.status.as_str()) {
        None => return Err(ApiError::BadRequest(BadRequest::InvalidStatus)),
        Some(st) => st,
    };
    let t = match task {
        None => return Err(ApiError::NotFound),
        Some(t) => t,
    };
    match authorize_project(project, assignments, user_id, Some(Role::Delivery)) {
        Err(e) => return Err(e),
        Ok(_) => {},
    }
    let schedule_task = match linked {
        None => None,
        Some(l) => Some(ScheduleTask { status: st, ..l }),
    };
    Ok(SiteTaskStatusUpdate { task: SiteTask { status: st, ..t }, schedule_task })
}

/// A request for a daily site log; the date is a day number.
pub struct CreateDailyLogRequest {
    pub log_date: i32,
    pub notes: String,
}

/// A daily site log entry.
#[derive(Clone, Copy, Debug, PartialEq, Eq, Structural)]
pub struct DailyLog {
    pub id: u128,
    pub project_id: u128,
    pub log_date: i32,
}

/// Records a daily log (id `id`): the notes must not be blank.
pub fn create_daily_log(
    req: &CreateDailyLogRequest,
    project: Option<Project>,
    enabled_workstreams: &Vec<WorkstreamType>,
    assignments: &Vec<RoleAssignment>,
    user_id: u128,
    id: u128,
) -> (r: Result<DailyLog, ApiError>)
    ensures
        r == (if blank(req.notes@) {
            Err(ApiError::BadRequest(BadRequest::NotesRequired))
        } else {
            match project_workstream_access(project, assignments@, user_id, Some(Role::Delivery), enabled_workstreams@, WorkstreamType::SiteExecution) {
                Err(e) => Err(e),
                Ok(p) => Ok(DailyLog { id, project_id: p.id, log_date: req.log_date }),
            }
        }),
{
    if is_blank(req.notes.as_str()) {
        return Err(ApiError::BadRequest(BadRequest::NotesRequired));
    }
    match authorize_project_workstream(project, assignments, user_id, Some(Role::Delivery), enabled_workstreams, WorkstreamType::SiteExecution) {
        Err(e) => Err(e),
        Ok(p) => Ok(DailyLog { id, project_id: p.id, log_date: req.log_date }),
    }
}

/// Whether a punch list item is still open.
#[derive(Clone, Copy, Debug, PartialEq, Eq, Structural)]
pub enum PunchStatus {
    Open,
    Closed,
}

/// A punch list item.
#[derive(Clone, Copy, Debug, PartialEq, Eq, Structural)]
pub struct PunchListItem {
    pub id: u128,
    pub project_id: u128,
    pub status: PunchStatus,
}

/// A request for a punch list item.
pub struct CreatePunchListItemRequest {
    pub description: String,
}

/// Raises a punch list item (id `id`), open: the description must not be
/// blank.
pub fn create_punch_list_item(
    req: &CreatePunchListItemRequest,
    project: Option<Project>,
    enabled_workstreams: &Vec<WorkstreamType>,
    assignments: &Vec<RoleAssignment>,
    user_id: u128,
    id: u128,
) -> (r: Result<PunchListItem, ApiError>)
    ensures
        r == (if blank(req.description@) {
            Err(ApiError::BadRequest(BadRequest::DescriptionRequired))
        } else {
            match project_workstream_access(project, assignments@, user_id, Some(Role::Delivery), enabled_workstreams@, WorkstreamType::SiteExecution) {
                Err(e) => Err(e),
                Ok(p) => Ok(PunchListItem { id, project_id: p.id, status: PunchStatus::Open }),
            }
        }),
{
    if is_blank(req.description.as_str()) {
        return Err(ApiError::BadRequest(BadRequest::DescriptionRequired));
    }
    match authorize_project_workstream(project, assignments, user_id, Some(Role::Delivery), enabled_workstreams, WorkstreamType::SiteExecution) {
        Err(e) => Err(e),
        Ok(p) => Ok(PunchListItem { id, project_id: p.id, status: PunchStatus::Open }),
    }
}

/// Closes a punch list item (`None`: not found; `project` is its project);
/// a closed item cannot be closed again.
pub fn close_punch_list_item(
    item: Option<PunchListItem>,
    project: Option<Project>,
    assignments: &Vec<RoleAssignment>,
    user_id: u128,
) -> (r: Result<PunchListItem, ApiError>)
    ensures
        r == (match item {
            None => Err(ApiError::NotFound),
            Some(i) => match project_access(project, assignments@, user_id, Some(Role::Delivery)) {
                Err(e) => Err(e),
                Ok(_) => if i.status == PunchStatus::Closed {
                    Err(ApiError::BadRequest(BadRequest::AlreadyClosed))
                } else {
                    Ok(PunchListItem { status: PunchStatus::Closed, ..i })
                },
            },
        }),
{
    let i = match item {
        None => return Err(ApiError::NotFound),
        Some(i) => i,
    };
    match authorize_project(project, assignments, user_id, Some(Role::Delivery)) {
        Err(e) => return Err(e),
        Ok(_) => {},
    }
    if i.status == PunchStatus::Closed {
        return Err(ApiError::BadRequest(BadRequest::AlreadyClosed));
    }
    Ok(PunchListItem { status: PunchStatus::Closed, ..i })
}

/// Whether a site query has been answered.
#[derive(Clone, Copy, Debug, PartialEq, Eq, Structural)]
pub enum QueryStatus {
    Open,
    Answered,
}

/// A site query (request for information).
#[derive(Clone, Copy, Debug, PartialEq, Eq, Structural)]
pub struct SiteQuery {
    pub id: u128,
    pub project_id: u128,
    pub status: QueryStatus,
}

/// A request for a site query.
pub struct CreateSiteQueryRequest {
    pub subject: String,
    pub question: String,
}

/// Raises a site query (id `id`), open: subject and question must both be
/// non-blank.
pub fn create_site_query(
    req: &CreateSiteQueryRequest,
    project: Option<Project>,
    enabled_workstreams: &Vec<WorkstreamType>,
    assignments: &Vec<RoleAssignment>,
    user_id: u128,
    id: u128,
) -> (r: Result<SiteQuery, ApiError>)
    ensures
        r == (if blank(req.subject@) || blank(req.question@) {
            Err(ApiError::BadRequest(BadRequest::SubjectAndQuestionRequired))
        } else {
            match project_workstream_access(project, assignments@, user_id, Some(Role::Delivery), enabled_workstreams@, WorkstreamType::SiteExecution) {
                Err(e) => Err(e),
                Ok(p) => Ok(SiteQuery { id, project_id: p.id, status: QueryStatus::Open }),
            }
        }),
{
    if is_blank(req.subject.as_str()) || is_blank(req.question.as_str()) {
        return Err(ApiError::BadRequest(BadRequest::SubjectAndQuestionRequired));
    }
    match authorize_project_workstream(project, assignments, user_id, Some(Role::Delivery), enabled_workstreams, WorkstreamType::SiteExecution) {
        Err(e) => Err(e),
        Ok(p) => Ok(SiteQuery { id, project_id: p.id, status: QueryStatus::Open }),
    }
}

/// An answer to a site query.
pub struct AnswerSiteQueryRequest {
    pub answer: String,
}

/// Answers a site query: the answer must not be blank (checked first), the
/// query must exist (`project` is its project) and not be answered yet.
pub fn answer_site_query(
    req: &AnswerSiteQueryRequest,
    query: Option<SiteQuery>,
    project: Option<Project>,
    assignments: &Vec<RoleAssignment>,
    user_id: u128,
) -> (r: Result<SiteQuery, ApiError>)
    ensures
        r == (if blank(req.answer@) {
            Err(ApiError::BadRequest(BadRequest::AnswerRequired))
        } else {
            match query {
                None => Err(ApiError::NotFound),
                Some(q) => match project_access(project, assignments@, user_id, Some(Role::Delivery)) {
                    Err(e) => Err(e),
                    Ok(_) => if q.status == QueryStatus::Answered {
                        Err(ApiError::BadRequest(BadRequest::AlreadyAnswered))
                    } else {
                        Ok(SiteQuery { status: QueryStatus::Answered, ..q })
                    },
                },
            }
        }),
{
    if is_blank(req.answer.as_str()) {
        return Err(ApiError::BadRequest(BadRequest::AnswerRequired));
    }
    let q = match query {
        None => return Err(ApiError::NotFound),
        Some(q) => q,
    };
    match authorize_project(project, assignments, user_id, Some(Role::Delivery)) {
        Err(e) => return Err(e),
        Ok(_) => {},
    }
    if q.status == QueryStatus::Answered {
        return Err(ApiError::BadRequest(BadRequest::AlreadyAnswered));
    }
    Ok(SiteQuery { status: QueryStatus::Answered, ..q })
}

} // verus!
