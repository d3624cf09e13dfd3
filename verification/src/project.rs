//! Projects: the unit of delivery, owned by one business unit and one client.
use vstd::prelude::*;
use crate::authz::{holds_role, require_business_unit_role, RoleAssignment};
use crate::error::{ApiError, BadRequest};
use crate::schedule::WorkstreamType;
use crate::text::{blank, is_blank, str_is};

verus! {

/// How a project's invoices are raised.
#[derive(Clone, Copy, Debug, PartialEq, Eq, Structural)]
pub enum BillingMethod {
    /// One invoice per completed milestone.
    Milestone,
    /// Running-account bills against a cumulative certified value.
    Progressive,
}

/// The billing method a request names: `"milestone"` or `"progressive"`.
pub open spec fn spec_parse_billing_method(s: Seq<char>) -> Option<BillingMethod> {
    if s == "milestone"@ {
        Some(BillingMethod::Milestone)
    } else if s == "progressive"@ {
        Some(BillingMethod::Progressive)
    } else {
        None
    }
}

/// Parses a billing method name.
pub fn parse_billing_method(s: &str) -> (r: Option<BillingMethod>)
    ensures
        r == spec_parse_billing_method(s@),
{
    if str_is(s, "milestone") {
        Some(BillingMethod::Milestone)
    } else if str_is(s, "progressive") {
        Some(BillingMethod::Progressive)
    } else {
        None
    }
}

/// The billing method a request gets when it names none.
pub fn default_billing_method() -> (r: String)
    ensures
        r@ == "milestone"@,
{
    String::from_str("milestone")
}

/// The fields of a project that access and billing rules read.
#[derive(Clone, Copy, Debug, PartialEq, Eq, Structural)]
pub struct Project {
    pub id: u128,
    pub business_unit_id: u128,
    pub client_id: u128,
    pub billing_method: BillingMethod,
}

/// A project creation request.
pub struct CreateProjectRequest {
    pub name: String,
    pub business_unit_id: u128,
    pub client_id: u128,
    pub workstreams: Vec<WorkstreamType>,
    pub billing_method: String,
}

impl CreateProjectRequest {
    /// What `validate` decides.
    pub open spec fn validate_spec(&self) -> Result<BillingMethod, ApiError> {
        if blank(self.name@) {
            Err(ApiError::BadRequest(BadRequest::NameRequired))
        } else if self.workstreams@.len() == 0 {
            Err(ApiError::BadRequest(BadRequest::AtLeastOneWorkstream))
        } else {
            match spec_parse_billing_method(self.billing_method@) {
                Some(m) => Ok(m),
                None => Err(ApiError::BadRequest(BadRequest::InvalidBillingMethod)),
            }
        }
    }

    /// Checks the request: a name, at least one workstream, and a known
    /// billing method; returns the billing method.
    pub fn validate(&self) -> (r: Result<BillingMethod, ApiError>)
        ensures
            r == (if blank(self.name@) {
                Err(ApiError::BadRequest(BadRequest::NameRequired))
            } else if self.workstreams@.len() == 0 {
                Err(ApiError::BadRequest(BadRequest::AtLeastOneWorkstream))
            } else {
                match spec_parse_billing_method(self.billing_method@) {
                    Some(m) => Ok(m),
                    None => Err(ApiError::BadRequest(BadRequest::InvalidBillingMethod)),
                }
            }),
    {
        if is_blank(self.name.as_str()) {
            return Err(ApiError::BadRequest(BadRequest::NameRequired));
        }
        if self.workstreams.len() == 0 {
            return Err(ApiError::BadRequest(BadRequest::AtLeastOneWorkstream));
        }
        match parse_billing_method(self.billing_method.as_str()) {
            Some(m) => Ok(m),
            None => Err(ApiError::BadRequest(BadRequest::InvalidBillingMethod)),
        }
    }
}

/// Progress of a project's workstream. A workstream is enabled not started;
/// no other status is ever set.
#[derive(Clone, Copy, Debug, PartialEq, Eq, Structural)]
pub enum WorkstreamStatus {
    NotStarted,
}

/// A project as returned to callers: the record, its name, its enabled
/// workstreams, and the status each of them starts with.
pub struct ProjectResponse {
    pub project: Project,
    pub name: String,
    pub workstreams: Vec<WorkstreamType>,
    pub workstream_status: WorkstreamStatus,
}

/// Creates a project with the given fresh id from a valid request (see
/// `CreateProjectRequest::validate`), in the requested business unit, for
/// the requested client.
pub fn create_project(req: &CreateProjectRequest, project_id: u128) -> (r: Result<ProjectResponse, ApiError>)
    ensures
        match req.validate_spec() {
            Err(e) => r matches Err(e2) && e2 == e,
            Ok(m) => r matches Ok(resp) && resp.project == (Project {
                id: project_id,
                business_unit_id: req.business_unit_id,
                client_id: req.client_id,
                billing_method: m,
            }) && resp.name@ == req.name@ && resp.workstreams@ == req.workstreams@
                && resp.workstream_status == WorkstreamStatus::NotStarted,
        },
{
    match req.validate() {
        Err(e) => Err(e),
        Ok(m) => Ok(
            ProjectResponse {
                project: Project {
                    id: project_id,
                    business_unit_id: req.business_unit_id,
                    client_id: req.client_id,
                    billing_method: m,
                },
                name: req.name.clone(),
                workstreams: req.workstreams.clone(),
                workstream_status: WorkstreamStatus::NotStarted,
            },
        ),
    }
}

/// Reads a project for a caller: `NotFound` when it does not exist,
/// `Forbidden` unless the caller belongs to its business unit.
pub fn get_project(project: Option<Project>, assignments: &Vec<RoleAssignment>, user_id: u128) -> (r: Result<
    Project,
    ApiError,
>)
    ensures
        r == (match project {
            None => Err(ApiError::NotFound),
            Some(p) => if holds_role(assignments@, user_id, p.business_unit_id, None) {
                Ok(p)
            } else {
                Err(ApiError::Forbidden)
            },
        }),
{
    match project {
        None => Err(ApiError::NotFound),
        Some(p) => match require_business_unit_role(assignments, user_id, p.business_unit_id, None) {
            Ok(()) => Ok(p),
            Err(e) => Err(e),
        },
    }
}

/// The projects a caller sees: those of the business units the caller
/// belongs to, in order.
pub fn list_projects(projects: &Vec<Project>, assignments: &Vec<RoleAssignment>, user_id: u128) -> (r: Vec<Project>)
    ensures
        r@ == projects@.filter(|p: Project| holds_role(assignments@, user_id, p.business_unit_id, None)),
{
    let ghost pred = |p: Project| holds_role(assignments@, user_id, p.business_unit_id, None);
    let mut out: Vec<Project> = Vec::new();
    let mut i: usize = 0;
    proof {
        reveal(Seq::filter);
        assert(projects@.take(0).filter(pred) =~= Seq::<Project>::empty());
    }
    while i < projects.len()
        invariant
            i <= projects@.len(),
            pred == (|p: Project| holds_role(assignments@, user_id, p.business_unit_id, None)),
            out@ == projects@.take(i as int).filter(pred),
        decreases projects@.len() - i,
    {
        let p = projects[i];
        proof {
            reveal(Seq::filter);
            assert(projects@.take(i + 1).drop_last() =~= projects@.take(i as int));
            assert(projects@.take(i + 1).last() == p);
        }
        if require_business_unit_role(assignments, user_id, p.business_unit_id, None).is_ok() {
            out.push(p);
        }
        i = i + 1;
    }
    proof {
        assert(projects@.take(projects@.len() as int) =~= projects@);
    }
    out
}

/// Law: a caller sees a project in the list exactly when reading it
/// directly is allowed.
pub proof fn lemma_list_matches_get(projects: Seq<Project>, assignments: Seq<RoleAssignment>, user_id: u128, p: Project)
    requires
        projects.contains(p),
    ensures
        projects.filter(|q: Project| holds_role(assignments, user_id, q.business_unit_id, None)).contains(p)
            <==> holds_role(assignments, user_id, p.business_unit_id, None),
{
    broadcast use vstd::seq_lib::group_filter_ensures;

    let pred = |q: Project| holds_role(assignments, user_id, q.business_unit_id, None);
    if pred(p) {
        let i = choose|i: int| 0 <= i < projects.len() && projects[i] == p;
        projects.lemma_filter_contains(pred, i);
    }
    if projects.filter(pred).contains(p) {
        let k = choose|k: int| 0 <= k < projects.filter(pred).len() && projects.filter(pred)[k] == p;
        projects.lemma_filter_pred(pred, k);
    }
}

} // verus!
