//! Sales leads and their conversion into projects.
use vstd::prelude::*;
use crate::authz::{holds_role, require_business_unit_role, RoleAssignment};
use crate::error::{ApiError, BadRequest};
use crate::project::{spec_parse_billing_method, parse_billing_method, BillingMethod, Project, WorkstreamStatus};
use crate::schedule::{Role, WorkstreamType};
use crate::text::{blank, is_blank, str_is};

verus! {

/// Where a lead stands.
#[derive(Clone, Copy, Debug, PartialEq, Eq, Structural)]
pub enum LeadStatus {
    New,
    Qualified,
    Converted,
    Lost,
}

/// The status a stored name denotes.
pub open spec fn spec_parse_lead_status(s: Seq<char>) -> Option<LeadStatus> {
    if s == "new"@ {
        Some(LeadStatus::New)
    } else if s == "qualified"@ {
        Some(LeadStatus::Qualified)
    } else if s == "converted"@ {
        Some(LeadStatus::Converted)
    } else if s == "lost"@ {
        Some(LeadStatus::Lost)
    } else {
        None
    }
}

impl LeadStatus {
    /// Reads a stored status name.
    pub fn parse(s: &str) -> (r: Option<LeadStatus>)
        ensures
            r == spec_parse_lead_status(s@),
    {
        if str_is(s, "new") {
            Some(LeadStatus::New)
        } else if str_is(s, "qualified") {
            Some(LeadStatus::Qualified)
        } else if str_is(s, "converted") {
            Some(LeadStatus::Converted)
        } else if str_is(s, "lost") {
            Some(LeadStatus::Lost)
        } else {
            None
        }
    }
}

/// The fields of a lead that the rules read.
#[derive(Clone, Copy, Debug, PartialEq, Eq, Structural)]
pub struct Lead {
    pub id: u128,
    pub business_unit_id: u128,
    pub client_id: u128,
    pub status: LeadStatus,
    pub converted_project_id: Option<u128>,
}

/// A request to record a lead.
pub struct CreateLeadRequest {
    pub business_unit_id: u128,
    pub client_id: u128,
    pub title: String,
}

/// Records a lead with the given fresh id: the title must not be blank and
/// the caller must hold the sales-and-design role in the business unit. A
/// new lead is unconverted.
pub fn create_lead(req: &CreateLeadRequest, assignments: &Vec<RoleAssignment>, user_id: u128, id: u128) -> (r: Result<
    Lead,
    ApiError,
>)
    ensures
        r == (if blank(req.title@) {
            Err(ApiError::BadRequest(BadRequest::TitleRequired))
        } else if !holds_role(assignments@, user_id, req.business_unit_id, Some(Role::SalesDesign)) {
            Err(ApiError::Forbidden)
        } else {
            Ok(
                Lead {
                    id,
                    business_unit_id: req.business_unit_id,
                    client_id: req.client_id,
                    status: LeadStatus::New,
                    converted_project_id: None,
                },
            )
        }),
{
    if is_blank(req.title.as_str()) {
        return Err(ApiError::BadRequest(BadRequest::TitleRequired));
    }
    match require_business_unit_role(assignments, user_id, req.business_unit_id, Some(Role::SalesDesign)) {
        Err(e) => Err(e),
        Ok(()) => Ok(
            Lead {
                id,
                business_unit_id: req.business_unit_id,
                client_id: req.client_id,
                status: LeadStatus::New,
                converted_project_id: None,
            },
        ),
    }
}

/// A request to convert a lead into a project.
pub struct ConvertLeadRequest {
    pub project_name: String,
    pub workstreams: Vec<WorkstreamType>,
    /// `"milestone"` or `"progressive"`.
    pub billing_method: String,
}

/// The project a conversion creates, with its name, its enabled
/// workstreams and the status each of them starts with.
pub struct ConvertedProjectResponse {
    pub project: Project,
    pub name: String,
    pub workstreams: Vec<WorkstreamType>,
    pub workstream_status: WorkstreamStatus,
}

/// A conversion's outcome: the new project and the lead, now converted.
pub struct Conversion {
    pub project: ConvertedProjectResponse,
    pub lead: Lead,
}

/// What a conversion decides: the billing method of the new project, or
/// why the request is refused, in the order the checks are made.
pub open spec fn conversion_outcome(
    req: ConvertLeadRequest,
    lead: Option<Lead>,
    assignments: Seq<RoleAssignment>,
    user_id: u128,
) -> Result<BillingMethod, ApiError> {
    if blank(req.project_name@) {
        Err(ApiError::BadRequest(BadRequest::ProjectNameRequired))
    } else if req.workstreams@.len() == 0 {
        Err(ApiError::BadRequest(BadRequest::AtLeastOneWorkstream))
    } else if spec_parse_billing_method(req.billing_method@) is None {
        Err(ApiError::BadRequest(BadRequest::InvalidBillingMethod))
    } else {
        match lead {
            None => Err(ApiError::NotFound),
            Some(l) => if l.status == LeadStatus::Converted {
                Err(ApiError::BadRequest(BadRequest::LeadAlreadyConverted))
            } else if !holds_role(assignments, user_id, l.business_unit_id, Some(Role::SalesDesign)) {
                Err(ApiError::Forbidden)
            } else {
                Ok(spec_parse_billing_method(req.billing_method@).unwrap())
            },
        }
    }
}

/// Converts a lead (`None`: not found) into a project with the given fresh
/// id, in the lead's business unit and for the lead's client; the lead is
/// marked converted and points at the project. Refused as
/// `conversion_outcome` says.
pub fn convert_lead(
    req: &ConvertLeadRequest,
    lead: Option<Lead>,
    assignments: &Vec<RoleAssignment>,
    user_id: u128,
    project_id: u128,
) -> (r: Result<Conversion, ApiError>)
    ensures
        match conversion_outcome(*req, lead, assignments@, user_id) {
            Err(e) => r matches Err(e2) && e2 == e,
            Ok(m) => r matches Ok(c) && c.project.project == (Project {
                id: project_id,
                business_unit_id: lead.unwrap().business_unit_id,
                client_id: lead.unwrap().client_id,
                billing_method: m,
            }) && c.project.name@ == req.project_name@ && c.project.workstreams@ == req.workstreams@
                && c.project.workstream_status == WorkstreamStatus::NotStarted && c.lead == (Lead {
                status: LeadStatus::Converted,
                converted_project_id: Some(project_id),
                ..lead.unwrap()
            }),
        },
{
    if is_blank(req.project_name.as_str()) {
        return Err(ApiError::BadRequest(BadRequest::ProjectNameRequired));
    }
    if req.workstreams.len() == 0 {
        return Err(ApiError::BadRequest(BadRequest::AtLeastOneWorkstream));
    }
    let billing_method = match parse_billing_method(req.billing_method.as_str()) {
        None => return Err(ApiError::BadRequest(BadRequest::InvalidBillingMethod)),
        Some(m) => m,
    };
    let l = match lead {
        None => return Err(ApiError::NotFound),
        Some(l) => l,
    };
    if l.status == LeadStatus::Converted {
        return Err(ApiError::BadRequest(BadRequest::LeadAlreadyConverted));
    }
    match require_business_unit_role(assignments, user_id, l.business_unit_id, Some(Role::SalesDesign)) {
        Err(e) => return Err(e),
        Ok(()) => {},
    }
    let project = Project {
        id: project_id,
        business_unit_id: l.business_unit_id,
        client_id: l.client_id,
        billing_method,
    };
    Ok(
        Conversion {
            project: ConvertedProjectResponse {
                project,
                name: req.project_name.clone(),
                workstreams: req.workstreams.clone(),
                workstream_status: WorkstreamStatus::NotStarted,
            },
            lead: Lead { status: LeadStatus::Converted, converted_project_id: Some(project_id), ..l },
        },
    )
}

/// Law: a lead is converted at most once: once converted, a further
/// (otherwise valid) conversion request is refused.
pub proof fn lemma_convert_once(
    req: ConvertLeadRequest,
    lead: Lead,
    assignments: Seq<RoleAssignment>,
    user_id: u128,
    project_id: u128,
)
    requires
        !blank(req.project_name@),
        req.workstreams@.len() > 0,
        spec_parse_billing_method(req.billing_method@) is Some,
    ensures
        conversion_outcome(
            req,
            Some(Lead { status: LeadStatus::Converted, converted_project_id: Some(project_id), ..lead }),
            assignments,
            user_id,
        ) == Err::<BillingMethod, ApiError>(ApiError::BadRequest(BadRequest::LeadAlreadyConverted)),
{
}

} // verus!
