//! Business-unit membership rules: who may act on which business unit's data.
use vstd::prelude::*;
use crate::error::{ApiError, BadRequest};
use crate::project::Project;
use crate::schedule::{Role, WorkstreamType};

verus! {

/// One role a user holds in one business unit.
#[derive(Clone, Copy, Debug, PartialEq, Eq, Structural)]
pub struct RoleAssignment {
    pub user_id: u128,
    pub business_unit_id: u128,
    pub role: Role,
}

/// The assignment matches the user, the business unit and, when one is
/// asked for, the role.
pub open spec fn grants(a: RoleAssignment, user_id: u128, business_unit_id: u128, role: Option<Role>) -> bool {
    &&& a.user_id == user_id
    &&& a.business_unit_id == business_unit_id
    &&& (role matches Some(r) ==> a.role == r)
}

/// `user_id` belongs to `business_unit_id`, with `role` when one is asked for.
pub open spec fn holds_role(
    assignments: Seq<RoleAssignment>,
    user_id: u128,
    business_unit_id: u128,
    role: Option<Role>,
) -> bool {
    exists|i: int| 0 <= i < assignments.len() && grants(#[trigger] assignments[i], user_id, business_unit_id, role)
}

/// Confirms that `user_id` belongs to `business_unit_id`, optionally with a
/// specific role; refuses with `Forbidden` otherwise.
pub fn require_business_unit_role(
    assignments: &Vec<RoleAssignment>,
    user_id: u128,
    business_unit_id: u128,
    required_role: Option<Role>,
) -> (r: Result<(), ApiError>)
    ensures
        r == (if holds_role(assignments@, user_id, business_unit_id, required_role) {
            Ok::<(), ApiError>(())
        } else {
            Err::<(), ApiError>(ApiError::Forbidden)
        }),
{
    let mut i: usize = 0;
    while i < assignments.len()
        invariant
            i <= assignments.len(),
            forall|j: int| 0 <= j < i ==> !grants(#[trigger] assignments@[j], user_id, business_unit_id, required_role),
        decreases assignments.len() - i,
    {
        let a = assignments[i];
        let role_ok = match required_role {
            Some(role) => a.role == role,
            None => true,
        };
        if a.user_id == user_id && a.business_unit_id == business_unit_id && role_ok {
            proof {
                assert(grants(assignments@[i as int], user_id, business_unit_id, required_role));
            }
            return Ok(());
        }
        i = i + 1;
    }
    Err(ApiError::Forbidden)
}

/// Confirms membership in the business unit of a project: `NotFound` when
/// the project does not exist (`project_business_unit` is `None`), then as
/// `require_business_unit_role`.
pub fn require_project_business_unit_role(
    assignments: &Vec<RoleAssignment>,
    user_id: u128,
    project_business_unit: Option<u128>,
    required_role: Option<Role>,
) -> (r: Result<(), ApiError>)
    ensures
        r == (match project_business_unit {
            None => Err::<(), ApiError>(ApiError::NotFound),
            Some(bu) => if holds_role(assignments@, user_id, bu, required_role) {
                Ok::<(), ApiError>(())
            } else {
                Err::<(), ApiError>(ApiError::Forbidden)
            },
        }),
{
    match project_business_unit {
        None => Err(ApiError::NotFound),
        Some(bu) => require_business_unit_role(assignments, user_id, bu, required_role),
    }
}

/// `user_id` holds the role (when asked for) in some business unit.
pub open spec fn holds_any_role(assignments: Seq<RoleAssignment>, user_id: u128, role: Option<Role>) -> bool {
    exists|i: int|
        0 <= i < assignments.len() && (#[trigger] assignments[i]).user_id == user_id && (role matches Some(r)
            ==> assignments[i].role == r)
}

/// Confirms that the caller is a tenant admin or holds the role (or any
/// role, when none is asked for) in at least one business unit; refuses with
/// `Forbidden` otherwise. Tenant-wide records (clients, vendors) are managed
/// this way.
pub fn require_any_business_unit_role(
    assignments: &Vec<RoleAssignment>,
    user_id: u128,
    is_tenant_admin: bool,
    required_role: Option<Role>,
) -> (r: Result<(), ApiError>)
    ensures
        r == (if is_tenant_admin || holds_any_role(assignments@, user_id, required_role) {
            Ok::<(), ApiError>(())
        } else {
            Err::<(), ApiError>(ApiError::Forbidden)
        }),
{
    if is_tenant_admin {
        return Ok(());
    }
    let mut i: usize = 0;
    while i < assignments.len()
        invariant
            i <= assignments.len(),
            forall|j: int|
                0 <= j < i ==> !((#[trigger] assignments@[j]).user_id == user_id && (required_role matches Some(r)
                    ==> assignments@[j].role == r)),
        decreases assignments.len() - i,
    {
        let a = assignments[i];
        let role_ok = match required_role {
            Some(role) => a.role == role,
            None => true,
        };
        if a.user_id == user_id && role_ok {
            return Ok(());
        }
        i = i + 1;
    }
    Err(ApiError::Forbidden)
}

/// Confirms that the caller is a tenant admin; refuses with `Forbidden`
/// otherwise.
pub fn require_tenant_admin(is_tenant_admin: bool) -> (r: Result<(), ApiError>)
    ensures
        r == (if is_tenant_admin {
            Ok::<(), ApiError>(())
        } else {
            Err::<(), ApiError>(ApiError::Forbidden)
        }),
{
    if is_tenant_admin {
        Ok(())
    } else {
        Err(ApiError::Forbidden)
    }
}

/// The business units `user_id` belongs to (with `required_role`, when one
/// is asked for), one entry per matching assignment, in assignment order.
pub fn accessible_business_units(
    assignments: &Vec<RoleAssignment>,
    user_id: u128,
    required_role: Option<Role>,
) -> (r: Vec<u128>)
    ensures
        r@ == assignments@.filter(
            |a: RoleAssignment| a.user_id == user_id && (required_role matches Some(role) ==> a.role == role),
        ).map_values(|a: RoleAssignment| a.business_unit_id),
{
    let ghost pred = |a: RoleAssignment| a.user_id == user_id && (required_role matches Some(role) ==> a.role == role);
    let mut out: Vec<u128> = Vec::new();
    let mut i: usize = 0;
    proof {
        reveal(Seq::filter);
        assert(assignments@.take(0).filter(pred) =~= Seq::<RoleAssignment>::empty());
    }
    while i < assignments.len()
        invariant
            i <= assignments.len(),
            pred == (|a: RoleAssignment| a.user_id == user_id && (required_role matches Some(role) ==> a.role == role)),
            out@ == assignments@.take(i as int).filter(pred).map_values(|a: RoleAssignment| a.business_unit_id),
        decreases assignments.len() - i,
    {
        let a = assignments[i];
        proof {
            reveal(Seq::filter);
            assert(assignments@.take(i + 1).drop_last() =~= assignments@.take(i as int));
            assert(assignments@.take(i + 1).last() == a);
        }
        let role_ok = match required_role {
            Some(role) => a.role == role,
            None => true,
        };
        if a.user_id == user_id && role_ok {
            let ghost before = out@;
            out.push(a.business_unit_id);
            proof {
                let f = assignments@.take(i + 1).filter(pred);
                assert(f == assignments@.take(i as int).filter(pred).push(a));
                assert(out@ =~= f.map_values(|a: RoleAssignment| a.business_unit_id));
            }
        } else {
            proof {
                assert(assignments@.take(i + 1).filter(pred) == assignments@.take(i as int).filter(pred));
            }
        }
        i = i + 1;
    }
    proof {
        assert(assignments@.take(assignments@.len() as int) =~= assignments@);
    }
    out
}

/// The project, once the caller is allowed to act on it: `NotFound` when it
/// does not exist, `Forbidden` unless the caller belongs to its business
/// unit (with `required_role`, when one is asked for).
pub open spec fn project_access(
    project: Option<Project>,
    assignments: Seq<RoleAssignment>,
    user_id: u128,
    required_role: Option<Role>,
) -> Result<Project, ApiError> {
    match project {
        None => Err(ApiError::NotFound),
        Some(p) => if holds_role(assignments, user_id, p.business_unit_id, required_role) {
            Ok(p)
        } else {
            Err(ApiError::Forbidden)
        },
    }
}

/// Checks the caller's access to a project; see `project_access`.
pub fn authorize_project(
    project: Option<Project>,
    assignments: &Vec<RoleAssignment>,
    user_id: u128,
    required_role: Option<Role>,
) -> (r: Result<Project, ApiError>)
    ensures
        r == project_access(project, assignments@, user_id, required_role),
{
    match project {
        None => Err(ApiError::NotFound),
        Some(p) => match require_business_unit_role(assignments, user_id, p.business_unit_id, required_role) {
            Ok(()) => Ok(p),
            Err(e) => Err(e),
        },
    }
}

/// The workstream is enabled on the project: refused with
/// `WorkstreamNotEnabled` otherwise. `enabled` are the project's enabled
/// workstreams.
pub fn require_project_workstream(enabled: &Vec<WorkstreamType>, workstream: WorkstreamType) -> (r: Result<
    (),
    ApiError,
>)
    ensures
        r == (if enabled@.contains(workstream) {
            Ok::<(), ApiError>(())
        } else {
            Err::<(), ApiError>(ApiError::BadRequest(BadRequest::WorkstreamNotEnabled))
        }),
{
    let mut i: usize = 0;
    while i < enabled.len()
        invariant
            i <= enabled@.len(),
            forall|j: int| 0 <= j < i ==> enabled@[j] != workstream,
        decreases enabled@.len() - i,
    {
        if enabled[i] == workstream {
            proof {
                assert(enabled@[i as int] == workstream);
            }
            return Ok(());
        }
        i = i + 1;
    }
    Err(ApiError::BadRequest(BadRequest::WorkstreamNotEnabled))
}

/// The project, once the caller may act on it (see `project_access`) and the
/// workstream is enabled on it (`enabled` are its enabled workstreams):
/// `WorkstreamNotEnabled` otherwise.
pub open spec fn project_workstream_access(
    project: Option<Project>,
    assignments: Seq<RoleAssignment>,
    user_id: u128,
    required_role: Option<Role>,
    enabled: Seq<WorkstreamType>,
    workstream: WorkstreamType,
) -> Result<Project, ApiError> {
    match project_access(project, assignments, user_id, required_role) {
        Err(e) => Err(e),
        Ok(p) => if enabled.contains(workstream) {
            Ok(p)
        } else {
            Err(ApiError::BadRequest(BadRequest::WorkstreamNotEnabled))
        },
    }
}

/// Checks the caller's access to a project and that the workstream is
/// enabled on it; see `project_workstream_access`.
pub fn authorize_project_workstream(
    project: Option<Project>,
    assignments: &Vec<RoleAssignment>,
    user_id: u128,
    required_role: Option<Role>,
    enabled: &Vec<WorkstreamType>,
    workstream: WorkstreamType,
) -> (r: Result<Project, ApiError>)
    ensures
        r == project_workstream_access(project, assignments@, user_id, required_role, enabled@, workstream),
{
    match authorize_project(project, assignments, user_id, required_role) {
        Err(e) => Err(e),
        Ok(p) => match require_project_workstream(enabled, workstream) {
            Err(e) => Err(e),
            Ok(()) => Ok(p),
        },
    }
}

} // verus!
