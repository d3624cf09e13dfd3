//! A tenant's organisation: business units, role assignments, clients and
//! client portal users.
use vstd::prelude::*;
use crate::auth::password_long_enough;
use crate::authz::{holds_any_role, require_any_business_unit_role, RoleAssignment};
use crate::error::{ApiError, BadRequest};
use crate::schedule::Role;
use crate::text::{blank, is_blank, str_is};

verus! {

/// A request for a business unit.
pub struct CreateBusinessUnitRequest {
    pub name: String,
}

/// A business unit (a branch with its own team).
#[derive(Clone, Copy, Debug, PartialEq, Eq, Structural)]
pub struct BusinessUnit {
    pub id: u128,
}

/// Creates a business unit (id `id`): the name must not be blank.
pub fn create_business_unit(req: &CreateBusinessUnitRequest, id: u128) -> (r: Result<BusinessUnit, ApiError>)
    ensures
        r == (if blank(req.name@) {
            Err(ApiError::BadRequest(BadRequest::NameRequired))
        } else {
            Ok(BusinessUnit { id })
        }),
{
    if is_blank(req.name.as_str()) {
        Err(ApiError::BadRequest(BadRequest::NameRequired))
    } else {
        Ok(BusinessUnit { id })
    }
}

/// The role a name denotes: `"sales_design"`, `"delivery"` or `"finance"`.
pub open spec fn spec_parse_role(s: Seq<char>) -> Option<Role> {
    if s == "sales_design"@ {
        Some(Role::SalesDesign)
    } else if s == "delivery"@ {
        Some(Role::Delivery)
    } else if s == "finance"@ {
        Some(Role::Finance)
    } else {
        None
    }
}

/// Reads a role name.
pub fn parse_role(s: &str) -> (r: Option<Role>)
    ensures
        r == spec_parse_role(s@),
{
    if str_is(s, "sales_design") {
        Some(Role::SalesDesign)
    } else if str_is(s, "delivery") {
        Some(Role::Delivery)
    } else if str_is(s, "finance") {
        Some(Role::Finance)
    } else {
        None
    }
}

/// Law: each role name denotes its own role and no other: "sales_design"
/// the sales-and-design role, "delivery" the delivery role, "finance" the
/// finance role; any other text denotes no role.
pub proof fn lemma_role_names(s: Seq<char>)
    ensures
        (spec_parse_role(s) == Some(Role::SalesDesign)) <==> s == "sales_design"@,
        (spec_parse_role(s) == Some(Role::Delivery)) <==> s == "delivery"@,
        (spec_parse_role(s) == Some(Role::Finance)) <==> s == "finance"@,
        spec_parse_role(s) is None <==> (s != "sales_design"@ && s != "delivery"@ && s != "finance"@),
{
    reveal_strlit("sales_design");
    reveal_strlit("delivery");
    reveal_strlit("finance");
    assert("sales_design"@.len() == 12 && "delivery"@.len() == 8 && "finance"@.len() == 7);
}

/// A request to give a user a role in a business unit.
pub struct AssignRoleRequest {
    pub user_id: u128,
    pub role: String,
}

/// Gives a user a role in a business unit: the role must be a known one
/// (checked first), the business unit must exist (`NotFound`) and so must
/// the user.
pub fn assign_role(
    req: &AssignRoleRequest,
    business_unit_id: u128,
    business_unit_exists: bool,
    user_exists: bool,
) -> (r: Result<RoleAssignment, ApiError>)
    ensures
        r == (match spec_parse_role(req.role@) {
            None => Err(ApiError::BadRequest(BadRequest::InvalidRole)),
            Some(role) => if !business_unit_exists {
                Err(ApiError::NotFound)
            } else if !user_exists {
                Err(ApiError::BadRequest(BadRequest::UserNotFound))
            } else {
                Ok(RoleAssignment { user_id: req.user_id, business_unit_id, role })
            },
        }),
        r is Ok ==> {
            let a = r->Ok_0;
            &&& a.user_id == req.user_id
            &&& a.business_unit_id == business_unit_id
            &&& (a.role == Role::SalesDesign <==> req.role@ == "sales_design"@)
            &&& (a.role == Role::Delivery <==> req.role@ == "delivery"@)
            &&& (a.role == Role::Finance <==> req.role@ == "finance"@)
        },
{
    proof {
        lemma_role_names(req.role@);
    }
    let role = match parse_role(req.role.as_str()) {
        None => return Err(ApiError::BadRequest(BadRequest::InvalidRole)),
        Some(role) => role,
    };
    if !business_unit_exists {
        return Err(ApiError::NotFound);
    }
    if !user_exists {
        return Err(ApiError::BadRequest(BadRequest::UserNotFound));
    }
    Ok(RoleAssignment { user_id: req.user_id, business_unit_id, role })
}

/// A request for a client.
pub struct CreateClientRequest {
    pub name: String,
}

/// A client of the tenant.
#[derive(Clone, Copy, Debug, PartialEq, Eq, Structural)]
pub struct Client {
    pub id: u128,
}

/// Records a client (id `id`): the name must not be blank and the caller
/// must be a tenant admin or hold the sales-and-design role somewhere.
pub fn create_client(
    req: &CreateClientRequest,
    assignments: &Vec<RoleAssignment>,
    user_id: u128,
    is_tenant_admin: bool,
    id: u128,
) -> (r: Result<Client, ApiError>)
    ensures
        r == (if blank(req.name@) {
            Err(ApiError::BadRequest(BadRequest::NameRequired))
        } else if !(is_tenant_admin || holds_any_role(assignments@, user_id, Some(Role::SalesDesign))) {
            Err(ApiError::Forbidden)
        } else {
            Ok(Client { id })
        }),
{
    if is_blank(req.name.as_str()) {
        return Err(ApiError::BadRequest(BadRequest::NameRequired));
    }
    match require_any_business_unit_role(assignments, user_id, is_tenant_admin, Some(Role::SalesDesign)) {
        Err(e) => Err(e),
        Ok(()) => Ok(Client { id }),
    }
}

/// A request for a client portal account.
pub struct CreateClientUserRequest {
    pub email: String,
    pub password: String,
}

/// A client portal account.
#[derive(Clone, Copy, Debug, PartialEq, Eq, Structural)]
pub struct ClientUser {
    pub id: u128,
    pub client_id: u128,
}

/// Creates a client portal account (id `id`) for client `client_id`: the
/// email must not be blank and the password at least 8 bytes (both checked
/// first); the caller must be a tenant admin or hold the sales-and-design
/// role somewhere; the client must exist (`NotFound`).
pub fn create_client_user(
    req: &CreateClientUserRequest,
    assignments: &Vec<RoleAssignment>,
    user_id: u128,
    is_tenant_admin: bool,
    client_id: u128,
    client_exists: bool,
    id: u128,
) -> (r: Result<ClientUser, ApiError>)
    ensures
        r == (if blank(req.email@) {
            Err(ApiError::BadRequest(BadRequest::EmailRequired))
        } else if !password_long_enough(req.password@) {
            Err(ApiError::BadRequest(BadRequest::PasswordTooShort))
        } else if !(is_tenant_admin || holds_any_role(assignments@, user_id, Some(Role::SalesDesign))) {
            Err(ApiError::Forbidden)
        } else if !client_exists {
            Err(ApiError::NotFound)
        } else {
            Ok(ClientUser { id, client_id })
        }),
{
    if is_blank(req.email.as_str()) {
        return Err(ApiError::BadRequest(BadRequest::EmailRequired));
    }
    if req.password.as_str().as_bytes().len() < 8 {
        return Err(ApiError::BadRequest(BadRequest::PasswordTooShort));
    }
    match require_any_business_unit_role(assignments, user_id, is_tenant_admin, Some(Role::SalesDesign)) {
        Err(e) => return Err(e),
        Ok(()) => {},
    }
    if !client_exists {
        return Err(ApiError::NotFound);
    }
    Ok(ClientUser { id, client_id })
}

/// Listing the tenant's clients needs membership of some business unit (or
/// the tenant admin flag).
pub fn list_clients(assignments: &Vec<RoleAssignment>, user_id: u128, is_tenant_admin: bool) -> (r: Result<
    (),
    ApiError,
>)
    ensures
        r == (if is_tenant_admin || holds_any_role(assignments@, user_id, None) {
            Ok::<(), ApiError>(())
        } else {
            Err::<(), ApiError>(ApiError::Forbidden)
        }),
{
    require_any_business_unit_role(assignments, user_id, is_tenant_admin, None)
}

} // verus!
