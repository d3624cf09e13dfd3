//! Tenant lifecycle under platform administration (pause, resume, delete)
//! and a tenant's own settings.
use vstd::prelude::*;
use crate::auth::TenantStatus;
use crate::authz::require_tenant_admin;
use crate::error::{ApiError, BadRequest};
use crate::text::str_is;

verus! {

/// The status a stored name denotes.
pub open spec fn spec_parse_tenant_status(s: Seq<char>) -> Option<TenantStatus> {
    if s == "active"@ {
        Some(TenantStatus::Active)
    } else if s == "paused"@ {
        Some(TenantStatus::Paused)
    } else if s == "deleted"@ {
        Some(TenantStatus::Deleted)
    } else {
        None
    }
}

/// Reads a stored tenant status.
pub fn parse_tenant_status(s: &str) -> (r: Option<TenantStatus>)
    ensures
        r == spec_parse_tenant_status(s@),
{
    if str_is(s, "active") {
        Some(TenantStatus::Active)
    } else if str_is(s, "paused") {
        Some(TenantStatus::Paused)
    } else if str_is(s, "deleted") {
        Some(TenantStatus::Deleted)
    } else {
        None
    }
}

/// A tenant's lifecycle fields; instants are microseconds since the Unix
/// epoch.
#[derive(Clone, Copy, Debug, PartialEq, Eq, Structural)]
pub struct TenantLifecycle {
    pub id: u128,
    pub status: TenantStatus,
    pub paused_at: Option<i64>,
    pub deleted_at: Option<i64>,
}

/// A platform administrator's action on a tenant.
#[derive(Clone, Copy, Debug, PartialEq, Eq, Structural)]
pub enum TenantAction {
    Pause,
    Resume,
    Delete,
}

/// The action may be taken from the status: pause an active tenant, resume
/// a paused one, delete an active or paused one.
pub open spec fn transition_allowed(action: TenantAction, from: TenantStatus) -> bool {
    match action {
        TenantAction::Pause => from == TenantStatus::Active,
        TenantAction::Resume => from == TenantStatus::Paused,
        TenantAction::Delete => from == TenantStatus::Active || from == TenantStatus::Paused,
    }
}

/// The tenant after the action at `now`: pausing records when, resuming
/// clears it, deleting records when.
pub open spec fn transitioned(t: TenantLifecycle, action: TenantAction, now: i64) -> TenantLifecycle {
    match action {
        TenantAction::Pause => TenantLifecycle { status: TenantStatus::Paused, paused_at: Some(now), ..t },
        TenantAction::Resume => TenantLifecycle { status: TenantStatus::Active, paused_at: None, ..t },
        TenantAction::Delete => TenantLifecycle { status: TenantStatus::Deleted, deleted_at: Some(now), ..t },
    }
}

/// Takes a platform action on a tenant (`None`: not found); refused when
/// the tenant's status does not allow it.
pub fn transition_tenant_status(tenant: Option<TenantLifecycle>, action: TenantAction, now: i64) -> (r: Result<
    TenantLifecycle,
    ApiError,
>)
    ensures
        r == (match tenant {
            None => Err(ApiError::NotFound),
            Some(t) => if transition_allowed(action, t.status) {
                Ok(transitioned(t, action, now))
            } else {
                Err(ApiError::BadRequest(BadRequest::TenantTransitionNotAllowed))
            },
        }),
{
    let t = match tenant {
        None => return Err(ApiError::NotFound),
        Some(t) => t,
    };
    let allowed = match action {
        TenantAction::Pause => t.status == TenantStatus::Active,
        TenantAction::Resume => t.status == TenantStatus::Paused,
        TenantAction::Delete => t.status == TenantStatus::Active || t.status == TenantStatus::Paused,
    };
    if !allowed {
        return Err(ApiError::BadRequest(BadRequest::TenantTransitionNotAllowed));
    }
    match action {
        TenantAction::Pause => Ok(TenantLifecycle { status: TenantStatus::Paused, paused_at: Some(now), ..t }),
        TenantAction::Resume => Ok(TenantLifecycle { status: TenantStatus::Active, paused_at: None, ..t }),
        TenantAction::Delete => Ok(TenantLifecycle { status: TenantStatus::Deleted, deleted_at: Some(now), ..t }),
    }
}

/// Pauses an active tenant.
pub fn pause_tenant(tenant: Option<TenantLifecycle>, now: i64) -> (r: Result<TenantLifecycle, ApiError>)
    ensures
        r == (match tenant {
            None => Err(ApiError::NotFound),
            Some(t) => if transition_allowed(TenantAction::Pause, t.status) {
                Ok(transitioned(t, TenantAction::Pause, now))
            } else {
                Err(ApiError::BadRequest(BadRequest::TenantTransitionNotAllowed))
            },
        }),
{
    transition_tenant_status(tenant, TenantAction::Pause, now)
}

/// Resumes a paused tenant.
pub fn resume_tenant(tenant: Option<TenantLifecycle>, now: i64) -> (r: Result<TenantLifecycle, ApiError>)
    ensures
        r == (match tenant {
            None => Err(ApiError::NotFound),
            Some(t) => if transition_allowed(TenantAction::Resume, t.status) {
                Ok(transitioned(t, TenantAction::Resume, now))
            } else {
                Err(ApiError::BadRequest(BadRequest::TenantTransitionNotAllowed))
            },
        }),
{
    transition_tenant_status(tenant, TenantAction::Resume, now)
}

/// Deletes an active or paused tenant.
pub fn delete_tenant(tenant: Option<TenantLifecycle>, now: i64) -> (r: Result<TenantLifecycle, ApiError>)
    ensures
        r == (match tenant {
            None => Err(ApiError::NotFound),
            Some(t) => if transition_allowed(TenantAction::Delete, t.status) {
                Ok(transitioned(t, TenantAction::Delete, now))
            } else {
                Err(ApiError::BadRequest(BadRequest::TenantTransitionNotAllowed))
            },
        }),
{
    transition_tenant_status(tenant, TenantAction::Delete, now)
}

/// Law: deletion is final: no action is allowed on a deleted tenant.
pub proof fn lemma_deleted_is_final(action: TenantAction)
    ensures
        !transition_allowed(action, TenantStatus::Deleted),
{
}

/// Law: pausing and then resuming an active tenant gives it back as it
/// was, except that its pause is recorded as cleared.
pub proof fn lemma_pause_resume_round_trip(t: TenantLifecycle, paused_at: i64, resumed_at: i64)
    requires
        t.status == TenantStatus::Active,
        t.paused_at is None,
    ensures
        transition_allowed(TenantAction::Pause, t.status),
        transition_allowed(TenantAction::Resume, transitioned(t, TenantAction::Pause, paused_at).status),
        transitioned(transitioned(t, TenantAction::Pause, paused_at), TenantAction::Resume, resumed_at) == t,
{
}

/// A tenant's settings: its regional billing profile and the display
/// labels of its workstreams (JSON text).
pub struct TenantSettings {
    pub region_profile: String,
    pub workstream_labels: String,
}

/// A change to a tenant's settings; absent fields stay as they are.
pub struct UpdateTenantSettingsRequest {
    pub region_profile: Option<String>,
    /// JSON text.
    pub workstream_labels: Option<String>,
}

/// Reads a tenant's settings: `NotFound` when the tenant is missing.
pub fn get_tenant_settings(settings: Option<TenantSettings>) -> (r: Result<TenantSettings, ApiError>)
    ensures
        match settings {
            None => r matches Err(e) && e == ApiError::NotFound,
            Some(s) => r matches Ok(x) && x.region_profile@ == s.region_profile@ && x.workstream_labels@
                == s.workstream_labels@,
        },
{
    match settings {
        None => Err(ApiError::NotFound),
        Some(s) => Ok(s),
    }
}

/// Updates a tenant's settings: only an admin may (checked first); the only
/// region profile is `"india"`; `NotFound` when the tenant is missing. Each
/// given field replaces the stored one.
pub fn update_tenant_settings(
    caller_is_admin: bool,
    req: &UpdateTenantSettingsRequest,
    current: Option<TenantSettings>,
) -> (r: Result<TenantSettings, ApiError>)
    ensures
        !caller_is_admin ==> (r matches Err(e) && e == ApiError::Forbidden),
        caller_is_admin && (req.region_profile matches Some(rp) && rp@ != "india"@) ==> (r matches Err(e) && e
            == ApiError::BadRequest(BadRequest::UnsupportedRegionProfile)),
        caller_is_admin && !(req.region_profile matches Some(rp) && rp@ != "india"@) ==> match current {
            None => r matches Err(e) && e == ApiError::NotFound,
            Some(c) => r matches Ok(x) && x.region_profile@ == (match req.region_profile {
                Some(rp) => rp@,
                None => c.region_profile@,
            }) && x.workstream_labels@ == (match req.workstream_labels {
                Some(l) => l@,
                None => c.workstream_labels@,
            }),
        },
{
    match require_tenant_admin(caller_is_admin) {
        Err(e) => return Err(e),
        Ok(()) => {},
    }
    match &req.region_profile {
        Some(rp) => {
            if !str_is(rp.as_str(), "india") {
                return Err(ApiError::BadRequest(BadRequest::UnsupportedRegionProfile));
            }
        },
        None => {},
    }
    let c = match current {
        None => return Err(ApiError::NotFound),
        Some(c) => c,
    };
    let region_profile = match &req.region_profile {
        Some(rp) => rp.clone(),
        None => c.region_profile,
    };
    let workstream_labels = match &req.workstream_labels {
        Some(l) => l.clone(),
        None => c.workstream_labels,
    };
    Ok(TenantSettings { region_profile, workstream_labels })
}

/// Credentials of a platform administrator.
pub struct PlatformLoginRequest {
    pub email: String,
    pub password: String,
}

/// A platform administrator's login: `Unauthorized` unless an administrator
/// has the email (`admin_id`) and the password matches its stored hash.
pub fn platform_login(admin_id: Option<u128>, password_matches: bool) -> (r: Result<u128, ApiError>)
    ensures
        r == (match admin_id {
            None => Err(ApiError::Unauthorized),
            Some(a) => if password_matches {
                Ok(a)
            } else {
                Err(ApiError::Unauthorized)
            },
        }),
{
    match admin_id {
        None => Err(ApiError::Unauthorized),
        Some(a) => if password_matches {
            Ok(a)
        } else {
            Err(ApiError::Unauthorized)
        },
    }
}

/// A stored platform administrator session: whose it is and when it
/// expires (microseconds since the Unix epoch).
#[derive(Clone, Copy, Debug, PartialEq, Eq, Structural)]
pub struct PlatformSession {
    pub platform_admin_id: u128,
    pub expires_at: i64,
}

/// The platform administrator a session (`None`: no session with the
/// token's hash) authenticates at `now`: `Unauthorized` when there is no
/// session or it has expired.
pub fn authenticate_platform_admin(session: Option<PlatformSession>, now: i64) -> (r: Result<u128, ApiError>)
    ensures
        r == (match session {
            None => Err(ApiError::Unauthorized),
            Some(s) => if s.expires_at < now {
                Err(ApiError::Unauthorized)
            } else {
                Ok(s.platform_admin_id)
            },
        }),
{
    match session {
        None => Err(ApiError::Unauthorized),
        Some(s) => if s.expires_at < now {
            Err(ApiError::Unauthorized)
        } else {
            Ok(s.platform_admin_id)
        },
    }
}

} // verus!
