//! Accounts and sessions: sign-up and teammates, tenant admins, session
//! tokens (random, stored only as a SHA-256 hash), expiry and the
//! principal a session authenticates.
use vstd::prelude::*;
use crate::authz::require_tenant_admin;
use crate::error::{ApiError, BadRequest};
use crate::text::{blank, is_blank, str_is};
use rand::RngCore;
use sha2::{Digest, Sha256};

verus! {

/// What SHA-256 gives for `data`.
pub uninterp spec fn sha256(data: Seq<u8>) -> Seq<u8>;

/// Calls `sha2::Sha256::digest`. Claims: the result is `sha256` of the
/// input, a 32-byte digest.
#[verifier::external_body]
fn sha256_digest(data: &[u8]) -> (r: Vec<u8>)
    ensures
        r@ == sha256(data@),
        r@.len() == 32,
{
    Sha256::digest(data).to_vec()
}

/// The lowercase hexadecimal digit for `n` (0 to 15).
pub open spec fn hex_digit(n: int) -> char {
    if n < 10 {
        (n + 48) as char
    } else {
        (n + 87) as char
    }
}

/// Lowercase hexadecimal: two digits per byte, high nibble first.
pub open spec fn hex_string(bytes: Seq<u8>) -> Seq<char>
    decreases bytes.len(),
{
    if bytes.len() == 0 {
        Seq::empty()
    } else {
        hex_string(bytes.drop_last()) + seq![hex_digit(bytes.last() as int / 16), hex_digit(bytes.last() as int % 16)]
    }
}

/// Calls `hex::encode`. Claims: the result is the lowercase hexadecimal
/// text of the bytes, two digits per byte, high nibble first.
#[verifier::external_body]
fn hex_encode(bytes: &[u8]) -> (r: String)
    ensures
        r@ == hex_string(bytes@),
{
    hex::encode(bytes)
}

/// Calls `rand::rngs::OsRng::try_fill_bytes` on 32 bytes. Claims only that
/// a success yields 32 bytes; which bytes, and whether the operating
/// system's generator succeeds, is not stated.
#[verifier::external_body]
fn os_random_32() -> (r: Option<Vec<u8>>)
    ensures
        r matches Some(b) ==> b@.len() == 32,
{
    let mut bytes = [0u8;32];
    match rand::rngs::OsRng.try_fill_bytes(&mut bytes) {
        Ok(()) => Some(bytes.to_vec()),
        Err(_) => None,
    }
}

/// Hex text has two digits per byte.
pub proof fn lemma_hex_string_len(bytes: Seq<u8>)
    ensures
        hex_string(bytes).len() == 2 * bytes.len(),
    decreases bytes.len(),
{
    if bytes.len() > 0 {
        lemma_hex_string_len(bytes.drop_last());
    }
}

/// The stored form of a session token: the hex SHA-256 of its UTF-8 bytes.
pub open spec fn token_hash(token: Seq<char>) -> Seq<char> {
    hex_string(sha256(vstd::utf8::encode_utf8(token)))
}

/// Hashes a session token for storage and lookup.
pub fn hash_token(token: &str) -> (r: String)
    ensures
        r@ == token_hash(token@),
{
    let digest = sha256_digest(token.as_bytes());
    hex_encode(digest.as_slice())
}

/// A fresh session token: 32 random bytes in hex (64 characters).
/// `Internal` when the operating system's random generator fails.
pub fn generate_token() -> (r: Result<String, ApiError>)
    ensures
        match r {
            Ok(t) => t@.len() == 64 && exists|b: Seq<u8>| b.len() == 32 && t@ == hex_string(b),
            Err(e) => e == ApiError::Internal,
        },
{
    match os_random_32() {
        None => Err(ApiError::Internal),
        Some(bytes) => {
            let t = hex_encode(bytes.as_slice());
            proof {
                lemma_hex_string_len(bytes@);
            }
            Ok(t)
        },
    }
}

/// Microseconds in a day.
pub const MICROS_PER_DAY: i64 = 86400000000i64;

/// How long a session lives.
pub const SESSION_TTL_DAYS: i64 = 30i64;

/// The day number (from the common era) of the Unix epoch.
pub const UNIX_EPOCH_DAY: i64 = 719163i64;

/// The calendar day of an instant, given in microseconds since the Unix
/// epoch, as a day number.
pub open spec fn day_of_instant(micros: int) -> int {
    micros / (MICROS_PER_DAY as int) + UNIX_EPOCH_DAY
}

/// Calls `DateTime::<Utc>::from_timestamp_micros`, then `checked_add_signed`
/// with `TimeDelta::try_days(days)` and `timestamp_micros`. Claims: a result
/// is the instant `days` whole days later, and there is one only when both
/// instants' days are in chrono's calendar range; there is one whenever they
/// are and `days` is modest.
#[verifier::external_body]
fn utc_micros_plus_days(micros: i64, days: i64) -> (r: Option<i64>)
    ensures
        r matches Some(x) ==> x == micros + days * MICROS_PER_DAY,
        r is Some ==> crate::dates::valid_day(day_of_instant(micros as int)) && crate::dates::valid_day(
            day_of_instant(micros as int) + days,
        ),
        crate::dates::valid_day(day_of_instant(micros as int)) && crate::dates::valid_day(
            day_of_instant(micros as int) + days,
        ) && -1000000 <= days <= 1000000 ==> r is Some,
{
    let start = chrono::DateTime::<chrono::Utc>::from_timestamp_micros(micros)?;
    let delta = chrono::TimeDelta::try_days(days)?;
    Some(start.checked_add_signed(delta)?.timestamp_micros())
}

/// Both the day of `now` and the day 30 days later are calendar days
/// chrono represents.
pub open spec fn expiry_in_range(now: int) -> bool {
    crate::dates::valid_day(day_of_instant(now)) && crate::dates::valid_day(day_of_instant(now) + SESSION_TTL_DAYS)
}

/// When a session created at `now` (microseconds since the Unix epoch)
/// expires: 30 days later; `None` exactly when that is outside the
/// calendar's range.
pub fn session_expiry(now: i64) -> (r: Option<i64>)
    ensures
        r matches Some(x) ==> x == now + SESSION_TTL_DAYS * MICROS_PER_DAY,
        r is Some <==> expiry_in_range(now as int),
{
    utc_micros_plus_days(now, SESSION_TTL_DAYS)
}

/// A stored session: whose it is (an internal user or a client portal
/// user) and when it expires.
#[derive(Clone, Copy, Debug, PartialEq, Eq, Structural)]
pub struct SessionRecord {
    pub tenant_id: u128,
    pub user_id: Option<u128>,
    pub client_user_id: Option<u128>,
    /// Microseconds since the Unix epoch.
    pub expires_at: i64,
}

/// A newly issued session: the token handed to the caller, the hash stored
/// in its place, and the record.
pub struct NewSession {
    pub token: String,
    pub token_hash: String,
    pub record: SessionRecord,
}

/// The session issued at `now` under the drawn `token`, for an internal
/// user (`user_id`) or a client portal user (`client_user_id`): the token,
/// its stored hash, and an expiry 30 days on. `Internal` exactly when the
/// expiry is outside the calendar's range.
pub fn issue_session(
    token: String,
    tenant_id: u128,
    user_id: Option<u128>,
    client_user_id: Option<u128>,
    now: i64,
) -> (r: Result<NewSession, ApiError>)
    ensures
        r is Ok <==> expiry_in_range(now as int),
        match r {
            Ok(s) => {
                &&& s.token@ == token@
                &&& s.token_hash@ == token_hash(token@)
                &&& s.record == (SessionRecord {
                    tenant_id,
                    user_id,
                    client_user_id,
                    expires_at: (now + SESSION_TTL_DAYS * MICROS_PER_DAY) as i64,
                })
            },
            Err(e) => e == ApiError::Internal,
        },
{
    let expires_at = match session_expiry(now) {
        None => return Err(ApiError::Internal),
        Some(x) => x,
    };
    let token_hash = hash_token(token.as_str());
    Ok(NewSession { token, token_hash, record: SessionRecord { tenant_id, user_id, client_user_id, expires_at } })
}

/// Issues a session at `now` for an internal user (`user_id`) or a client
/// portal user (`client_user_id`): a freshly drawn token (see
/// `issue_session`). `Internal` when no token can be drawn or the expiry is
/// outside the calendar's range.
pub fn create_session(
    tenant_id: u128,
    user_id: Option<u128>,
    client_user_id: Option<u128>,
    now: i64,
) -> (r: Result<NewSession, ApiError>)
    ensures
        match r {
            Ok(s) => {
                &&& s.token@.len() == 64
                &&& exists|b: Seq<u8>| b.len() == 32 && s.token@ == hex_string(b)
                &&& s.token_hash@ == token_hash(s.token@)
                &&& s.record == (SessionRecord {
                    tenant_id,
                    user_id,
                    client_user_id,
                    expires_at: (now + SESSION_TTL_DAYS * MICROS_PER_DAY) as i64,
                })
            },
            Err(e) => e == ApiError::Internal,
        },
{
    let token = match generate_token() {
        Err(e) => return Err(e),
        Ok(t) => t,
    };
    issue_session(token, tenant_id, user_id, client_user_id, now)
}

/// A session is still valid at `now` unless it expired before.
pub open spec fn session_live(record: SessionRecord, now: i64) -> bool {
    !(record.expires_at < now)
}

/// The authenticated internal user of a request.
#[derive(Clone, Copy, Debug, PartialEq, Eq, Structural)]
pub struct AuthenticatedUser {
    pub user_id: u128,
    pub tenant_id: u128,
}

/// The authenticated client portal user of a request, and the client it
/// represents.
#[derive(Clone, Copy, Debug, PartialEq, Eq, Structural)]
pub struct AuthenticatedClientUser {
    pub client_user_id: u128,
    pub client_id: u128,
    pub tenant_id: u128,
}

/// The hash to look a request's session up by: `Unauthorized` when the
/// request carries no session token.
pub fn session_lookup_key(token: Option<&str>) -> (r: Result<String, ApiError>)
    ensures
        match token {
            None => r matches Err(e) && e == ApiError::Unauthorized,
            Some(t) => r matches Ok(h) && h@ == token_hash(t@),
        },
{
    match token {
        None => Err(ApiError::Unauthorized),
        Some(t) => Ok(hash_token(t)),
    }
}

/// The session's tenant is active (`None`: the tenant does not exist).
pub open spec fn tenant_active(tenant_status: Option<TenantStatus>) -> bool {
    tenant_status == Some(TenantStatus::Active)
}

/// The internal user a session (`None`: no session with the token's hash)
/// authenticates at `now`, `tenant_status` being the status of the
/// session's tenant: none (`Unauthorized`) when there is no session, it has
/// expired, its tenant is not active, or it belongs to a client portal user.
pub open spec fn session_user(session: Option<SessionRecord>, now: i64, tenant_status: Option<TenantStatus>) -> Result<
    AuthenticatedUser,
    ApiError,
> {
    match session {
        None => Err(ApiError::Unauthorized),
        Some(s) => if !session_live(s, now) || !tenant_active(tenant_status) {
            Err(ApiError::Unauthorized)
        } else {
            match s.user_id {
                None => Err(ApiError::Unauthorized),
                Some(u) => Ok(AuthenticatedUser { user_id: u, tenant_id: s.tenant_id }),
            }
        },
    }
}

/// Authenticates an internal user; see `session_user`.
pub fn authenticate_user(session: Option<SessionRecord>, now: i64, tenant_status: Option<TenantStatus>) -> (r: Result<
    AuthenticatedUser,
    ApiError,
>)
    ensures
        r == session_user(session, now, tenant_status),
{
    let s = match session {
        None => return Err(ApiError::Unauthorized),
        Some(s) => s,
    };
    if s.expires_at < now || tenant_status != Some(TenantStatus::Active) {
        return Err(ApiError::Unauthorized);
    }
    match s.user_id {
        None => Err(ApiError::Unauthorized),
        Some(u) => Ok(AuthenticatedUser { user_id: u, tenant_id: s.tenant_id }),
    }
}

/// The client portal user a session authenticates at `now`: refused as
/// `Unauthorized` when there is no live session, its tenant is not active
/// (`tenant_status`), it belongs to an internal user, or its client user no
/// longer exists (`client_of_user` is the client of the session's client
/// user, `None` when missing).
pub fn authenticate_client_user(
    session: Option<SessionRecord>,
    now: i64,
    tenant_status: Option<TenantStatus>,
    client_of_user: Option<u128>,
) -> (r: Result<AuthenticatedClientUser, ApiError>)
    ensures
        r == (match session {
            None => Err(ApiError::Unauthorized),
            Some(s) => if !session_live(s, now) || !tenant_active(tenant_status) {
                Err(ApiError::Unauthorized)
            } else {
                match s.client_user_id {
                    None => Err(ApiError::Unauthorized),
                    Some(cu) => match client_of_user {
                        None => Err(ApiError::Unauthorized),
                        Some(c) => Ok(AuthenticatedClientUser { client_user_id: cu, client_id: c, tenant_id: s.tenant_id }),
                    },
                }
            },
        }),
{
    let s = match session {
        None => return Err(ApiError::Unauthorized),
        Some(s) => s,
    };
    if s.expires_at < now || tenant_status != Some(TenantStatus::Active) {
        return Err(ApiError::Unauthorized);
    }
    let cu = match s.client_user_id {
        None => return Err(ApiError::Unauthorized),
        Some(cu) => cu,
    };
    match client_of_user {
        None => Err(ApiError::Unauthorized),
        Some(c) => Ok(AuthenticatedClientUser { client_user_id: cu, client_id: c, tenant_id: s.tenant_id }),
    }
}

/// Law: an issued session is found again and authenticates its user: the
/// hash a request's token is looked up by is the hash stored at issue, and
/// the session authenticates the user it was issued to at any time from
/// its issue until it expires while the tenant is active, and never after
/// it expires or while the tenant is paused or deleted.
pub proof fn lemma_issued_session_authenticates(
    s: NewSession,
    tenant_id: u128,
    user_id: u128,
    issued_at: i64,
    now: i64,
    tenant_status: TenantStatus,
)
    requires
        s.token_hash@ == token_hash(s.token@),
        s.record == (SessionRecord {
            tenant_id,
            user_id: Some(user_id),
            client_user_id: None,
            expires_at: (issued_at + SESSION_TTL_DAYS * MICROS_PER_DAY) as i64,
        }),
        issued_at + SESSION_TTL_DAYS * MICROS_PER_DAY <= i64::MAX,
    ensures
        token_hash(s.token@) == s.token_hash@,
        issued_at <= now <= issued_at + SESSION_TTL_DAYS * MICROS_PER_DAY && tenant_status == TenantStatus::Active
            ==> session_user(Some(s.record), now, Some(tenant_status)) == Ok::<AuthenticatedUser, ApiError>(
            AuthenticatedUser { user_id, tenant_id },
        ),
        now > issued_at + SESSION_TTL_DAYS * MICROS_PER_DAY || tenant_status != TenantStatus::Active ==> session_user(
            Some(s.record),
            now,
            Some(tenant_status),
        ) == Err::<AuthenticatedUser, ApiError>(ApiError::Unauthorized),
{
}

/// A user account's fields the rules read.
#[derive(Clone, Copy, Debug, PartialEq, Eq, Structural)]
pub struct UserRecord {
    pub id: u128,
    pub tenant_id: u128,
    pub is_tenant_admin: bool,
}

/// The password is at least 8 bytes long.
pub open spec fn password_long_enough(password: Seq<char>) -> bool {
    vstd::utf8::encode_utf8(password).len() >= 8
}

/// A sign-up request: a new tenant and its founding user.
pub struct SignupRequest {
    pub tenant_name: String,
    pub email: String,
    pub password: String,
}

/// Where a tenant stands.
#[derive(Clone, Copy, Debug, PartialEq, Eq, Structural)]
pub enum TenantStatus {
    Active,
    Paused,
    Deleted,
}

/// A new tenant's record: its region and status.
pub struct NewTenant {
    pub id: u128,
    pub region_profile: String,
    pub status: TenantStatus,
}

/// Signs up a new tenant (id `tenant_id`) and its founding user (id
/// `user_id`), who is the tenant's admin. Refused when the tenant name or
/// email is blank, the password is shorter than 8 bytes, or the email is
/// already registered (`email_taken`). The tenant starts active under the
/// India region profile.
pub fn signup(req: &SignupRequest, email_taken: bool, tenant_id: u128, user_id: u128) -> (r: Result<
    (NewTenant, UserRecord),
    ApiError,
>)
    ensures
        blank(req.tenant_name@) ==> (r matches Err(e) && e == ApiError::BadRequest(BadRequest::TenantNameRequired)),
        !blank(req.tenant_name@) && blank(req.email@) ==> (r matches Err(e) && e == ApiError::BadRequest(
            BadRequest::EmailRequired,
        )),
        !blank(req.tenant_name@) && !blank(req.email@) && !password_long_enough(req.password@) ==> (r matches Err(
            e,
        ) && e == ApiError::BadRequest(BadRequest::PasswordTooShort)),
        !blank(req.tenant_name@) && !blank(req.email@) && password_long_enough(req.password@) && email_taken
            ==> (r matches Err(e) && e == ApiError::BadRequest(BadRequest::EmailAlreadyRegistered)),
        !blank(req.tenant_name@) && !blank(req.email@) && password_long_enough(req.password@) && !email_taken
            ==> (r matches Ok((t, u)) && t.id == tenant_id && t.region_profile@ == "india"@ && t.status
            == TenantStatus::Active && u == (UserRecord { id: user_id, tenant_id, is_tenant_admin: true })),
{
    if is_blank(req.tenant_name.as_str()) {
        return Err(ApiError::BadRequest(BadRequest::TenantNameRequired));
    }
    if is_blank(req.email.as_str()) {
        return Err(ApiError::BadRequest(BadRequest::EmailRequired));
    }
    if req.password.as_str().as_bytes().len() < 8 {
        return Err(ApiError::BadRequest(BadRequest::PasswordTooShort));
    }
    if email_taken {
        return Err(ApiError::BadRequest(BadRequest::EmailAlreadyRegistered));
    }
    Ok(
        (
            NewTenant { id: tenant_id, region_profile: String::from_str("india"), status: TenantStatus::Active },
            UserRecord { id: user_id, tenant_id, is_tenant_admin: true },
        ),
    )
}

/// Credentials for a login.
pub struct LoginRequest {
    pub email: String,
    pub password: String,
}

/// A login: `Unauthorized` unless an account has the email (`user`) and the
/// password matches its stored hash (`password_matches`).
pub fn login(user: Option<UserRecord>, password_matches: bool) -> (r: Result<UserRecord, ApiError>)
    ensures
        r == (match user {
            None => Err(ApiError::Unauthorized),
            Some(u) => if password_matches {
                Ok(u)
            } else {
                Err(ApiError::Unauthorized)
            },
        }),
{
    match user {
        None => Err(ApiError::Unauthorized),
        Some(u) => if password_matches {
            Ok(u)
        } else {
            Err(ApiError::Unauthorized)
        },
    }
}

/// A request for a teammate account.
pub struct CreateTeammateRequest {
    pub email: String,
    pub password: String,
}

/// Creates a teammate account (id `new_user_id`) in the caller's tenant:
/// only a tenant admin may (checked first); then as sign-up checks email and
/// password. A teammate is not an admin.
pub fn create_teammate(
    req: &CreateTeammateRequest,
    caller_is_admin: bool,
    email_taken: bool,
    tenant_id: u128,
    new_user_id: u128,
) -> (r: Result<UserRecord, ApiError>)
    ensures
        !caller_is_admin ==> r == Err::<UserRecord, ApiError>(ApiError::Forbidden),
        caller_is_admin && blank(req.email@) ==> r == Err::<UserRecord, ApiError>(
            ApiError::BadRequest(BadRequest::EmailRequired),
        ),
        caller_is_admin && !blank(req.email@) && !password_long_enough(req.password@) ==> r == Err::<
            UserRecord,
            ApiError,
        >(ApiError::BadRequest(BadRequest::PasswordTooShort)),
        caller_is_admin && !blank(req.email@) && password_long_enough(req.password@) && email_taken ==> r
            == Err::<UserRecord, ApiError>(ApiError::BadRequest(BadRequest::EmailAlreadyRegistered)),
        caller_is_admin && !blank(req.email@) && password_long_enough(req.password@) && !email_taken ==> r
            == Ok::<UserRecord, ApiError>(UserRecord { id: new_user_id, tenant_id, is_tenant_admin: false }),
{
    match require_tenant_admin(caller_is_admin) {
        Err(e) => return Err(e),
        Ok(()) => {},
    }
    if is_blank(req.email.as_str()) {
        return Err(ApiError::BadRequest(BadRequest::EmailRequired));
    }
    if req.password.as_str().as_bytes().len() < 8 {
        return Err(ApiError::BadRequest(BadRequest::PasswordTooShort));
    }
    if email_taken {
        return Err(ApiError::BadRequest(BadRequest::EmailAlreadyRegistered));
    }
    Ok(UserRecord { id: new_user_id, tenant_id, is_tenant_admin: false })
}

/// Some user other than `target` is a tenant admin.
pub open spec fn has_other_admin(users: Seq<UserRecord>, target: u128) -> bool {
    exists|i: int| 0 <= i < users.len() && (#[trigger] users[i]).is_tenant_admin && users[i].id != target
}

/// The requested admin flag.
pub struct SetTenantAdminRequest {
    pub is_tenant_admin: bool,
}

/// What granting or revoking a user's admin flag decides: only an admin may
/// (`Forbidden`); the target (`None`: `NotFound`) loses the flag only while
/// another admin remains.
pub open spec fn set_admin_outcome(
    caller_is_admin: bool,
    users: Seq<UserRecord>,
    target: Option<UserRecord>,
    new_value: bool,
) -> Result<UserRecord, ApiError> {
    if !caller_is_admin {
        Err(ApiError::Forbidden)
    } else {
        match target {
            None => Err(ApiError::NotFound),
            Some(t) => if !new_value && t.is_tenant_admin && !has_other_admin(users, t.id) {
                Err(ApiError::BadRequest(BadRequest::LastAdminDemotion))
            } else {
                Ok(UserRecord { is_tenant_admin: new_value, ..t })
            },
        }
    }
}

/// Grants or revokes a user's tenant admin flag. `users` are the tenant's
/// users and `target` the user asked for; see `set_admin_outcome`.
pub fn set_tenant_admin(
    caller_is_admin: bool,
    users: &Vec<UserRecord>,
    target: Option<UserRecord>,
    req: &SetTenantAdminRequest,
) -> (r: Result<UserRecord, ApiError>)
    ensures
        r == set_admin_outcome(caller_is_admin, users@, target, req.is_tenant_admin),
{
    match require_tenant_admin(caller_is_admin) {
        Err(e) => return Err(e),
        Ok(()) => {},
    }
    let t = match target {
        None => return Err(ApiError::NotFound),
        Some(t) => t,
    };
    let new_value = req.is_tenant_admin;
    if !new_value && t.is_tenant_admin {
        let mut found = false;
        let mut i: usize = 0;
        while i < users.len()
            invariant
                i <= users@.len(),
                found == exists|j: int| 0 <= j < i && (#[trigger] users@[j]).is_tenant_admin && users@[j].id != t.id,
            decreases users@.len() - i,
        {
            if users[i].is_tenant_admin && users[i].id != t.id {
                found = true;
            }
            i = i + 1;
        }
        if !found {
            return Err(ApiError::BadRequest(BadRequest::LastAdminDemotion));
        }
    }
    Ok(UserRecord { is_tenant_admin: new_value, ..t })
}

/// The tenant has an admin.
pub open spec fn has_admin(users: Seq<UserRecord>) -> bool {
    exists|i: int| 0 <= i < users.len() && (#[trigger] users[i]).is_tenant_admin
}

/// Law: a tenant never loses its last admin: if the tenant has an admin
/// and the target's record is replaced by what `set_tenant_admin` returns,
/// the tenant still has an admin.
pub proof fn lemma_tenant_keeps_an_admin(
    caller_is_admin: bool,
    users: Seq<UserRecord>,
    k: int,
    new_value: bool,
)
    requires
        0 <= k < users.len(),
        has_admin(users),
        set_admin_outcome(caller_is_admin, users, Some(users[k]), new_value) is Ok,
    ensures
        has_admin(users.update(k, set_admin_outcome(caller_is_admin, users, Some(users[k]), new_value)->Ok_0)),
{
    let after = users.update(k, set_admin_outcome(caller_is_admin, users, Some(users[k]), new_value)->Ok_0);
    let a = choose|i: int| 0 <= i < users.len() && (#[trigger] users[i]).is_tenant_admin;
    if new_value {
        assert(after[k].is_tenant_admin);
    } else if a != k {
        assert(after[a] == users[a]);
    } else {
        let o = choose|i: int| 0 <= i < users.len() && (#[trigger] users[i]).is_tenant_admin && users[i].id != users[k].id;
        assert(o != k);
        assert(after[o] == users[o]);
    }
}

/// Revokes every session of a user: only an admin may (`Forbidden`), and
/// the user must exist (`NotFound`). Returns the sessions that remain, in
/// order.
pub fn revoke_user_sessions(
    caller_is_admin: bool,
    target_exists: bool,
    sessions: &Vec<SessionRecord>,
    target_user_id: u128,
) -> (r: Result<Vec<SessionRecord>, ApiError>)
    ensures
        !caller_is_admin ==> (r matches Err(e) && e == ApiError::Forbidden),
        caller_is_admin && !target_exists ==> (r matches Err(e) && e == ApiError::NotFound),
        caller_is_admin && target_exists ==> (r matches Ok(rest) && rest@ == sessions@.filter(
            |s: SessionRecord| s.user_id != Some(target_user_id),
        )),
{
    match require_tenant_admin(caller_is_admin) {
        Err(e) => return Err(e),
        Ok(()) => {},
    }
    if !target_exists {
        return Err(ApiError::NotFound);
    }
    let ghost keep = |s: SessionRecord| s.user_id != Some(target_user_id);
    let mut out: Vec<SessionRecord> = Vec::new();
    let mut i: usize = 0;
    proof {
        reveal(Seq::filter);
        assert(sessions@.take(0).filter(keep) =~= Seq::<SessionRecord>::empty());
    }
    while i < sessions.len()
        invariant
            i <= sessions@.len(),
            keep == (|s: SessionRecord| s.user_id != Some(target_user_id)),
            out@ == sessions@.take(i as int).filter(keep),
        decreases sessions@.len() - i,
    {
        let s = sessions[i];
        proof {
            reveal(Seq::filter);
            assert(sessions@.take(i + 1).drop_last() =~= sessions@.take(i as int));
            assert(sessions@.take(i + 1).last() == s);
        }
        if s.user_id != Some(target_user_id) {
            out.push(s);
        }
        i = i + 1;
    }
    proof {
        assert(sessions@.take(sessions@.len() as int) =~= sessions@);
    }
    Ok(out)
}

/// Law: after a revocation no session of the user remains, and every other
/// session is kept.
pub proof fn lemma_revocation_is_complete(sessions: Seq<SessionRecord>, target_user_id: u128, s: SessionRecord)
    requires
        sessions.contains(s),
    ensures
        sessions.filter(|x: SessionRecord| x.user_id != Some(target_user_id)).contains(s) <==> s.user_id != Some(
            target_user_id,
        ),
{
    broadcast use vstd::seq_lib::group_filter_ensures;

    let keep = |x: SessionRecord| x.user_id != Some(target_user_id);
    if keep(s) {
        let i = choose|i: int| 0 <= i < sessions.len() && sessions[i] == s;
        sessions.lemma_filter_contains(keep, i);
    }
    if sessions.filter(keep).contains(s) {
        let k = choose|k: int| 0 <= k < sessions.filter(keep).len() && sessions.filter(keep)[k] == s;
        sessions.lemma_filter_pred(keep, k);
    }
}

/// The caller's own account: `Unauthorized` when it no longer exists.
pub fn me(user: Option<UserRecord>) -> (r: Result<UserRecord, ApiError>)
    ensures
        r == (match user {
            None => Err(ApiError::Unauthorized),
            Some(u) => Ok(u),
        }),
{
    match user {
        None => Err(ApiError::Unauthorized),
        Some(u) => Ok(u),
    }
}


/// The salted digest of a password: the hex SHA-256 of the salt text
/// followed by the password, as UTF-8.
pub open spec fn salted_digest(salt: Seq<char>, password: Seq<char>) -> Seq<char> {
    hex_string(sha256(vstd::utf8::encode_utf8(salt + password)))
}

/// The stored form of a password: the salt (64 hex characters), `$`, and
/// the salted digest.
pub open spec fn stored_password(salt: Seq<char>, password: Seq<char>) -> Seq<char> {
    salt + seq!['$'] + salted_digest(salt, password)
}

fn digest_with_salt(salt: &str, password: &str) -> (r: String)
    ensures
        r@ == salted_digest(salt@, password@),
{
    let mut text = String::from_str(salt);
    text.append(password);
    let digest = sha256_digest(text.as_str().as_bytes());
    hex_encode(digest.as_slice())
}

/// The stored form of `password` under the salt drawn as `salt`: the salt
/// in hex, `$`, and the salted digest.
pub fn stored_password_for(salt: &[u8], password: &str) -> (r: String)
    ensures
        r@ == stored_password(hex_string(salt@), password@),
{
    let salt = hex_encode(salt);
    let digest = digest_with_salt(salt.as_str(), password);
    let mut stored = salt.clone();
    stored.append("$");
    stored.append(digest.as_str());
    proof {
        reveal_strlit("$");
        assert(stored@ =~= stored_password(salt@, password@));
    }
    stored
}

/// Hashes a password for storage with a fresh random salt of 32 bytes (see
/// `stored_password_for`). `Internal` when the operating system's random
/// generator fails.
pub fn hash_password(password: &str) -> (r: Result<String, ApiError>)
    ensures
        match r {
            Ok(h) => exists|salt: Seq<u8>| salt.len() == 32 && h@ == stored_password(hex_string(salt), password@),
            Err(e) => e == ApiError::Internal,
        },
{
    match os_random_32() {
        None => Err(ApiError::Internal),
        Some(bytes) => Ok(stored_password_for(bytes.as_slice(), password)),
    }
}

/// Whether the stored text is a salt of 64 characters, `$`, and the salted
/// digest of `password`.
pub open spec fn password_matches(password: Seq<char>, stored: Seq<char>) -> bool {
    &&& stored.len() >= 65
    &&& stored[64] == '$'
    &&& stored.subrange(65, stored.len() as int) == salted_digest(stored.subrange(0, 64), password)
}

/// Checks a password against its stored form.
pub fn verify_password(password: &str, stored: &str) -> (r: bool)
    ensures
        r == password_matches(password@, stored@),
{
    let n = stored.unicode_len();
    if n < 65 {
        return false;
    }
    let salt = stored.substring_char(0, 64);
    if stored.get_char(64) != '$' {
        return false;
    }
    let rest = stored.substring_char(65, n);
    let expected = digest_with_salt(salt, password);
    str_is(rest, expected.as_str())
}

/// Law: a password verifies against what hashing it stores.
pub proof fn lemma_password_round_trip(password: Seq<char>, salt: Seq<char>)
    requires
        salt.len() == 64,
    ensures
        password_matches(password, stored_password(salt, password)),
{
    let stored = stored_password(salt, password);
    assert(stored.subrange(0, 64) =~= salt);
    assert(stored.subrange(65, stored.len() as int) =~= salted_digest(salt, password));
}

} // verus!
