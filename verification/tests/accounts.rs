use api::auth::{
    authenticate_client_user, authenticate_user, create_session, create_teammate, issue_session, stored_password_for, generate_token, hash_password, hash_token, login, me,
    revoke_user_sessions, session_expiry, session_lookup_key, set_tenant_admin, signup, verify_password, AuthenticatedUser,
    CreateTeammateRequest, SessionRecord, SetTenantAdminRequest, SignupRequest, TenantStatus, UserRecord,
    MICROS_PER_DAY,
};
use api::authz::RoleAssignment;
use api::config::{config_from_values, ConfigError};
use api::error::{ApiError, BadRequest};
use api::notifications::{list_my_notifications, mark_notification_read, notification_recipients, notify_project_team, schedule_shift_message, ListNotificationsQuery, Notification};
use api::org::{assign_role, create_business_unit, create_client, create_client_user, AssignRoleRequest, CreateBusinessUnitRequest, CreateClientRequest, CreateClientUserRequest};
use api::schedule::Role;
use api::tenants::{
    authenticate_platform_admin, delete_tenant, pause_tenant, platform_login, PlatformSession, resume_tenant, update_tenant_settings, TenantLifecycle, TenantSettings,
    UpdateTenantSettingsRequest,
};

#[test]
fn token_hash_is_hex_sha256() {
    let h = hash_token("abc");
    assert_eq!(h, "ba7816bf8f01cfea414140de5dae2223b00361a396177a9cb410ff61f20015ad");
    assert_eq!(hash_token("abc"), h);
    assert_ne!(hash_token("abd"), h);
}

#[test]
fn generated_tokens_are_64_hex_chars_and_differ() {
    let a = generate_token().unwrap();
    let b = generate_token().unwrap();
    assert_eq!(a.len(), 64);
    assert!(a.chars().all(|c| c.is_ascii_hexdigit() && !c.is_ascii_uppercase()));
    assert_ne!(a, b);
}

#[test]
fn issued_session_authenticates_until_expiry() {
    let now: i64 = 1_780_000_000_000_000;
    let s = create_session(1, Some(2), None, now).unwrap();
    assert_eq!(s.record.expires_at, now + 30 * MICROS_PER_DAY);
    assert_eq!(session_lookup_key(Some(s.token.as_str())).unwrap(), s.token_hash);
    assert_eq!(authenticate_user(Some(s.record), now, Some(TenantStatus::Active)), Ok(AuthenticatedUser { user_id: 2, tenant_id: 1 }));
    assert_eq!(authenticate_user(Some(s.record), s.record.expires_at, Some(TenantStatus::Active)), Ok(AuthenticatedUser { user_id: 2, tenant_id: 1 }));
    assert_eq!(authenticate_user(Some(s.record), s.record.expires_at + 1, Some(TenantStatus::Active)).err(), Some(ApiError::Unauthorized));
    assert_eq!(authenticate_user(None, now, Some(TenantStatus::Active)).err(), Some(ApiError::Unauthorized));
    assert_eq!(authenticate_client_user(Some(s.record), now, Some(TenantStatus::Active), Some(5)).err(), Some(ApiError::Unauthorized));
    assert_eq!(session_lookup_key(None).err(), Some(ApiError::Unauthorized));
}

#[test]
fn client_session_authenticates_client_user() {
    let rec = SessionRecord { tenant_id: 1, user_id: None, client_user_id: Some(8), expires_at: 100 };
    let c = authenticate_client_user(Some(rec), 50, Some(TenantStatus::Active), Some(9)).unwrap();
    assert_eq!((c.client_user_id, c.client_id, c.tenant_id), (8, 9, 1));
    assert_eq!(authenticate_client_user(Some(rec), 50, Some(TenantStatus::Active), None).err(), Some(ApiError::Unauthorized));
    assert_eq!(authenticate_user(Some(rec), 50, Some(TenantStatus::Active)).err(), Some(ApiError::Unauthorized));
}

#[test]
fn session_expiry_is_thirty_days_later() {
    assert_eq!(session_expiry(0), Some(30 * MICROS_PER_DAY));
    assert_eq!(session_expiry(i64::MAX - 10), None);
}

#[test]
fn signup_validates_in_order() {
    let good = SignupRequest { tenant_name: String::from("Acme Co"), email: String::from("a@b.c"), password: String::from("correcthorsebattery") };
    let (t, u) = signup(&good, false, 1, 2).unwrap();
    assert_eq!(t.region_profile, "india");
    assert_eq!(t.status, TenantStatus::Active);
    assert!(u.is_tenant_admin);
    assert_eq!(signup(&good, true, 1, 2).err(), Some(ApiError::BadRequest(BadRequest::EmailAlreadyRegistered)));
    let short = SignupRequest { password: String::from("1234567"), ..good };
    assert_eq!(signup(&short, false, 1, 2).err(), Some(ApiError::BadRequest(BadRequest::PasswordTooShort)));
    let eight = SignupRequest { password: String::from("12345678"), ..short };
    assert!(signup(&eight, false, 1, 2).is_ok());
    let no_email = SignupRequest { email: String::from(""), ..eight };
    assert_eq!(signup(&no_email, false, 1, 2).err(), Some(ApiError::BadRequest(BadRequest::EmailRequired)));
    let no_name = SignupRequest { tenant_name: String::from(" "), ..no_email };
    assert_eq!(signup(&no_name, false, 1, 2).err(), Some(ApiError::BadRequest(BadRequest::TenantNameRequired)));
}

#[test]
fn login_and_me() {
    let u = UserRecord { id: 2, tenant_id: 1, is_tenant_admin: false };
    assert_eq!(login(Some(u), true), Ok(u));
    assert_eq!(login(Some(u), false).err(), Some(ApiError::Unauthorized));
    assert_eq!(login(None, true).err(), Some(ApiError::Unauthorized));
    assert_eq!(me(None).err(), Some(ApiError::Unauthorized));
    assert_eq!(platform_login(Some(4), true), Ok(4));
    assert_eq!(platform_login(Some(4), false).err(), Some(ApiError::Unauthorized));
}

#[test]
fn teammates_only_by_admins() {
    let req = CreateTeammateRequest { email: String::from("t@b.c"), password: String::from("correcthorsebattery") };
    assert_eq!(create_teammate(&req, false, false, 1, 3).err(), Some(ApiError::Forbidden));
    let t = create_teammate(&req, true, false, 1, 3).unwrap();
    assert!(!t.is_tenant_admin);
}

#[test]
fn last_admin_cannot_be_demoted() {
    let owner = UserRecord { id: 1, tenant_id: 1, is_tenant_admin: true };
    let mate = UserRecord { id: 2, tenant_id: 1, is_tenant_admin: false };
    let users = vec![owner, mate];
    let demote = SetTenantAdminRequest { is_tenant_admin: false };
    assert_eq!(set_tenant_admin(true, &users, Some(owner), &demote).err(), Some(ApiError::BadRequest(BadRequest::LastAdminDemotion)));
    let promoted = set_tenant_admin(true, &users, Some(mate), &SetTenantAdminRequest { is_tenant_admin: true }).unwrap();
    let users2 = vec![owner, promoted];
    let demoted = set_tenant_admin(true, &users2, Some(owner), &demote).unwrap();
    assert!(!demoted.is_tenant_admin);
    assert_eq!(set_tenant_admin(false, &users, Some(mate), &demote).err(), Some(ApiError::Forbidden));
    assert_eq!(set_tenant_admin(true, &users, None, &demote).err(), Some(ApiError::NotFound));
}

#[test]
fn revoking_sessions_removes_only_the_users() {
    let s1 = SessionRecord { tenant_id: 1, user_id: Some(2), client_user_id: None, expires_at: 10 };
    let s2 = SessionRecord { tenant_id: 1, user_id: Some(3), client_user_id: None, expires_at: 10 };
    let s3 = SessionRecord { tenant_id: 1, user_id: None, client_user_id: Some(2), expires_at: 10 };
    let rest = revoke_user_sessions(true, true, &vec![s1, s2, s1, s3], 2).unwrap();
    assert_eq!(rest, vec![s2, s3]);
    assert_eq!(revoke_user_sessions(true, false, &vec![s1], 2).err(), Some(ApiError::NotFound));
    assert_eq!(revoke_user_sessions(false, true, &vec![s1], 2).err(), Some(ApiError::Forbidden));
}

#[test]
fn tenant_lifecycle_transitions() {
    let t = TenantLifecycle { id: 1, status: TenantStatus::Active, paused_at: None, deleted_at: None };
    let paused = pause_tenant(Some(t), 5).unwrap();
    assert_eq!(paused.paused_at, Some(5));
    assert_eq!(pause_tenant(Some(paused), 6).err(), Some(ApiError::BadRequest(BadRequest::TenantTransitionNotAllowed)));
    let resumed = resume_tenant(Some(paused), 7).unwrap();
    assert_eq!(resumed, t);
    let deleted = delete_tenant(Some(paused), 8).unwrap();
    assert_eq!(deleted.status, TenantStatus::Deleted);
    assert_eq!(deleted.deleted_at, Some(8));
    assert_eq!(resume_tenant(Some(deleted), 9).err(), Some(ApiError::BadRequest(BadRequest::TenantTransitionNotAllowed)));
    assert_eq!(delete_tenant(None, 9).err(), Some(ApiError::NotFound));
}

#[test]
fn tenant_settings_update() {
    let current = TenantSettings { region_profile: String::from("india"), workstream_labels: String::from("{}") };
    let req = UpdateTenantSettingsRequest { region_profile: Some(String::from("uk")), workstream_labels: None };
    assert_eq!(update_tenant_settings(true, &req, None).err(), Some(ApiError::BadRequest(BadRequest::UnsupportedRegionProfile)));
    let req = UpdateTenantSettingsRequest { region_profile: None, workstream_labels: Some(String::from("{\"design\":\"Studio\"}")) };
    assert_eq!(update_tenant_settings(false, &req, None).err(), Some(ApiError::Forbidden));
    let s = update_tenant_settings(true, &req, Some(current)).unwrap();
    assert_eq!(s.region_profile, "india");
    assert_eq!(s.workstream_labels, "{\"design\":\"Studio\"}");
}

#[test]
fn organisation_records() {
    assert_eq!(create_business_unit(&CreateBusinessUnitRequest { name: String::from("") }, 1).err(), Some(ApiError::BadRequest(BadRequest::NameRequired)));
    assert!(create_business_unit(&CreateBusinessUnitRequest { name: String::from("HQ") }, 1).is_ok());
    let a = assign_role(&AssignRoleRequest { user_id: 2, role: String::from("finance") }, 100, true, true).unwrap();
    assert_eq!(a, RoleAssignment { user_id: 2, business_unit_id: 100, role: Role::Finance });
    assert_eq!(assign_role(&AssignRoleRequest { user_id: 2, role: String::from("boss") }, 100, true, true).err(), Some(ApiError::BadRequest(BadRequest::InvalidRole)));
    assert_eq!(assign_role(&AssignRoleRequest { user_id: 2, role: String::from("delivery") }, 100, false, true).err(), Some(ApiError::NotFound));
    assert_eq!(assign_role(&AssignRoleRequest { user_id: 2, role: String::from("delivery") }, 100, true, false).err(), Some(ApiError::BadRequest(BadRequest::UserNotFound)));
    assert!(create_client(&CreateClientRequest { name: String::from("Acme") }, &vec![], 1, true, 9).is_ok());
    assert_eq!(create_client(&CreateClientRequest { name: String::from("Acme") }, &vec![], 1, false, 9).err(), Some(ApiError::Forbidden));
    let cu = CreateClientUserRequest { email: String::from("c@d.e"), password: String::from("short") };
    assert_eq!(create_client_user(&cu, &vec![], 1, true, 9, true, 11).err(), Some(ApiError::BadRequest(BadRequest::PasswordTooShort)));
    let cu = CreateClientUserRequest { password: String::from("longenough"), ..cu };
    assert_eq!(create_client_user(&cu, &vec![], 1, true, 9, false, 11).err(), Some(ApiError::NotFound));
    assert_eq!(create_client_user(&cu, &vec![], 1, true, 9, true, 11).unwrap().client_id, 9);
}

#[test]
fn notifications_reach_team_and_admins_once() {
    let a = vec![
        RoleAssignment { user_id: 2, business_unit_id: 100, role: Role::Delivery },
        RoleAssignment { user_id: 2, business_unit_id: 100, role: Role::Finance },
        RoleAssignment { user_id: 3, business_unit_id: 200, role: Role::Delivery },
    ];
    let mut r = notification_recipients(&a, 100, &vec![1, 2]);
    r.sort();
    assert_eq!(r, vec![1, 2]);
    let n = vec![
        Notification { id: 1, recipient_user_id: 2, project_id: Some(7), schedule_task_id: Some(8), is_read: false, read_at: None, created_at: 10 },
        Notification { id: 2, recipient_user_id: 3, project_id: Some(7), schedule_task_id: Some(8), is_read: false, read_at: None, created_at: 20 },
        Notification { id: 3, recipient_user_id: 2, project_id: None, schedule_task_id: None, is_read: true, read_at: Some(5), created_at: 30 },
    ];
    let mine = list_my_notifications(&n, 2, &ListNotificationsQuery { unread_only: false });
    assert_eq!(mine.iter().map(|x| x.id).collect::<Vec<_>>(), vec![3, 1]);
    assert_eq!(list_my_notifications(&n, 2, &ListNotificationsQuery { unread_only: true }), vec![n[0]]);
    let read = mark_notification_read(Some(n[0]), 2, 99).unwrap();
    assert!(read.is_read);
    assert_eq!(read.read_at, Some(99));
    assert_eq!(read.schedule_task_id, Some(8));
    assert_eq!(mark_notification_read(Some(n[1]), 2, 99).err(), Some(ApiError::NotFound));
}

#[test]
fn configuration_defaults() {
    let c = config_from_values(Some(String::from("postgres://app")), Some(String::from("postgres://admin")), None, None, None).unwrap();
    assert_eq!(c.bind_addr, "0.0.0.0:8080");
    assert!(c.cookie_secure);
    assert_eq!(c.cors_origin, "http://192.168.1.4:5173");
    let c = config_from_values(Some(String::from("a")), Some(String::from("b")), Some(String::from("127.0.0.1:1")), Some(String::from("false")), Some(String::from("http://x"))).unwrap();
    assert!(!c.cookie_secure);
    assert_eq!(c.bind_addr, "127.0.0.1:1");
    let c = config_from_values(Some(String::from("a")), Some(String::from("b")), None, Some(String::from("FALSE")), None).unwrap();
    assert!(c.cookie_secure);
    assert_eq!(config_from_values(None, None, None, None, None).err(), Some(ConfigError::DatabaseUrlAppNotSet));
    assert_eq!(config_from_values(Some(String::from("a")), None, None, None, None).err(), Some(ConfigError::DatabaseUrlAdminNotSet));
}

#[test]
fn hashed_password_verifies_and_rejects_others() {
    let stored = hash_password("correct horse battery").expect("the system random source works");
    assert_eq!(stored.len(), 64 + 1 + 64);
    assert_eq!(stored.chars().nth(64), Some('$'));
    assert!(verify_password("correct horse battery", &stored));
    assert!(!verify_password("correct horse batterY", &stored));
    assert!(!verify_password("", &stored));
    assert!(!verify_password("correct horse battery", "not-a-stored-hash"));
}

#[test]
fn two_hashes_of_one_password_differ_by_salt() {
    let a = hash_password("s3cret-password").unwrap();
    let b = hash_password("s3cret-password").unwrap();
    assert_ne!(a, b);
    assert!(verify_password("s3cret-password", &a));
    assert!(verify_password("s3cret-password", &b));
}

#[test]
fn sessions_of_inactive_tenants_do_not_authenticate() {
    let user = SessionRecord { tenant_id: 1, user_id: Some(2), client_user_id: None, expires_at: 100 };
    let client = SessionRecord { tenant_id: 1, user_id: None, client_user_id: Some(8), expires_at: 100 };
    for status in [Some(TenantStatus::Paused), Some(TenantStatus::Deleted), None] {
        assert_eq!(authenticate_user(Some(user), 50, status).err(), Some(ApiError::Unauthorized));
        assert_eq!(authenticate_client_user(Some(client), 50, status, Some(9)).err(), Some(ApiError::Unauthorized));
    }
    assert!(authenticate_user(Some(user), 50, Some(TenantStatus::Active)).is_ok());
}

#[test]
fn issue_session_keeps_the_token_and_fails_out_of_range() {
    let s = issue_session("abc".to_string(), 1, Some(2), None, 0).unwrap();
    assert_eq!(s.token, "abc");
    assert_eq!(s.token_hash, hash_token("abc"));
    assert_eq!(s.record.expires_at, 30 * MICROS_PER_DAY);
    assert_eq!(issue_session("abc".to_string(), 1, Some(2), None, i64::MAX).err(), Some(ApiError::Internal));
}

#[test]
fn stored_password_for_is_hex_salt_and_digest() {
    let stored = stored_password_for(&[0xab, 0x01], "pw");
    assert!(stored.starts_with("ab01$"));
    assert_eq!(stored.len(), 4 + 1 + 64);
    let salt = [7u8; 32];
    let full = stored_password_for(&salt, "hunter22");
    assert!(verify_password("hunter22", &full));
    assert!(!verify_password("hunter23", &full));
}

#[test]
fn platform_sessions_expire() {
    let s = PlatformSession { platform_admin_id: 4, expires_at: 100 };
    assert_eq!(authenticate_platform_admin(Some(s), 100), Ok(4));
    assert_eq!(authenticate_platform_admin(Some(s), 101).err(), Some(ApiError::Unauthorized));
    assert_eq!(authenticate_platform_admin(None, 0).err(), Some(ApiError::Unauthorized));
}

#[test]
fn shift_notifications_go_unread_to_the_team_and_admins() {
    let a = vec![
        RoleAssignment { user_id: 1, business_unit_id: 10, role: Role::Delivery },
        RoleAssignment { user_id: 2, business_unit_id: 20, role: Role::Delivery },
    ];
    let message = schedule_shift_message("Tiling", Some("2026-11-09"));
    assert_eq!(message, "Schedule task 'Tiling' shifted to start 2026-11-09 due to a dependency delay.");
    assert_eq!(
        schedule_shift_message("Tiling", None),
        "Schedule task 'Tiling' shifted to start an unspecified date due to a dependency delay."
    );
    let rows = notify_project_team(&a, 10, &vec![9], 7, 8, &message);
    let mut to: Vec<u128> = rows.iter().map(|n| n.recipient_user_id).collect();
    to.sort();
    assert_eq!(to, vec![1, 9]);
    for n in &rows {
        assert_eq!((n.project_id, n.schedule_task_id, n.is_read, n.read_at), (7, 8, false, None));
        assert_eq!(n.message, message);
    }
}
