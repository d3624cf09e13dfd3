//! Service configuration from its settings (environment variables in the
//! server), with the defaults the service runs on.
use vstd::prelude::*;
use crate::text::str_is;

verus! {

/// The service's configuration.
pub struct AppConfig {
    /// Connection string for the application role (row-level security
    /// enforced).
    pub database_url_app: String,
    /// Connection string for the elevated role used for cross-tenant
    /// lookups.
    pub database_url_admin: String,
    pub bind_addr: String,
    /// Whether session cookies carry the `Secure` flag.
    pub cookie_secure: bool,
    /// The allowed CORS origin of the frontend.
    pub cors_origin: String,
}

/// A required setting that is missing.
#[derive(Clone, Copy, Debug, PartialEq, Eq, Structural)]
pub enum ConfigError {
    DatabaseUrlAppNotSet,
    DatabaseUrlAdminNotSet,
}

/// Builds the configuration from the settings given (`None`: not set). Both
/// database URLs are required (the application one is checked first);
/// `bind_addr` defaults to `0.0.0.0:8080`, `cors_origin` to
/// `http://192.168.1.4:5173`; cookies are secure unless the setting is
/// exactly `"false"`.
pub fn config_from_values(
    database_url_app: Option<String>,
    database_url_admin: Option<String>,
    bind_addr: Option<String>,
    cookie_secure: Option<String>,
    cors_origin: Option<String>,
) -> (r: Result<AppConfig, ConfigError>)
    ensures
        database_url_app is None ==> (r matches Err(e) && e == ConfigError::DatabaseUrlAppNotSet),
        database_url_app is Some && database_url_admin is None ==> (r matches Err(e) && e
            == ConfigError::DatabaseUrlAdminNotSet),
        database_url_app is Some && database_url_admin is Some ==> (r matches Ok(c) && c.database_url_app@
            == database_url_app.unwrap()@ && c.database_url_admin@ == database_url_admin.unwrap()@
            && c.bind_addr@ == (match bind_addr {
            Some(b) => b@,
            None => "0.0.0.0:8080"@,
        }) && c.cookie_secure == (match cookie_secure {
            Some(v) => v@ != "false"@,
            None => true,
        }) && c.cors_origin@ == (match cors_origin {
            Some(o) => o@,
            None => "http://192.168.1.4:5173"@,
        })),
{
    let app = match database_url_app {
        None => return Err(ConfigError::DatabaseUrlAppNotSet),
        Some(a) => a,
    };
    let admin = match database_url_admin {
        None => return Err(ConfigError::DatabaseUrlAdminNotSet),
        Some(a) => a,
    };
    let bind = match bind_addr {
        Some(b) => b,
        None => String::from_str("0.0.0.0:8080"),
    };
    let secure = match &cookie_secure {
        Some(v) => !str_is(v.as_str(), "false"),
        None => true,
    };
    let cors = match cors_origin {
        Some(o) => o,
        None => String::from_str("http://192.168.1.4:5173"),
    };
    Ok(AppConfig { database_url_app: app, database_url_admin: admin, bind_addr: bind, cookie_secure: secure, cors_origin: cors })
}

} // verus!
