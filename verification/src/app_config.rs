//! The settings of the single-binary deployment: where it listens and how it
//! logs.
use vstd::prelude::*;
use crate::config::var;
use crate::env::{env_value, flag_set, read_flag, read_text, read_unsigned, text_or, unsigned_or};
use crate::text::{decimal, push_decimal, push_lit};

verus! {

/// Where the service listens.
pub struct ServerConfig {
    pub host: String,
    pub port: u16,
    pub cookie_secure: bool,
}

impl Default for ServerConfig {
    fn default() -> (r: Self)
        ensures
            r.host@ == "0.0.0.0"@,
            r.port == 8080,
            !r.cookie_secure,
    {
        ServerConfig { host: "0.0.0.0".to_string(), port: 8080, cookie_secure: false }
    }
}

/// Where and how much the service logs.
pub struct LogConfig {
    pub log_file_path: String,
    pub level: String,
}

impl Default for LogConfig {
    fn default() -> (r: Self)
        ensures
            r.log_file_path@ == "app.log"@,
            r.level@ == "info"@,
    {
        LogConfig { log_file_path: "app.log".to_string(), level: "info".to_string() }
    }
}

/// All settings.
pub struct AppConfig {
    pub server: ServerConfig,
    pub log: LogConfig,
}

impl AppConfig {
    /// Reads the settings from environment variables: `HOST` (default
    /// `0.0.0.0`), `PORT` (a `u16`, default 8080), `COOKIE_SECURE` (set only
    /// by `true`), `LOG_FILE` (default `app.log`) and `LOG_LEVEL` (default
    /// `info`).  It never fails.
    pub fn load(vars: &[(String, String)]) -> (r: Result<Self, String>)
        ensures
            r is Ok,
            r matches Ok(c) && {
                &&& c.server.host@ == text_or(var(vars@, "HOST"@), "0.0.0.0"@)
                &&& c.server.port == unsigned_or(var(vars@, "PORT"@), u16::MAX as nat, 8080)
                &&& c.server.cookie_secure == flag_set(var(vars@, "COOKIE_SECURE"@))
                &&& c.log.log_file_path@ == text_or(var(vars@, "LOG_FILE"@), "app.log"@)
                &&& c.log.level@ == text_or(var(vars@, "LOG_LEVEL"@), "info"@)
            },
    {
        let server = ServerConfig {
            host: read_text(env_value(vars, "HOST"), "0.0.0.0"),
            port: read_unsigned(env_value(vars, "PORT"), u16::MAX as u64, 8080, false) as u16,
            cookie_secure: read_flag(env_value(vars, "COOKIE_SECURE")),
        };
        let log = LogConfig {
            log_file_path: read_text(env_value(vars, "LOG_FILE"), "app.log"),
            level: read_text(env_value(vars, "LOG_LEVEL"), "info"),
        };
        Ok(AppConfig { server, log })
    }
}

impl ServerConfig {
    /// The address to listen on: `host:port`.
    pub fn bind_address(&self) -> (r: String)
        ensures
            r@ == self.host@ + ":"@ + decimal(self.port as nat),
    {
        let mut s = String::new();
        push_lit(&mut s, self.host.as_str());
        push_lit(&mut s, ":");
        push_decimal(&mut s, self.port as u64);
        s
    }
}

/// Where the database lives: `DATABASE_URL`, else the SQLite file under
/// `data/`.
pub fn database_url(vars: &[(String, String)]) -> (r: String)
    ensures
        r@ == text_or(var(vars@, "DATABASE_URL"@), "sqlite://data/substore.db"@),
{
    read_text(env_value(vars, "DATABASE_URL"), "sqlite://data/substore.db")
}

/// The administrator to create at start-up: when none exists (or they
/// cannot be counted), the one named by `ADMIN_USER` with the password
/// `ADMIN_PASSWORD`, both `admin` by default.
pub fn default_admin(admin_count: Option<i64>, vars: &[(String, String)]) -> (r: Option<(String, String)>)
    ensures
        match admin_count {
            Some(c) if c != 0 => r is None,
            _ => r matches Some(p) && p.0@ == text_or(var(vars@, "ADMIN_USER"@), "admin"@) && p.1@
                == text_or(var(vars@, "ADMIN_PASSWORD"@), "admin"@),
        },
{
    let count = match admin_count {
        Some(c) => c,
        None => 0,
    };
    if count != 0 {
        return None;
    }
    Some((read_text(env_value(vars, "ADMIN_USER"), "admin"), read_text(env_value(vars, "ADMIN_PASSWORD"), "admin")))
}

} // verus!
