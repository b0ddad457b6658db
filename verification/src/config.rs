//! Process-wide configuration, loaded once at startup and read-only for
//! the life of the process. The file and environment access that fills
//! it lives outside this crate; the logic here only reads plain values.

use vstd::prelude::*;
use vstd::string::StringExecFns;

verus! {

pub struct Config {
    pub host: Host,
    pub database: Database,
    pub hcaptcha: HCaptcha,
}

pub struct Host {
    pub bind: String,
    pub hostname: String,
    /// Shared secret compared against the admin token header.
    pub admin_token: String,
}

pub struct Database {
    pub username: String,
    pub password: String,
    pub host: String,
    pub port: u16,
    pub database: String,
}

/// Credentials for the external human-verification service.
pub struct HCaptcha {
    pub site_key: String,
    pub secret: String,
}

impl Clone for Config {
    fn clone(&self) -> (r: Self)
        ensures
            r == *self,
    {
        Config {
            host: self.host.clone(),
            database: self.database.clone(),
            hcaptcha: self.hcaptcha.clone(),
        }
    }
}

impl Clone for Host {
    fn clone(&self) -> (r: Self)
        ensures
            r == *self,
    {
        Host {
            bind: self.bind.clone(),
            hostname: self.hostname.clone(),
            admin_token: self.admin_token.clone(),
        }
    }
}

impl Clone for Database {
    fn clone(&self) -> (r: Self)
        ensures
            r == *self,
    {
        Database {
            username: self.username.clone(),
            password: self.password.clone(),
            host: self.host.clone(),
            port: self.port,
            database: self.database.clone(),
        }
    }
}

impl Clone for HCaptcha {
    fn clone(&self) -> (r: Self)
        ensures
            r == *self,
    {
        HCaptcha { site_key: self.site_key.clone(), secret: self.secret.clone() }
    }
}

/// The bind address used when the configuration names none.
pub fn default_bind() -> (r: String)
    ensures
        r@ == "127.0.0.1:8080"@,
{
    String::from_str("127.0.0.1:8080")
}

/// The database port used when the configuration names none.
pub fn default_port() -> (r: u16)
    ensures
        r == 5432,
{
    5432
}

} // verus!
