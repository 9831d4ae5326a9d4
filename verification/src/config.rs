use vstd::prelude::*;

use vstd::string::StringExecFns;

use crate::text::{dec_digits, dec_signed, i64_to_string, u64_to_string};

verus! {

/// Application-level settings. They are read from the process environment
/// by the surrounding program and handed in as plain values.
#[derive(Clone, Debug)]
pub struct AppConfig {
    pub host: String,
    pub port: u16,
    pub environment: String,
    pub app_name: String,
    pub app_version: String,
}

impl AppConfig {
    pub fn is_production(&self) -> (r: bool)
        ensures
            r == (self.environment@ == "production"@),
    {
        self.environment == "production".to_owned()
    }

    pub fn is_development(&self) -> (r: bool)
        ensures
            r == (self.environment@ == "development"@),
    {
        self.environment == "development".to_owned()
    }

    /// `<host>:<port>`, the address the server binds.
    pub fn server_address(&self) -> (r: String)
        ensures
            r@ == self.host@ + ":"@ + dec_digits(self.port as nat),
    {
        let mut s = String::new();
        s.append(self.host.as_str());
        s.append(":");
        let p = u64_to_string(self.port as u64);
        s.append(p.as_str());
        proof {
            assert(s@ =~= self.host@ + ":"@ + dec_digits(self.port as nat));
        }
        s
    }
}

/// Settings of the backing store connection.
#[derive(Clone, Debug)]
pub struct RedisConfig {
    pub host: String,
    pub port: u16,
    pub username: Option<String>,
    pub password: Option<String>,
    pub db: i64,
    pub pool_size: usize,
}

/// The credential part of a store URL: `user:password@`, `:password@`, or
/// nothing at all when no password is set.
pub open spec fn spec_auth_part(username: Option<Seq<char>>, password: Option<Seq<char>>) -> Seq<
    char,
> {
    match (username, password) {
        (Some(u), Some(p)) => u + ":"@ + p + "@"@,
        (None, Some(p)) => ":"@ + p + "@"@,
        _ => Seq::empty(),
    }
}

/// `redis://<auth><host>:<port>/<db>`.
pub open spec fn spec_redis_url(c: RedisConfig) -> Seq<char> {
    "redis://"@ + spec_auth_part(
        match c.username {
            Some(ref u) => Some(u@),
            None => None,
        },
        match c.password {
            Some(ref p) => Some(p@),
            None => None,
        },
    ) + c.host@ + ":"@ + dec_digits(c.port as nat) + "/"@ + dec_signed(c.db as int)
}

impl RedisConfig {
    /// The connection URL of the configured store.
    pub fn build_redis_url(&self) -> (r: String)
        ensures
            r@ == spec_redis_url(*self),
    {
        let mut s = String::new();
        s.append("redis://");
        match (&self.username, &self.password) {
            (Some(u), Some(p)) => {
                s.append(u.as_str());
                s.append(":");
                s.append(p.as_str());
                s.append("@");
            },
            (None, Some(p)) => {
                s.append(":");
                s.append(p.as_str());
                s.append("@");
            },
            _ => {},
        }
        s.append(self.host.as_str());
        s.append(":");
        let port = u64_to_string(self.port as u64);
        s.append(port.as_str());
        s.append("/");
        let db = i64_to_string(self.db);
        s.append(db.as_str());
        proof {
            assert(s@ =~= spec_redis_url(*self));
        }
        s
    }
}

} // verus!
