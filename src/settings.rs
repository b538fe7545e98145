use crate::text::constant_time_eq;
use vstd::prelude::*;

verus! {

/// Where the service listens and how it is reached.
#[derive(Clone, Debug)]
pub struct ApplicationSettings {
    pub port: u16,
    pub host: String,
    pub base_url: String,
    pub protocol: String,
}

/// The mail relay that activation codes are sent through.
#[derive(Clone, Debug)]
pub struct EmailSettings {
    pub host: String,
    pub host_user: String,
    pub host_user_password: String,
}

/// Lifetimes, in minutes, of activation codes (`token_expiration`) and of
/// sessions and their cookies (`cookie_expiration`).
#[derive(Clone, Copy, Debug)]
pub struct Secret {
    pub token_expiration: i64,
    pub cookie_expiration: i64,
}

/// The market-data service that tag prices come from.
#[derive(Clone, Debug)]
pub struct CoinGeckoSettings {
    pub api_url: String,
    pub api_key: String,
}

/// The administrator account seeded at start-up.
#[derive(Clone, Debug)]
pub struct SuperUser {
    pub email: String,
    pub password: String,
    pub first_name: String,
    pub last_name: String,
}

/// Everything the service is configured with.
#[derive(Clone, Debug)]
pub struct Settings {
    pub application: ApplicationSettings,
    pub debug: bool,
    pub email: EmailSettings,
    pub frontend_url: String,
    pub interval_of_coin_update: u64,
    pub superuser: SuperUser,
    pub secret: Secret,
    pub coingecko: CoinGeckoSettings,
}

/// A lifetime in minutes as seconds; `None` when it is negative or the
/// seconds do not fit in a `u64`.
pub open spec fn minutes_as_seconds(minutes: i64) -> Option<u64> {
    if 0 <= minutes && minutes * 60 <= u64::MAX {
        Some((minutes * 60) as u64)
    } else {
        None
    }
}

pub fn minutes_to_seconds(minutes: i64) -> (r: Option<u64>)
    ensures
        r == minutes_as_seconds(minutes),
{
    if minutes < 0 {
        None
    } else {
        let m = minutes as u64;
        if m > u64::MAX / 60 {
            None
        } else {
            Some(m * 60)
        }
    }
}

impl Secret {
    /// How long an activation code stays valid, in seconds.
    pub fn activation_ttl_seconds(&self) -> (r: Option<u64>)
        ensures
            r == minutes_as_seconds(self.token_expiration),
    {
        minutes_to_seconds(self.token_expiration)
    }

    /// How long a session and its cookie last, in seconds.
    pub fn session_ttl_seconds(&self) -> (r: Option<u64>)
        ensures
            r == minutes_as_seconds(self.cookie_expiration),
    {
        minutes_to_seconds(self.cookie_expiration)
    }
}

/// What `str::to_lowercase` makes of a text.
pub uninterp spec fn lowercase_of(s: Seq<char>) -> Seq<char>;

/// Relies on `str::to_lowercase`: the Unicode lowercase of the text.
#[verifier::external_body]
fn to_lowercase(s: &str) -> (r: String)
    ensures
        r@ == lowercase_of(s@),
{
    s.to_lowercase()
}

/// The runtime environment, which picks the configuration file.
#[derive(Clone, Copy, Debug, PartialEq, Eq, Structural)]
pub enum Environment {
    Development,
    Production,
}

pub open spec fn environment_named(s: Seq<char>) -> Option<Environment> {
    if s == "development"@ {
        Some(Environment::Development)
    } else if s == "production"@ {
        Some(Environment::Production)
    } else {
        None
    }
}

impl Environment {
    pub fn as_str(&self) -> (r: &'static str)
        ensures
            r@ == (match self {
                Environment::Development => "development"@,
                Environment::Production => "production"@,
            }),
    {
        match self {
            Environment::Development => "development",
            Environment::Production => "production",
        }
    }

    /// Reads an environment name in any letter case; the error names what
    /// was given.
    pub fn try_from(s: String) -> (r: Result<Environment, String>)
        ensures
            match environment_named(lowercase_of(s@)) {
                Some(e) => r == Ok::<Environment, String>(e),
                None => r matches Err(m) && m@ == lowercase_of(s@)
                    + " is not a supported environment. Use either `development` or `production`."@,
            },
    {
        let lowered = to_lowercase(s.as_str());
        if constant_time_eq(lowered.as_str(), "development") {
            Ok(Environment::Development)
        } else if constant_time_eq(lowered.as_str(), "production") {
            Ok(Environment::Production)
        } else {
            let message = lowered.concat(
                " is not a supported environment. Use either `development` or `production`.",
            );
            Err(message)
        }
    }
}

} // verus!
