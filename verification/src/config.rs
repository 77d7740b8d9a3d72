//! The credentials and the site of the remote service, checked once and
//! then handed on as one value.

use vstd::prelude::*;
use vstd::string::*;
use crate::error::{AppError, ErrorKind};

verus! {

/// What a run needs to know of the remote service.
#[derive(Debug)]
pub struct Config {
    /// The API key; never empty.
    pub api_key: String,
    /// The application key; never empty.
    pub app_key: String,
    /// The site of the service.
    pub site: String,
}

/// The site that is used where none is given.
pub open spec fn default_site() -> Seq<char> {
    "datadoghq.com"@
}

/// What is wrong with the two keys, if anything: a key that is not given
/// comes before one that is given but empty, and the API key before the
/// application key.
pub open spec fn credentials_fault(api_key: Option<Seq<char>>, app_key: Option<Seq<char>>) -> Option<
    Seq<char>,
> {
    if api_key is None {
        Some("DD_API_KEY environment variable not set"@)
    } else if app_key is None {
        Some("DD_APP_KEY environment variable not set"@)
    } else if api_key->0.len() == 0 {
        Some("DD_API_KEY is empty"@)
    } else if app_key->0.len() == 0 {
        Some("DD_APP_KEY is empty"@)
    } else {
        None
    }
}

/// The text of an optional string.
pub open spec fn opt_text(s: Option<String>) -> Option<Seq<char>> {
    match s {
        Some(t) => Some(t@),
        None => None,
    }
}

/// Checks the two keys and settles the site. Both keys must be given and
/// must not be empty; a missing site is the default one.
pub fn load_config(api_key: Option<String>, app_key: Option<String>, site: Option<String>) -> (r:
    Result<Config, AppError>)
    ensures
        match r {
            Ok(c) => {
                &&& credentials_fault(opt_text(api_key), opt_text(app_key)) is None
                &&& c.api_key@ == api_key->0@
                &&& c.app_key@ == app_key->0@
                &&& c.api_key@.len() > 0
                &&& c.app_key@.len() > 0
                &&& c.site@ == if site is Some {
                    site->0@
                } else {
                    default_site()
                }
            },
            Err(e) => {
                &&& e.kind() == ErrorKind::Config
                &&& credentials_fault(opt_text(api_key), opt_text(app_key)) == Some(e.detail())
            },
        },
{
    let api = match api_key {
        Some(k) => k,
        None => {
            return Err(
                AppError::Config(String::from_str("DD_API_KEY environment variable not set")),
            );
        },
    };
    let app = match app_key {
        Some(k) => k,
        None => {
            return Err(
                AppError::Config(String::from_str("DD_APP_KEY environment variable not set")),
            );
        },
    };
    if api.as_str().unicode_len() == 0 {
        return Err(AppError::Config(String::from_str("DD_API_KEY is empty")));
    }
    if app.as_str().unicode_len() == 0 {
        return Err(AppError::Config(String::from_str("DD_APP_KEY is empty")));
    }
    let site = match site {
        Some(s) => s,
        None => String::from_str("datadoghq.com"),
    };
    Ok(Config { api_key: api, app_key: app, site })
}

} // verus!
