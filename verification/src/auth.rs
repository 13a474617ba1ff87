//! Who may use the site.
use axum::Router;
use config::{Config, ConfigError};
use vstd::prelude::*;

use crate::settings::{get_bool, get_string};
use crate::site::Layer;
use crate::web::layer_basic_auth;

verus! {

/// What a user has to present.
pub struct Credentials {
    /// The user's name.
    pub username: String,
    /// The password.
    pub password: String,
}

/// Credentials are asked for, but the settings lack one of them.
pub enum MissingCredential {
    /// The user's name.
    Username(ConfigError),
    /// The password.
    Password(ConfigError),
}

/// The key of the setting that switches basic authentication on.
pub open spec fn enabled_key() -> Seq<char> {
    "apiserver.basicAuth.enabled"@
}

/// The key of the setting that holds the user's name.
pub open spec fn username_key() -> Seq<char> {
    "apiserver.basicAuth.username"@
}

/// The key of the setting that holds the password.
pub open spec fn password_key() -> Seq<char> {
    "apiserver.basicAuth.password"@
}

/// Credentials are asked for. They are not unless the settings say so.
pub open spec fn is_enabled(cfg: Config) -> bool {
    let bools = crate::settings::bools_of(cfg);
    bools.contains_key(enabled_key()) && bools[enabled_key()]
}

/// The settings name the user.
pub open spec fn names_user(cfg: Config) -> bool {
    crate::settings::strings_of(cfg).contains_key(username_key())
}

/// The settings hold the password.
pub open spec fn holds_password(cfg: Config) -> bool {
    crate::settings::strings_of(cfg).contains_key(password_key())
}

/// The layer that asks for the credentials of the settings.
pub open spec fn auth_layer(cfg: Config) -> Layer {
    Layer::BasicAuth {
        username: crate::settings::strings_of(cfg)[username_key()],
        password: crate::settings::strings_of(cfg)[password_key()],
    }
}

/// The layers of a site after `protect`.
pub open spec fn protected(layers: Seq<Layer>, cfg: Config) -> Seq<Layer> {
    if is_enabled(cfg) {
        layers.push(auth_layer(cfg))
    } else {
        layers
    }
}

/// Whether and why `protect` fails.
pub open spec fn is_missing(missing: MissingCredential, cfg: Config) -> bool {
    is_enabled(cfg) && match missing {
        MissingCredential::Username(_) => !names_user(cfg),
        MissingCredential::Password(_) => names_user(cfg) && !holds_password(cfg),
    }
}

/// The credentials that the site asks for, if it asks for any.
pub fn credentials(cfg: &Config) -> (r: Result<Option<Credentials>, MissingCredential>)
    ensures
        match r {
            Ok(None) => !is_enabled(*cfg),
            Ok(Some(c)) => {
                &&& is_enabled(*cfg)
                &&& names_user(*cfg)
                &&& holds_password(*cfg)
                &&& c.username@ == crate::settings::strings_of(*cfg)[username_key()]
                &&& c.password@ == crate::settings::strings_of(*cfg)[password_key()]
            },
            Err(missing) => is_missing(missing, *cfg),
        },
{
    proof {
        reveal_strlit("apiserver.basicAuth.enabled");
        reveal_strlit("apiserver.basicAuth.username");
        reveal_strlit("apiserver.basicAuth.password");
        reveal_with_fuel(crate::settings::plain_up_to, 29);
        crate::settings::lemma_plain_key(enabled_key());
        crate::settings::lemma_plain_key(username_key());
        crate::settings::lemma_plain_key(password_key());
    }
    let enabled = match get_bool(cfg, "apiserver.basicAuth.enabled") {
        Ok(enabled) => enabled,
        Err(_) => false,
    };
    if !enabled {
        return Ok(None);
    }
    let username = match get_string(cfg, "apiserver.basicAuth.username") {
        Ok(username) => username,
        Err(err) => return Err(MissingCredential::Username(err)),
    };
    let password = match get_string(cfg, "apiserver.basicAuth.password") {
        Ok(password) => password,
        Err(err) => return Err(MissingCredential::Password(err)),
    };
    Ok(Some(Credentials { username, password }))
}

/// Asks for credentials before anything of the site, where the settings say
/// so.
pub fn protect(router: Router, cfg: &Config) -> (r: Result<Router, MissingCredential>)
    ensures
        match r {
            Ok(site) => {
                &&& is_enabled(*cfg) ==> names_user(*cfg) && holds_password(*cfg)
                &&& crate::web::content_of(site) == crate::web::content_of(router)
                &&& crate::web::layers_of(site) == protected(crate::web::layers_of(router), *cfg)
            },
            Err(missing) => is_missing(missing, *cfg),
        },
{
    match credentials(cfg) {
        Ok(None) => Ok(router),
        Ok(Some(c)) => Ok(layer_basic_auth(router, c.username.as_str(), c.password.as_str())),
        Err(missing) => Err(missing),
    }
}

} // verus!
