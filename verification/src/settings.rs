//! The settings that the site is built from.
use config::{Config, ConfigError};
use vstd::prelude::*;

verus! {

#[verifier::external_type_specification]
#[verifier::external_body]
pub struct ExConfig(config::Config);

#[verifier::external_type_specification]
#[verifier::external_body]
pub struct ExConfigError(config::ConfigError);

/// The settings that can be read as a text, by key.
pub uninterp spec fn strings_of(cfg: Config) -> Map<Seq<char>, Seq<char>>;

/// The settings that can be read as a boolean, by key.
pub uninterp spec fn bools_of(cfg: Config) -> Map<Seq<char>, bool>;

/// `config::Config::get_string`: the setting as a text, or an error where
/// there is none. A negative index in a key can make it panic.
#[verifier::external_body]
pub(crate) fn get_string(cfg: &Config, key: &str) -> (value: Result<String, ConfigError>)
    requires
        !key@.contains('['),
    ensures
        value is Ok <==> strings_of(*cfg).contains_key(key@),
        value matches Ok(v) ==> v@ == strings_of(*cfg)[key@],
{
    cfg.get_string(key)
}

/// `config::Config::get_bool`: the setting as a boolean, or an error where
/// there is none. A negative index in a key can make it panic.
#[verifier::external_body]
pub(crate) fn get_bool(cfg: &Config, key: &str) -> (value: Result<bool, ConfigError>)
    requires
        !key@.contains('['),
    ensures
        value is Ok <==> bools_of(*cfg).contains_key(key@),
        value matches Ok(v) ==> v == bools_of(*cfg)[key@],
{
    cfg.get_bool(key)
}

/// The first `n` characters of `key` hold no bracket, told character by
/// character.
pub(crate) open spec fn plain_up_to(key: Seq<char>, n: nat) -> bool
    decreases n,
{
    n == 0 || (key[n - 1] != '[' && plain_up_to(key, (n - 1) as nat))
}

proof fn lemma_plain_up_to(key: Seq<char>, n: nat)
    requires
        n <= key.len(),
        plain_up_to(key, n),
    ensures
        forall|i: int| 0 <= i < n ==> key[i] != '[',
    decreases n,
{
    if n > 0 {
        lemma_plain_up_to(key, (n - 1) as nat);
    }
}

/// A key without brackets does not index into a list.
pub(crate) proof fn lemma_plain_key(key: Seq<char>)
    requires
        plain_up_to(key, key.len()),
    ensures
        !key.contains('['),
{
    lemma_plain_up_to(key, key.len());
}

} // verus!
