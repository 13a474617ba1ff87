//! Where the files of the site are.
use config::{Config, ConfigError};
use vstd::prelude::*;
use vstd::string::*;

use crate::settings::get_string;

verus! {

/// `name` adjoined to the directory `base`, as on Unix: with a `/` between them,
/// unless `base` is empty or ends with one. An absolute name stands for itself.
pub open spec fn joined(base: Seq<char>, name: Seq<char>) -> Seq<char> {
    if name.len() > 0 && name[0] == '/' {
        name
    } else if base.len() == 0 || base.last() == '/' {
        base + name
    } else {
        base.push('/') + name
    }
}

/// What is adjoined to a directory lies in it: unless the name is absolute, the
/// path starts with the directory and ends with the name.
pub proof fn lemma_joined_lies_within(base: Seq<char>, name: Seq<char>)
    requires
        name.len() > 0 ==> name[0] != '/',
    ensures
        base.len() + name.len() <= joined(base, name).len(),
        joined(base, name).take(base.len() as int) == base,
        joined(base, name).skip(joined(base, name).len() - name.len()) == name,
{
    assert(joined(base, name).take(base.len() as int) =~= base);
    assert(joined(base, name).skip(joined(base, name).len() - name.len()) =~= name);
}

/// Adjoins `name` to the directory `base`.
pub fn join(base: &str, name: &str) -> (path: String)
    ensures
        path@ == joined(base@, name@),
{
    if name.unicode_len() > 0 && name.get_char(0) == '/' {
        return name.to_owned();
    }
    let n: usize = base.unicode_len();
    let mut path = base.to_owned();
    if n > 0 && base.get_char(n - 1) != '/' {
        proof {
            reveal_strlit("/");
            assert("/"@ =~= seq!['/']);
        }
        path.append("/");
        proof {
            assert(path@ =~= base@.push('/'));
        }
    }
    path.append(name);
    path
}

/// Where the files of the site are.
pub struct SitePaths {
    /// The directory of the static files.
    pub static_dir: String,
    /// The template of the index page.
    pub index_file: String,
    /// The directory of the documentation.
    pub docs_dir: String,
}

/// The key of the setting that names the directory of the static files.
pub open spec fn static_path_key() -> Seq<char> {
    "apiserver.staticPath"@
}

/// Finds the files of the site: they all lie in the directory that the
/// settings name. It fails where they name none.
pub fn site_paths(cfg: &Config) -> (paths: Result<SitePaths, ConfigError>)
    ensures
        paths is Ok <==> crate::settings::strings_of(*cfg).contains_key(static_path_key()),
        paths matches Ok(p) ==> {
            &&& p.static_dir@ == crate::settings::strings_of(*cfg)[static_path_key()]
            &&& p.index_file@ == joined(p.static_dir@, "index.html"@)
            &&& p.docs_dir@ == joined(p.static_dir@, "docs"@)
        },
{
    proof {
        reveal_strlit("apiserver.staticPath");
        reveal_with_fuel(crate::settings::plain_up_to, 21);
        crate::settings::lemma_plain_key("apiserver.staticPath"@);
    }
    match get_string(cfg, "apiserver.staticPath") {
        Ok(static_dir) => {
            let index_file = join(static_dir.as_str(), "index.html");
            let docs_dir = join(static_dir.as_str(), "docs");
            Ok(SitePaths { static_dir, index_file, docs_dir })
        },
        Err(err) => Err(err),
    }
}

} // verus!
