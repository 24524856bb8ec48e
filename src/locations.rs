//! Where the variants and the metadata cache live: under the current user's home directory.

use vstd::prelude::*;
use vstd::string::*;

use crate::discovery::join;
use crate::errors::VariantError;

verus! {

/// Relies on home::home_dir: the current user's home directory, where one can be found.
/// A path that is not valid text is handed back as none.
#[verifier::external_body]
fn home_dir() -> (r: Option<String>) {
    home::home_dir().and_then(|p| p.into_os_string().into_string().ok())
}

fn under(home: Option<String>, leaf: &str) -> (r: Result<String, VariantError>)
    ensures
        match home {
            None => r == Err::<String, VariantError>(VariantError::NoHome),
            Some(h) => r is Ok && r->Ok_0@ == join(h@, leaf@),
        },
{
    match home {
        None => Err(VariantError::NoHome),
        Some(h) => {
            let mut r = h;
            r.append("/");
            r.append(leaf);
            Ok(r)
        },
    }
}

/// The convention root `<home>/.ssh` for the given home directory.
pub fn convention_root_of(home: Option<String>) -> (r: Result<String, VariantError>)
    ensures
        match home {
            None => r == Err::<String, VariantError>(VariantError::NoHome),
            Some(h) => r is Ok && r->Ok_0@ == join(h@, ".ssh"@),
        },
{
    under(home, ".ssh")
}

/// The convention root `<home>/.ssh` of the current user.
pub fn convention_root() -> (r: Result<String, VariantError>)
    ensures
        match r {
            Ok(p) => exists|h: Seq<char>| p@ == join(h, ".ssh"@),
            Err(e) => e == VariantError::NoHome,
        },
{
    convention_root_of(home_dir())
}

/// The cache file `<home>/.variant` for the given home directory.
pub fn cache_file_of(home: Option<String>) -> (r: Result<String, VariantError>)
    ensures
        match home {
            None => r == Err::<String, VariantError>(VariantError::NoHome),
            Some(h) => r is Ok && r->Ok_0@ == join(h@, ".variant"@),
        },
{
    under(home, ".variant")
}

/// The cache file `<home>/.variant` of the current user.
pub fn cache_file() -> (r: Result<String, VariantError>)
    ensures
        match r {
            Ok(p) => exists|h: Seq<char>| p@ == join(h, ".variant"@),
            Err(e) => e == VariantError::NoHome,
        },
{
    cache_file_of(home_dir())
}

} // verus!
