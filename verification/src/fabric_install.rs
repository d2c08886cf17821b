//! The computed parts of installing Fabric or Quilt: which loader version
//! to install, where the loader profile is fetched from, the profile of
//! Cursed Legacy, and the progress reported per library.
use vstd::prelude::*;

use crate::java::GenericProgress;
use crate::text::{chars_of, decimal, push_decimal, push_str_chars, replace_all, replace_all_exec, string_of};
use crate::version_list::FabricVersionListItem;

verus! {

/// Why a Fabric or Quilt installation could not start.
#[derive(PartialEq, Eq, Structural, Clone, Copy, Debug)]
pub enum FabricInstallError {
    /// No loader version was given and the backend lists none.
    NoVersionFound,
}

/// The loader version to install: the one asked for, else the newest the
/// backend lists.
pub fn install_loader_version(asked: Option<String>, listed: &[FabricVersionListItem]) -> (r: Result<String, FabricInstallError>)
    ensures
        match asked {
            Some(v) => r matches Ok(x) && x@ == v@,
            None => if listed@.len() > 0 {
                r matches Ok(x) && x@ == listed@[0].loader.version@
            } else {
                r == Err::<String, FabricInstallError>(FabricInstallError::NoVersionFound)
            },
        },
{
    match asked {
        Some(v) => Ok(v),
        None => {
            if listed.len() > 0 {
                Ok(listed[0].loader.version.clone())
            } else {
                Err(FabricInstallError::NoVersionFound)
            }
        },
    }
}

/// The API path of the loader profile: the launch profile for a client,
/// the server profile for a server.
pub open spec fn profile_path(game_version: Seq<char>, loader_version: Seq<char>, is_server: bool) -> Seq<char> {
    "/versions/loader/"@ + game_version + "/"@ + loader_version
        + if is_server { "/server/json"@ } else { "/profile/json"@ }
}

pub fn loader_profile_path(game_version: &str, loader_version: &str, is_server: bool) -> (r: String)
    ensures
        r@ == profile_path(game_version@, loader_version@, is_server),
{
    let mut out = chars_of("/versions/loader/");
    push_str_chars(&mut out, game_version);
    push_str_chars(&mut out, "/");
    push_str_chars(&mut out, loader_version);
    if is_server {
        push_str_chars(&mut out, "/server/json");
    } else {
        push_str_chars(&mut out, "/profile/json");
    }
    string_of(out.as_slice())
}

/// The profile of Cursed Legacy: the bundled template with the newest
/// commit put in place of each `INSERT_COMMIT`.
pub fn cursed_legacy_profile(template: &str, commit: &str) -> (r: String)
    ensures
        r@ == replace_all(template@, "INSERT_COMMIT"@, commit@),
{
    let t = chars_of(template);
    let from = chars_of("INSERT_COMMIT");
    let to = chars_of(commit);
    let out = replace_all_exec(t.as_slice(), from.as_slice(), to.as_slice());
    string_of(out.as_slice())
}

/// The message for the download of library `i` (counted from zero) of
/// `total`.
pub open spec fn library_message(i: nat, total: nat, name: Seq<char>) -> Seq<char> {
    "Downloading library ("@ + decimal(i + 1) + " / "@ + decimal(total) + ") "@ + name
}

/// The progress reported before downloading library `i` of `total`.
pub fn library_progress(i: usize, total: usize, name: &str) -> (p: GenericProgress)
    requires
        i < total,
    ensures
        p.done == i + 1,
        p.total == total,
        p.message matches Some(m) && m@ == library_message(i as nat, total as nat, name@),
        !p.has_finished,
{
    let mut out = chars_of("Downloading library (");
    push_decimal(&mut out, (i + 1) as u64);
    push_str_chars(&mut out, " / ");
    push_decimal(&mut out, total as u64);
    push_str_chars(&mut out, ") ");
    push_str_chars(&mut out, name);
    GenericProgress { done: i + 1, total, message: Some(string_of(out.as_slice())), has_finished: false }
}

} // verus!
