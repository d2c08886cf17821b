//! Why launching the game failed, and how the launcher words it. Errors of
//! other parts (files, downloads, Java) are carried as the text they show.
use vstd::prelude::*;

use crate::text::{chars_of, push_str_chars, string_of};

verus! {

/// What `Debug` writes for a path: the text in double quotes, with quotes,
/// backslashes and characters that are not printed escaped.
pub uninterp spec fn debug_text(s: Seq<char>) -> Seq<char>;

/// Whether a character is printable ASCII other than `"`, `'` and `\`,
/// which `Debug` writes as it is.
pub open spec fn debug_plain(c: char) -> bool {
    let u = c as u32;
    0x20 <= u && u <= 0x7e && c != '"' && c != '\'' && c != '\\'
}

/// `Debug` of a path (`std::path::Path`), as text. Its result is named; the
/// claim made of it is that a path of plain printable characters comes
/// back between double quotes and otherwise unchanged.
#[verifier::external_body]
pub(crate) fn path_debug(s: &str) -> (r: String)
    ensures
        r@ == debug_text(s@),
        (forall|i: int| 0 <= i < s@.len() ==> debug_plain(#[trigger] s@[i])) ==> r@ == "\""@ + s@ + "\""@,
{
    format!("{:?}", std::path::Path::new(s))
}

/// Why launching the game failed.
pub enum GameLaunchError {
    /// A file operation failed (its message).
    Io(String),
    /// A download failed (its message).
    DownloadError(String),
    /// The username is empty or has spaces.
    UsernameIsInvalid(String),
    /// A JSON file could not be read (its message).
    JsonFile(String),
    InstanceNotFound,
    /// A version number could not be read (its message).
    Semver(String),
    VersionJsonNoArgumentsField,
    /// A path that is not valid text.
    PathBufToString(String),
    /// Java could not be installed (its message).
    JavaInstall(String),
    /// The game process could not be started (its message).
    CommandError(String),
    ForgeInstallUpgradeTransformPathError,
    ForgeInstallUpgradeStripPrefixError,
}

pub open spec fn forge_upgrade_message() -> Seq<char> {
    "outdated forge install. Please uninstall and reinstall.\nSelect your instance, go to Mods -> Uninstall Forge, then Install Forge."@
}

pub open spec fn launch_error_text(e: GameLaunchError) -> Seq<char> {
    "error launching game: "@ + match e {
        GameLaunchError::Io(m) => "(io) "@ + m@,
        GameLaunchError::DownloadError(m) => "(download) "@ + m@,
        GameLaunchError::UsernameIsInvalid(u) => if u@.len() == 0 {
            "username is empty"@
        } else {
            "username contains spaces: "@ + u@
        },
        GameLaunchError::JsonFile(m) => "(json file) "@ + m@,
        GameLaunchError::InstanceNotFound => "instance not found"@,
        GameLaunchError::Semver(m) => "(semver) "@ + m@,
        GameLaunchError::VersionJsonNoArgumentsField => "version json has no arguments field"@,
        GameLaunchError::PathBufToString(p) => "couldn't convert pathbuf to string: "@ + debug_text(p@),
        GameLaunchError::JavaInstall(m) => "(java install) "@ + m@,
        GameLaunchError::CommandError(m) => "(command) "@ + m@,
        GameLaunchError::ForgeInstallUpgradeTransformPathError => "error upgrading forge install (transforming path)\n"@
            + forge_upgrade_message(),
        GameLaunchError::ForgeInstallUpgradeStripPrefixError => "error upgrading forge install (removing prefix)\n"@
            + forge_upgrade_message(),
    }
}

impl GameLaunchError {
    /// The error as the launcher shows it.
    pub fn message(&self) -> (res: String)
        ensures
            res@ == launch_error_text(*self),
    {
        let mut out = chars_of("error launching game: ");
        match self {
            GameLaunchError::Io(m) => {
                push_str_chars(&mut out, "(io) ");
                push_str_chars(&mut out, m.as_str());
            },
            GameLaunchError::DownloadError(m) => {
                push_str_chars(&mut out, "(download) ");
                push_str_chars(&mut out, m.as_str());
            },
            GameLaunchError::UsernameIsInvalid(u) => {
                if u.as_str().unicode_len() == 0 {
                    push_str_chars(&mut out, "username is empty");
                } else {
                    push_str_chars(&mut out, "username contains spaces: ");
                    push_str_chars(&mut out, u.as_str());
                }
            },
            GameLaunchError::JsonFile(m) => {
                push_str_chars(&mut out, "(json file) ");
                push_str_chars(&mut out, m.as_str());
            },
            GameLaunchError::InstanceNotFound => push_str_chars(&mut out, "instance not found"),
            GameLaunchError::Semver(m) => {
                push_str_chars(&mut out, "(semver) ");
                push_str_chars(&mut out, m.as_str());
            },
            GameLaunchError::VersionJsonNoArgumentsField => {
                push_str_chars(&mut out, "version json has no arguments field");
            },
            GameLaunchError::PathBufToString(p) => {
                push_str_chars(&mut out, "couldn't convert pathbuf to string: ");
                let d = path_debug(p.as_str());
                push_str_chars(&mut out, d.as_str());
            },
            GameLaunchError::JavaInstall(m) => {
                push_str_chars(&mut out, "(java install) ");
                push_str_chars(&mut out, m.as_str());
            },
            GameLaunchError::CommandError(m) => {
                push_str_chars(&mut out, "(command) ");
                push_str_chars(&mut out, m.as_str());
            },
            GameLaunchError::ForgeInstallUpgradeTransformPathError => {
                push_str_chars(&mut out, "error upgrading forge install (transforming path)\n");
                push_str_chars(&mut out, "outdated forge install. Please uninstall and reinstall.\nSelect your instance, go to Mods -> Uninstall Forge, then Install Forge.");
            },
            GameLaunchError::ForgeInstallUpgradeStripPrefixError => {
                push_str_chars(&mut out, "error upgrading forge install (removing prefix)\n");
                push_str_chars(&mut out, "outdated forge install. Please uninstall and reinstall.\nSelect your instance, go to Mods -> Uninstall Forge, then Install Forge.");
            },
        }
        let res = string_of(out.as_slice());
        assert(res@ =~= launch_error_text(*self));
        res
    }
}

} // verus!
