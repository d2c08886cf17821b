//! Decisions of the instance-creation and alternate-login screens: when
//! the create button works and what its tooltip says, the warning for
//! 32-bit Linux builds, the loading text, when the password is masked, how
//! long a device code has left, which buttons show, and where the screen's
//! links and back button lead; and what the error screen shows and the
//! copy buttons put on the clipboard.
use vstd::prelude::*;

use crate::java::{Arch, Os, Platform};
use crate::mods::strs;
use crate::text::{
    chars_of, is_blank, join, join_with, push_str_chars, replace_all, replace_all_exec, str_eq,
    string_of, trim,
};

verus! {

/// Why the "Create Instance" button does nothing, or that it works.
#[derive(PartialEq, Eq, Structural, Clone, Copy)]
pub enum CreateGate {
    Ready,
    NoVersion,
    NoName,
    NameTaken,
}

/// Whether `name` is among the existing instances.
pub open spec fn taken(existing: Seq<String>, name: Seq<char>) -> bool {
    exists|i: int| 0 <= i < existing.len() && (#[trigger] existing[i])@ == name
}

/// The state of the create button: it needs a version, then a name, then
/// a name no instance has yet (when the instance list is known).
pub fn create_gate(has_version: bool, name: &str, existing: Option<&Vec<String>>) -> (g: CreateGate)
    ensures
        !has_version ==> g == CreateGate::NoVersion,
        has_version && name@.len() == 0 ==> g == CreateGate::NoName,
        has_version && name@.len() > 0 ==> g == (match existing {
            Some(list) => if taken(list@, name@) { CreateGate::NameTaken } else { CreateGate::Ready },
            None => CreateGate::Ready,
        }),
{
    if !has_version {
        return CreateGate::NoVersion;
    }
    if name.unicode_len() == 0 {
        return CreateGate::NoName;
    }
    match existing {
        None => CreateGate::Ready,
        Some(list) => {
            let mut i: usize = 0;
            while i < list.len()
                invariant
                    i <= list@.len(),
                    has_version,
                    name@.len() > 0,
                    existing == Some(list),
                    forall|k: int| 0 <= k < i ==> (#[trigger] list@[k])@ != name@,
                decreases list@.len() - i,
            {
                if str_eq(list[i].as_str(), name) {
                    return CreateGate::NameTaken;
                }
                i = i + 1;
            }
            CreateGate::Ready
        },
    }
}

impl CreateGate {
    /// The tooltip over the create button; none when it works.
    pub fn tooltip(&self) -> (t: Option<String>)
        ensures
            match *self {
                CreateGate::Ready => t is None,
                CreateGate::NoVersion => t matches Some(s) && s@ == "Select a version first!"@,
                CreateGate::NoName => t matches Some(s) && s@ == "Enter a name for your instance."@,
                CreateGate::NameTaken => t matches Some(s) && s@ == "An instance with that name already exists!"@,
            },
    {
        match self {
            CreateGate::Ready => None,
            CreateGate::NoVersion => Some("Select a version first!".to_owned()),
            CreateGate::NoName => Some("Enter a name for your instance.".to_owned()),
            CreateGate::NameTaken => Some("An instance with that name already exists!".to_owned()),
        }
    }
}

/// The warning shown on 32-bit Linux builds, which run only older
/// versions: the second line names the 64-bit build to get instead.
pub fn platform_warning(platform: Platform) -> (w: Option<(String, String)>)
    ensures
        !(platform.os == Os::Linux && (platform.arch == Arch::X86 || platform.arch == Arch::Arm)) ==> w is None,
        platform.os == Os::Linux && platform.arch == Arch::X86 ==> (w matches Some(p)
            && p.0@ == "Warning: On your platform (Linux 32 bit) only Minecraft 1.16.5 and below are supported."@
            && p.1@ == "If your computer isn't outdated, you might have wanted to download QuantumLauncher 64 bit (x86_64)"@),
        platform.os == Os::Linux && platform.arch == Arch::Arm ==> (w matches Some(p)
            && p.0@ == "Warning: On your platform (Linux 32 bit) only Minecraft 1.16.5 and below are supported."@
            && p.1@ == "If your computer isn't outdated, you might have wanted to download QuantumLauncher 64 bit (aarch64)"@),
{
    if platform.os == Os::Linux && (platform.arch == Arch::X86 || platform.arch == Arch::Arm) {
        let first = "Warning: On your platform (Linux 32 bit) only Minecraft 1.16.5 and below are supported.".to_owned();
        let second = if platform.arch == Arch::X86 {
            "If your computer isn't outdated, you might have wanted to download QuantumLauncher 64 bit (x86_64)".to_owned()
        } else {
            "If your computer isn't outdated, you might have wanted to download QuantumLauncher 64 bit (aarch64)".to_owned()
        };
        Some((first, second))
    } else {
        None
    }
}

/// `n` dots.
pub open spec fn dots(n: nat) -> Seq<char>
    decreases n,
{
    if n == 0 { seq![] } else { dots((n - 1) as nat).push('.') }
}

/// "Loading" and one to three dots, cycling with the timer.
pub fn loading_text(tick_timer: usize) -> (t: String)
    ensures
        t@ == "Loading"@ + dots((tick_timer % 3 + 1) as nat),
{
    let mut v = chars_of("Loading");
    let n = tick_timer % 3 + 1;
    let ghost base = v@;
    let mut i: usize = 0;
    while i < n
        invariant
            i <= n,
            n == tick_timer % 3 + 1,
            v@ == base + dots(i as nat),
        decreases n - i,
    {
        v.push('.');
        i = i + 1;
        assert(v@ =~= base + dots(i as nat));
    }
    string_of(v.as_slice())
}

/// Whether the password field shows asterisks: when it holds something
/// and the user did not ask to see it.
pub fn masks_password(password: &str, show_password: bool) -> (b: bool)
    ensures
        b == (password@.len() > 0 && !show_password),
{
    password.unicode_len() > 0 && !show_password
}

/// The seconds a device code has left, never below zero.
pub fn seconds_left(expires_at: u64, now: u64) -> (s: u64)
    ensures
        expires_at > now ==> s == expires_at - now,
        expires_at <= now ==> s == 0,
{
    if expires_at > now {
        expires_at - now
    } else {
        0
    }
}

/// The registration page of the service that the screen logs in to.
pub fn register_link(is_littleskin: bool) -> (l: String)
    ensures
        is_littleskin ==> l@ == "https://littleskin.cn/auth/register"@,
        !is_littleskin ==> l@ == "https://account.ely.by/register"@,
{
    if is_littleskin {
        "https://littleskin.cn/auth/register".to_owned()
    } else {
        "https://account.ely.by/register".to_owned()
    }
}

/// The buttons under the login form: while a login is under way, none (the
/// loading text stands there); otherwise "Login", and "Login with OAuth"
/// for LittleSkin only.
pub fn login_buttons(is_loading: bool, is_littleskin: bool) -> (r: (bool, bool))
    ensures
        r.0 == !is_loading,
        r.1 == (!is_loading && is_littleskin),
{
    (!is_loading, !is_loading && is_littleskin)
}

/// Where the back button of the login screen leads.
#[derive(PartialEq, Eq, Structural, Clone, Copy)]
pub enum LoginBack {
    /// Back to the welcome screen's step that picks an account.
    WelcomeAuth,
    /// Back to the account list, on the entry that adds an account.
    AddAccount,
}

pub fn login_back(is_from_welcome_screen: bool) -> (b: LoginBack)
    ensures
        is_from_welcome_screen ==> b == LoginBack::WelcomeAuth,
        !is_from_welcome_screen ==> b == LoginBack::AddAccount,
{
    if is_from_welcome_screen {
        LoginBack::WelcomeAuth
    } else {
        LoginBack::AddAccount
    }
}

/// An error as the error screen shows it: every occurrence of the
/// launcher's client id replaced by `[CLIENT ID]`.
pub fn redact_client_id(error: &str, client_id: &str) -> (r: String)
    requires
        client_id@.len() > 0,
    ensures
        r@ == replace_all(error@, client_id@, "[CLIENT ID]"@),
{
    let e = chars_of(error);
    let c = chars_of(client_id);
    let to = chars_of("[CLIENT ID]");
    let out = replace_all_exec(e.as_slice(), c.as_slice(), to.as_slice());
    string_of(out.as_slice())
}

/// The lines of the launcher's own log as "copy log" writes them: each
/// entry's kind, a space and its text, and a line break.
pub open spec fn log_text(entries: Seq<(String, String)>) -> Seq<char>
    decreases entries.len(),
{
    if entries.len() == 0 {
        seq![]
    } else {
        log_text(entries.drop_last()) + entries.last().1@ + " "@ + entries.last().0@ + "\n"@
    }
}

/// What "copy log" puts on the clipboard, for the log's entries as (text,
/// kind) pairs.
pub fn copy_log_text(entries: &[(String, String)]) -> (t: String)
    ensures
        t@ == "QuantumLauncher Log:\n"@ + log_text(entries@),
{
    let mut v = chars_of("QuantumLauncher Log:\n");
    let ghost head = v@;
    let mut i: usize = 0;
    while i < entries.len()
        invariant
            i <= entries@.len(),
            v@ == head + log_text(entries@.take(i as int)),
        decreases entries@.len() - i,
    {
        assert(entries@.take(i + 1).drop_last() =~= entries@.take(i as int));
        push_str_chars(&mut v, entries[i].1.as_str());
        push_str_chars(&mut v, " ");
        push_str_chars(&mut v, entries[i].0.as_str());
        push_str_chars(&mut v, "\n");
        assert(v@ =~= head + log_text(entries@.take(i + 1)));
        i = i + 1;
    }
    assert(entries@.take(entries@.len() as int) =~= entries@);
    string_of(v.as_slice())
}

/// What "copy error" puts on the clipboard.
pub fn copy_error_text(error: &str) -> (t: String)
    ensures
        t@ == "(QuantumLauncher): "@ + error@,
{
    let mut v = chars_of("(QuantumLauncher): ");
    push_str_chars(&mut v, error);
    string_of(v.as_slice())
}

/// The two lines of the screen that confirms removing a loader.
pub fn uninstall_confirm_text(name: &str) -> (t: (String, String))
    ensures
        t.0@ == "uninstall "@ + name@,
        t.1@ == "This should be fine, you can always reinstall it later"@,
{
    let mut v = chars_of("uninstall ");
    push_str_chars(&mut v, name);
    (string_of(v.as_slice()), "This should be fine, you can always reinstall it later".to_owned())
}

/// The error shown when uploading a log failed.
pub fn upload_failed_text(error: &str) -> (t: String)
    ensures
        t@ == "Failed to upload log: "@ + error@,
{
    let mut v = chars_of("Failed to upload log: ");
    push_str_chars(&mut v, error);
    string_of(v.as_slice())
}

/// The text of a game log to upload: its lines joined as they were
/// received; nothing to upload when that is blank.
pub fn log_upload_content(lines: &[String]) -> (r: Option<String>)
    ensures
        trim(join(strs(lines@), ""@)).len() == 0 ==> r is None,
        trim(join(strs(lines@), ""@)).len() > 0 ==> (r matches Some(t) && t@ == join(strs(lines@), ""@)),
{
    let all = join_with(lines, "");
    if is_blank(all.as_str()) {
        None
    } else {
        Some(all)
    }
}

/// Whether Ctrl-Q may close the launcher: no game or server is running,
/// and the screen is the launch screen or going back from it reached one.
pub fn safe_to_exit(running: usize, went_back: bool, on_launch_screen: bool) -> (b: bool)
    ensures
        b == (running == 0 && (went_back || on_launch_screen)),
{
    running == 0 && (went_back || on_launch_screen)
}

} // verus!
