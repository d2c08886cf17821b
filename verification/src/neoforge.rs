//! Installing NeoForge: which loader versions fit a Minecraft version, the
//! installer to fetch and how its source is prepared, and the libraries
//! and class path that the installed loader needs.
use vstd::prelude::*;

use crate::mods::{lemma_map_push, strs};
use crate::multimc::{instant_le, parse_rfc3339, rfc3339_instant};
use crate::launch_error::{debug_text, path_debug};
use crate::request::{
    is_not_found_view, request_error_text, request_error_view, Is404NotFound, RequestError,
};
use crate::text::{
    chars_of, contains_seq, count_char, field, field_bounds, push_all, push_str_chars, replace_all,
    replace_all_exec, replace_char, replace_char_exec, starts_with, starts_with_exec, string_of,
};

verus! {

/// Why a Forge or NeoForge installation failed.
pub enum ForgeInstallError {
    Io(String),
    Request(RequestError),
    Serde(String),
    NoForgeVersionFound,
    ParseIntError(String),
    TempFile(String),
    JavaInstallError(String),
    PathBufToStr(String),
    CompileError(String, String),
    InstallerError(String, String),
    Unpack200Error(String, String),
    FromUtf8Error(String),
    LibraryParentError,
    NoInstallJson,
    ZipExtract(String),
}

impl<T> Is404NotFound for Result<T, ForgeInstallError> {
    fn is_not_found(&self) -> (b: bool)
        ensures
            b == (*self matches Err(ForgeInstallError::Request(r)) && is_not_found_view(request_error_view(r))),
    {
        match self {
            Err(ForgeInstallError::Request(r)) => r.is_not_found(),
            _ => false,
        }
    }
}

/// The text after the common head of a Forge installation error.
pub open spec fn forge_error_detail(e: ForgeInstallError) -> Seq<char> {
    match e {
        ForgeInstallError::Io(m) => m@,
        ForgeInstallError::Request(r) => request_error_text(r),
        ForgeInstallError::Serde(m) => m@,
        ForgeInstallError::NoForgeVersionFound => "no matching forge version found"@,
        ForgeInstallError::ParseIntError(m) => m@,
        ForgeInstallError::TempFile(m) => "(tempfile): "@ + m@,
        ForgeInstallError::JavaInstallError(m) => "(java install): "@ + m@,
        ForgeInstallError::PathBufToStr(p) => "(pathbuf to str): "@ + debug_text(p@),
        ForgeInstallError::CompileError(o, e) => streams_text("(compile error)"@, o@, e@),
        ForgeInstallError::InstallerError(o, e) => streams_text("(installer error)"@, o@, e@),
        ForgeInstallError::Unpack200Error(o, e) => streams_text("(unpack200 error)"@, o@, e@),
        ForgeInstallError::FromUtf8Error(m) => "(from utf8 error): "@ + m@,
        ForgeInstallError::LibraryParentError => "could not find parent directory of library"@,
        ForgeInstallError::NoInstallJson => "no install json found"@,
        ForgeInstallError::ZipExtract(m) => "(zip extract): "@ + m@,
    }
}

/// A failed program's label followed by what it wrote to its two streams.
pub open spec fn streams_text(head: Seq<char>, stdout: Seq<char>, stderr: Seq<char>) -> Seq<char> {
    head + "\nSTDOUT = "@ + stdout + "\nSTDERR = "@ + stderr
}

fn push_streams(out: &mut Vec<char>, head: &str, stdout: &str, stderr: &str)
    ensures
        final(out)@ == old(out)@ + streams_text(head@, stdout@, stderr@),
{
    push_str_chars(out, head);
    push_str_chars(out, "\nSTDOUT = ");
    push_str_chars(out, stdout);
    push_str_chars(out, "\nSTDERR = ");
    push_str_chars(out, stderr);
    assert(out@ =~= old(out)@ + streams_text(head@, stdout@, stderr@));
}

impl ForgeInstallError {
    /// The error as the launcher shows it.
    pub fn message(&self) -> (res: String)
        ensures
            res@ == "error installing forge: "@ + forge_error_detail(*self),
    {
        let mut out = chars_of("error installing forge: ");
        match self {
            ForgeInstallError::Io(m) => push_str_chars(&mut out, m.as_str()),
            ForgeInstallError::Request(r) => {
                let t = r.message();
                push_str_chars(&mut out, t.as_str());
            },
            ForgeInstallError::Serde(m) => push_str_chars(&mut out, m.as_str()),
            ForgeInstallError::NoForgeVersionFound => push_str_chars(&mut out, "no matching forge version found"),
            ForgeInstallError::ParseIntError(m) => push_str_chars(&mut out, m.as_str()),
            ForgeInstallError::TempFile(m) => {
                push_str_chars(&mut out, "(tempfile): ");
                push_str_chars(&mut out, m.as_str());
            },
            ForgeInstallError::JavaInstallError(m) => {
                push_str_chars(&mut out, "(java install): ");
                push_str_chars(&mut out, m.as_str());
            },
            ForgeInstallError::PathBufToStr(p) => {
                push_str_chars(&mut out, "(pathbuf to str): ");
                let d = path_debug(p.as_str());
                push_str_chars(&mut out, d.as_str());
            },
            ForgeInstallError::CompileError(o, e) => push_streams(&mut out, "(compile error)", o.as_str(), e.as_str()),
            ForgeInstallError::InstallerError(o, e) => push_streams(&mut out, "(installer error)", o.as_str(), e.as_str()),
            ForgeInstallError::Unpack200Error(o, e) => push_streams(&mut out, "(unpack200 error)", o.as_str(), e.as_str()),
            ForgeInstallError::FromUtf8Error(m) => {
                push_str_chars(&mut out, "(from utf8 error): ");
                push_str_chars(&mut out, m.as_str());
            },
            ForgeInstallError::LibraryParentError => push_str_chars(&mut out, "could not find parent directory of library"),
            ForgeInstallError::NoInstallJson => push_str_chars(&mut out, "no install json found"),
            ForgeInstallError::ZipExtract(m) => {
                push_str_chars(&mut out, "(zip extract): ");
                push_str_chars(&mut out, m.as_str());
            },
        }
        let res = string_of(out.as_slice());
        assert(res@ =~= "error installing forge: "@ + forge_error_detail(*self));
        res
    }
}

/// Why no NeoForge version could be chosen.
#[derive(PartialEq, Eq, Structural, Clone, Copy, Debug)]
pub enum NeoforgeVersionError {
    /// NeoForge starts at Minecraft 1.20.2.
    OutdatedMinecraft,
    /// A release time is not an RFC 3339 time.
    BadReleaseTime,
    /// No NeoForge version is made for this Minecraft version.
    NoVersionFound,
}

/// The number of bytes that UTF-8 takes for a character.
pub open spec fn utf8_len(c: char) -> nat {
    let u = c as u32;
    if u < 0x80 {
        1
    } else if u < 0x800 {
        2
    } else if u < 0x10000 {
        3
    } else {
        4
    }
}

/// Whether the first two bytes of `s` end on a character boundary.
pub open spec fn two_bytes_split(s: Seq<char>) -> bool {
    s.len() >= 1 && (utf8_len(s[0]) == 2 || (utf8_len(s[0]) == 1 && s.len() >= 2 && utf8_len(s[1]) == 1))
}

/// `s` without its first two bytes.
pub open spec fn after_two_bytes(s: Seq<char>) -> Seq<char> {
    if utf8_len(s[0]) == 2 {
        s.skip(1)
    } else {
        s.skip(2)
    }
}

/// The start shared by the NeoForge versions made for a Minecraft version:
/// `0.<version>` for a snapshot; for a release, the version without its
/// leading `1.`, with `.0` added when it has no minor part, then a dot
/// (so `1.20` gives `20.0.` and `1.20.1` gives `20.1.`).
pub open spec fn start_pattern(version: Seq<char>, is_snapshot: bool) -> Seq<char> {
    if is_snapshot {
        "0."@ + version
    } else {
        let rest = after_two_bytes(version);
        (if contains_seq(rest, "."@) { rest } else { rest + ".0"@ }) + "."@
    }
}

fn utf8_len_exec(c: char) -> (n: usize)
    ensures
        n == utf8_len(c),
{
    let u = c as u32;
    if u < 0x80 {
        1
    } else if u < 0x800 {
        2
    } else if u < 0x10000 {
        3
    } else {
        4
    }
}

/// The start shared by the NeoForge versions made for a Minecraft version
/// (see [`start_pattern`]); whether the version is a snapshot is decided
/// by the caller.
pub fn neoforge_start_pattern(version: &str, is_snapshot: bool) -> (res: String)
    requires
        !is_snapshot ==> two_bytes_split(version@),
    ensures
        res@ == start_pattern(version@, is_snapshot),
{
    if is_snapshot {
        let mut out = chars_of("0.");
        push_str_chars(&mut out, version);
        return string_of(out.as_slice());
    }
    let v = chars_of(version);
    let skip: usize = if utf8_len_exec(v[0]) == 2 { 1 } else { 2 };
    let rest = &v.as_slice()[skip..v.len()];
    assert(rest@ =~= after_two_bytes(version@));
    let mut out: Vec<char> = Vec::new();
    push_all(&mut out, rest);
    let dot = chars_of(".");
    if !crate::text::contains_exec(rest, dot.as_slice()) {
        push_str_chars(&mut out, ".0");
    }
    push_str_chars(&mut out, ".");
    string_of(out.as_slice())
}

/// The versions among `versions` that start with `pattern`, in order.
pub open spec fn versions_matching(versions: Seq<Seq<char>>, pattern: Seq<char>) -> Seq<Seq<char>>
    decreases versions.len(),
{
    if versions.len() == 0 {
        seq![]
    } else if starts_with(versions.last(), pattern) {
        versions_matching(versions.drop_last(), pattern).push(versions.last())
    } else {
        versions_matching(versions.drop_last(), pattern)
    }
}

/// The NeoForge versions made for a Minecraft version: those that start
/// with its pattern, in the order listed; an error when there is none.
pub fn matching_versions(versions: &[String], pattern: &str) -> (r: Result<Vec<String>, NeoforgeVersionError>)
    ensures
        match r {
            Ok(v) => strs(v@) == versions_matching(strs(versions@), pattern@) && v@.len() > 0,
            Err(e) => versions_matching(strs(versions@), pattern@).len() == 0 && e == NeoforgeVersionError::NoVersionFound,
        },
{
    let p = chars_of(pattern);
    let mut out: Vec<String> = Vec::new();
    let mut i: usize = 0;
    while i < versions.len()
        invariant
            i <= versions@.len(),
            p@ == pattern@,
            strs(out@) == versions_matching(strs(versions@).take(i as int), pattern@),
        decreases versions@.len() - i,
    {
        let ghost t = strs(versions@);
        assert(t.take(i + 1).drop_last() =~= t.take(i as int));
        assert(t.take(i + 1).last() == versions@[i as int]@);
        let v = chars_of(versions[i].as_str());
        if starts_with_exec(v.as_slice(), p.as_slice()) {
            let ghost prev = out@;
            let s = versions[i].clone();
            let ghost sv = s;
            out.push(s);
            proof {
                lemma_map_push(prev, sv, |x: String| x@);
            }
        }
        i = i + 1;
    }
    assert(strs(versions@).take(versions@.len() as int) =~= strs(versions@));
    if out.len() == 0 {
        Err(NeoforgeVersionError::NoVersionFound)
    } else {
        Ok(out)
    }
}

/// Whether a Minecraft version released at `release_time` can run
/// NeoForge (released no earlier than Minecraft 1.20.2, on
/// 2023-09-20T09:02:57+00:00).
pub fn check_release(release_time: &str) -> (r: Result<(), NeoforgeVersionError>)
    ensures
        match (rfc3339_instant(release_time@), rfc3339_instant("2023-09-20T09:02:57+00:00"@)) {
            (Some(a), Some(b)) => if instant_le(b, a) { r is Ok } else { r == Err::<(), NeoforgeVersionError>(NeoforgeVersionError::OutdatedMinecraft) },
            _ => r == Err::<(), NeoforgeVersionError>(NeoforgeVersionError::BadReleaseTime),
        },
{
    let release = parse_rfc3339(release_time);
    let first = parse_rfc3339("2023-09-20T09:02:57+00:00");
    match (release, first) {
        (Some(a), Some(b)) => {
            if b.0 < a.0 || (b.0 == a.0 && b.1 <= a.1) {
                Ok(())
            } else {
                Err(NeoforgeVersionError::OutdatedMinecraft)
            }
        },
        _ => Err(NeoforgeVersionError::BadReleaseTime),
    }
}

/// The NeoForge version to install: the one asked for, else the newest
/// (last) of those available.
pub fn choose_version(requested: Option<String>, available: &[String]) -> (r: Result<String, NeoforgeVersionError>)
    ensures
        match requested {
            Some(v) => r matches Ok(x) && x@ == v@,
            None => if available@.len() > 0 {
                r matches Ok(x) && x@ == available@.last()@
            } else {
                r == Err::<String, NeoforgeVersionError>(NeoforgeVersionError::NoVersionFound)
            },
        },
{
    match requested {
        Some(v) => Ok(v),
        None => {
            if available.len() > 0 {
                Ok(available[available.len() - 1].clone())
            } else {
                Err(NeoforgeVersionError::NoVersionFound)
            }
        },
    }
}

/// Where the installer of a NeoForge version is downloaded from.
pub fn installer_url(version: &str) -> (res: String)
    ensures
        res@ == "https://maven.neoforged.net/releases/net/neoforged/neoforge/"@ + version@ + "/neoforge-"@
            + version@ + "-installer.jar"@,
{
    let mut out = chars_of("https://maven.neoforged.net/releases/net/neoforged/neoforge/");
    push_str_chars(&mut out, version);
    push_str_chars(&mut out, "/neoforge-");
    push_str_chars(&mut out, version);
    push_str_chars(&mut out, "-installer.jar");
    string_of(out.as_slice())
}

/// The installer's source prepared for the game side: `CLIENT` made
/// `SERVER` for a server, and the output-folder argument given a filter
/// that accepts every file.
pub fn installer_source(template: &str, is_server: bool) -> (res: String)
    ensures
        res@ == replace_all(
            replace_all(template@, "CLIENT"@, if is_server { "SERVER"@ } else { "CLIENT"@ }),
            "new File(\".\")"@,
            "new File(\".\"), a -> true"@,
        ),
{
    let t = chars_of(template);
    let client = chars_of("CLIENT");
    let side = if is_server { chars_of("SERVER") } else { chars_of("CLIENT") };
    let step = replace_all_exec(t.as_slice(), client.as_slice(), side.as_slice());
    let from = chars_of("new File(\".\")");
    let to = chars_of("new File(\".\"), a -> true");
    let done = replace_all_exec(step.as_slice(), from.as_slice(), to.as_slice());
    string_of(done.as_slice())
}

/// The class path with which the compiled installer is run, with `sep`
/// between entries.
pub fn installer_run_classpath(sep: char) -> (res: String)
    ensures
        res@ == "forge/installer.jar"@ + seq![sep] + "installer.jar"@ + seq![sep] + "forge/"@ + seq![sep] + "."@,
{
    let mut out = chars_of("forge/installer.jar");
    out.push(sep);
    push_str_chars(&mut out, "installer.jar");
    out.push(sep);
    push_str_chars(&mut out, "forge/");
    out.push(sep);
    push_str_chars(&mut out, ".");
    string_of(out.as_slice())
}

/// A library of the installed loader's profile.
pub struct ForgeLibrary {
    /// Maven coordinate `group:artifact:version`.
    pub name: String,
    /// The repository, when the profile names one.
    pub url: Option<String>,
    /// The artifact's address and path, when the profile gives them.
    pub artifact: Option<(String, String)>,
    /// Whether the client needs it (absent: it does).
    pub clientreq: Option<bool>,
}

pub open spec fn client_needs(l: ForgeLibrary) -> bool {
    match l.clientreq {
        Some(b) => b,
        None => true,
    }
}

/// The maven path of a coordinate: the group with `.` as `/`, the
/// artifact, the version, and `<artifact>-<version>.jar`.
pub open spec fn maven_path(n: Seq<char>) -> Seq<char> {
    let g = field(n, ':', 0);
    let a = field(n, ':', 1);
    let v = field(n, ':', 2);
    replace_char(g, '.', "/"@) + "/"@ + a + "/"@ + v + "/"@ + a + "-"@ + v + ".jar"@
}

/// Where a library is fetched from and stored: the artifact's own address
/// and path, else its repository (Mojang's by default) and the maven path.
pub open spec fn library_source(l: ForgeLibrary) -> (Seq<char>, Seq<char>) {
    match l.artifact {
        Some(a) => (a.0@, a.1@),
        None => {
            let base = match l.url {
                Some(u) => u@,
                None => "https://libraries.minecraft.net/"@,
            };
            (base + maven_path(l.name@), maven_path(l.name@))
        },
    }
}

/// What the libraries of the installed loader come to, over the first `n`
/// of them: the downloads (address, path), the class path, and the list of
/// `group:artifact` entries.
pub open spec fn library_plan(ls: Seq<ForgeLibrary>, n: int, sep: char) -> (Seq<(Seq<char>, Seq<char>)>, Seq<char>, Seq<char>)
    decreases n,
{
    if n <= 0 {
        (seq![], seq![], seq![])
    } else {
        let before = library_plan(ls, n - 1, sep);
        let l = ls[n - 1];
        if client_needs(l) {
            let src = library_source(l);
            (
                before.0.push(src),
                before.1 + "../forge/libraries/"@ + src.1 + seq![sep],
                before.2 + field(l.name@, ':', 0) + ":"@ + field(l.name@, ':', 1) + "\n\n"@,
            )
        } else {
            before
        }
    }
}

/// The libraries of the installed loader: what to download, and the
/// contents of its class path and clean class path files.
pub struct LibraryPlan {
    pub downloads: Vec<(String, String)>,
    pub classpath: String,
    pub clean_classpath: String,
}

pub open spec fn pair_view(p: (String, String)) -> (Seq<char>, Seq<char>) {
    (p.0@, p.1@)
}

/// Plans the libraries of the installed loader, with `sep` between class
/// path entries.
pub fn plan_libraries(libraries: &[ForgeLibrary], sep: char) -> (r: LibraryPlan)
    requires
        forall|i: int| 0 <= i < libraries@.len() && client_needs(#[trigger] libraries@[i]) ==> count_char(libraries@[i].name@, ':') >= 2,
    ensures
        ({
            let p = library_plan(libraries@, libraries@.len() as int, sep);
            &&& r.downloads@.map_values(|x: (String, String)| pair_view(x)) == p.0
            &&& r.classpath@ == p.1
            &&& r.clean_classpath@ == p.2
        }),
{
    let mut downloads: Vec<(String, String)> = Vec::new();
    let mut classpath: Vec<char> = Vec::new();
    let mut clean: Vec<char> = Vec::new();
    let mut i: usize = 0;
    while i < libraries.len()
        invariant
            i <= libraries@.len(),
            forall|k: int| 0 <= k < libraries@.len() && client_needs(#[trigger] libraries@[k]) ==> count_char(libraries@[k].name@, ':') >= 2,
            ({
                let p = library_plan(libraries@, i as int, sep);
                &&& downloads@.map_values(|x: (String, String)| pair_view(x)) == p.0
                &&& classpath@ == p.1
                &&& clean@ == p.2
            }),
        decreases libraries@.len() - i,
    {
        let l = &libraries[i];
        let needed = match l.clientreq {
            Some(b) => b,
            None => true,
        };
        if needed {
            assert(client_needs(libraries@[i as int]));
            let n = chars_of(l.name.as_str());
            let (g0, g1) = field_bounds(n.as_slice(), ':', 0);
            let (a0, a1) = field_bounds(n.as_slice(), ':', 1);
            let (v0, v1) = field_bounds(n.as_slice(), ':', 2);
            let g = &n.as_slice()[g0..g1];
            let a = &n.as_slice()[a0..a1];
            let v = &n.as_slice()[v0..v1];
            push_all(&mut clean, g);
            push_str_chars(&mut clean, ":");
            push_all(&mut clean, a);
            push_str_chars(&mut clean, "\n\n");
            let (url, path) = match &l.artifact {
                Some(art) => (art.0.clone(), art.1.clone()),
                None => {
                    let slash = chars_of("/");
                    let mut p = replace_char_exec(g, '.', slash.as_slice());
                    push_str_chars(&mut p, "/");
                    push_all(&mut p, a);
                    push_str_chars(&mut p, "/");
                    push_all(&mut p, v);
                    push_str_chars(&mut p, "/");
                    push_all(&mut p, a);
                    push_str_chars(&mut p, "-");
                    push_all(&mut p, v);
                    push_str_chars(&mut p, ".jar");
                    assert(p@ =~= maven_path(l.name@));
                    let mut u = match &l.url {
                        Some(base) => chars_of(base.as_str()),
                        None => chars_of("https://libraries.minecraft.net/"),
                    };
                    push_all(&mut u, p.as_slice());
                    (string_of(u.as_slice()), string_of(p.as_slice()))
                },
            };
            assert((url@, path@) == library_source(*l));
            push_str_chars(&mut classpath, "../forge/libraries/");
            push_str_chars(&mut classpath, path.as_str());
            classpath.push(sep);
            let ghost prev = downloads@;
            let pair = (url, path);
            let ghost pv = pair;
            downloads.push(pair);
            proof {
                lemma_map_push(prev, pv, |x: (String, String)| pair_view(x));
            }
        }
        i = i + 1;
    }
    LibraryPlan {
        downloads,
        classpath: string_of(classpath.as_slice()),
        clean_classpath: string_of(clean.as_slice()),
    }
}

} // verus!
