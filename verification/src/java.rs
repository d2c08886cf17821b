//! Which Java the launcher installs on which platform, where it comes from
//! when Mojang does not provide it, and where its binaries end up.
use vstd::prelude::*;

use crate::text::{chars_of, ends_with, ends_with_exec, push_str_chars, string_of};

verus! {

/// The Java versions that Minecraft needs.
#[derive(PartialEq, Eq, Structural, Clone, Copy)]
pub enum JavaVersion {
    Java8,
    Java16,
    Java17,
    Java21,
}

/// The operating systems the launcher tells apart.
#[derive(PartialEq, Eq, Structural, Clone, Copy)]
pub enum Os {
    Linux,
    Macos,
    Windows,
    Solaris,
    Other,
}

/// The processor architectures the launcher tells apart.
#[derive(PartialEq, Eq, Structural, Clone, Copy)]
pub enum Arch {
    X86,
    X86_64,
    Aarch64,
    Arm,
    Sparc64,
    Other,
}

/// The platform the launcher was built for.
#[derive(PartialEq, Eq, Structural, Clone, Copy)]
pub struct Platform {
    pub os: Os,
    pub arch: Arch,
}

/// Progress of a long task, as the launcher reports it.
pub struct GenericProgress {
    pub done: usize,
    pub total: usize,
    pub message: Option<String>,
    pub has_finished: bool,
}

/// Why a Java installation failed.
#[derive(Debug)]
pub enum JavaInstallError {
    JsonDownload(String),
    Request(String),
    Json(String),
    Io(String),
    NoJavaBinFound,
    UnsupportedOnlyJava8,
    ZipExtract(String),
    TarGzExtract(String),
    UnknownExtension(String),
}

pub open spec fn java_error_text(e: JavaInstallError) -> Seq<char> {
    let prefix = "while installing Java:\n"@;
    match e {
        JavaInstallError::JsonDownload(m) => prefix + m@,
        JavaInstallError::Request(m) => prefix + m@,
        JavaInstallError::Json(m) => prefix + m@,
        JavaInstallError::Io(m) => prefix + m@,
        JavaInstallError::NoJavaBinFound => prefix + "couldn't find java binary"@,
        JavaInstallError::UnsupportedOnlyJava8 => "on your platform, only Java 8 (Minecraft 1.16.5 and below) is supported!\n"@,
        JavaInstallError::ZipExtract(m) => prefix + "zip extract error:\n"@ + m@,
        JavaInstallError::TarGzExtract(m) => prefix + "couldn't extract java tar.gz:\n"@ + m@,
        JavaInstallError::UnknownExtension(m) => prefix + "unknown extension for java: "@ + m@
            + "\n\nTHIS IS A BUG, PLEASE REPORT ON DISCORD"@,
    }
}

impl JavaInstallError {
    /// The error as the launcher shows it.
    pub fn message(&self) -> (res: String)
        ensures
            res@ == java_error_text(*self),
    {
        let mut out: Vec<char> = Vec::new();
        match self {
            JavaInstallError::UnsupportedOnlyJava8 => {
                push_str_chars(&mut out, "on your platform, only Java 8 (Minecraft 1.16.5 and below) is supported!\n");
            },
            _ => {
                push_str_chars(&mut out, "while installing Java:\n");
                match self {
                    JavaInstallError::JsonDownload(m) => push_str_chars(&mut out, m.as_str()),
                    JavaInstallError::Request(m) => push_str_chars(&mut out, m.as_str()),
                    JavaInstallError::Json(m) => push_str_chars(&mut out, m.as_str()),
                    JavaInstallError::Io(m) => push_str_chars(&mut out, m.as_str()),
                    JavaInstallError::NoJavaBinFound => push_str_chars(&mut out, "couldn't find java binary"),
                    JavaInstallError::ZipExtract(m) => {
                        push_str_chars(&mut out, "zip extract error:\n");
                        push_str_chars(&mut out, m.as_str());
                    },
                    JavaInstallError::TarGzExtract(m) => {
                        push_str_chars(&mut out, "couldn't extract java tar.gz:\n");
                        push_str_chars(&mut out, m.as_str());
                    },
                    JavaInstallError::UnknownExtension(m) => {
                        push_str_chars(&mut out, "unknown extension for java: ");
                        push_str_chars(&mut out, m.as_str());
                        push_str_chars(&mut out, "\n\nTHIS IS A BUG, PLEASE REPORT ON DISCORD");
                    },
                    JavaInstallError::UnsupportedOnlyJava8 => {},
                }
            },
        }
        let res = string_of(out.as_slice());
        assert(res@ =~= java_error_text(*self));
        res
    }
}

/// The platforms for which Amazon Corretto builds are fetched.
pub open spec fn corretto_platform(p: Platform) -> bool {
    (p.arch == Arch::Aarch64 && (p.os == Os::Linux || p.os == Os::Macos))
        || ((p.arch == Arch::X86 || p.arch == Arch::X86_64) && p.os == Os::Windows)
        || (p.arch == Arch::X86_64 && p.os == Os::Linux)
}

/// The Corretto major version that stands for a Java version (16 is
/// served by 17).
pub open spec fn corretto_major(v: JavaVersion) -> Seq<char> {
    match v {
        JavaVersion::Java8 => "8"@,
        JavaVersion::Java16 => "17"@,
        JavaVersion::Java17 => "17"@,
        JavaVersion::Java21 => "21"@,
    }
}

/// The download of a Corretto JDK: the latest build of the major version
/// for the platform, a zip on Windows and a tar.gz elsewhere, except the
/// x86-64 Linux builds of 17 and 21, which are zips.
pub open spec fn corretto_url(v: JavaVersion, p: Platform) -> Seq<char> {
    let target = if p.os == Os::Linux && p.arch == Arch::Aarch64 {
        "aarch64-linux"@
    } else if p.os == Os::Macos {
        "aarch64-macos"@
    } else if p.arch == Arch::X86 {
        "x86-windows"@
    } else if p.os == Os::Windows {
        "x64-windows"@
    } else {
        "x64-linux"@
    };
    let ext = if p.os == Os::Windows || (p.os == Os::Linux && p.arch == Arch::X86_64 && v != JavaVersion::Java8) {
        "zip"@
    } else {
        "tar.gz"@
    };
    "https://corretto.aws/downloads/latest/amazon-corretto-"@ + corretto_major(v) + "-"@ + target + "-jdk."@ + ext
}

impl JavaVersion {
    /// The Amazon Corretto JDK to download for this version on the given
    /// platform.
    pub fn get_corretto_url(self, platform: Platform) -> (res: &'static str)
        requires
            corretto_platform(platform),
        ensures
            res@ == corretto_url(self, platform),
    {
        let r = if platform.arch == Arch::Aarch64 && platform.os == Os::Linux {
            match self {
                JavaVersion::Java16 | JavaVersion::Java17 => "https://corretto.aws/downloads/latest/amazon-corretto-17-aarch64-linux-jdk.tar.gz",
                JavaVersion::Java21 => "https://corretto.aws/downloads/latest/amazon-corretto-21-aarch64-linux-jdk.tar.gz",
                JavaVersion::Java8 => "https://corretto.aws/downloads/latest/amazon-corretto-8-aarch64-linux-jdk.tar.gz",
            }
        } else if platform.arch == Arch::Aarch64 && platform.os == Os::Macos {
            match self {
                JavaVersion::Java16 | JavaVersion::Java17 => "https://corretto.aws/downloads/latest/amazon-corretto-17-aarch64-macos-jdk.tar.gz",
                JavaVersion::Java21 => "https://corretto.aws/downloads/latest/amazon-corretto-21-aarch64-macos-jdk.tar.gz",
                JavaVersion::Java8 => "https://corretto.aws/downloads/latest/amazon-corretto-8-aarch64-macos-jdk.tar.gz",
            }
        } else if platform.arch == Arch::X86 && platform.os == Os::Windows {
            match self {
                JavaVersion::Java16 | JavaVersion::Java17 => "https://corretto.aws/downloads/latest/amazon-corretto-17-x86-windows-jdk.zip",
                JavaVersion::Java21 => "https://corretto.aws/downloads/latest/amazon-corretto-21-x86-windows-jdk.zip",
                JavaVersion::Java8 => "https://corretto.aws/downloads/latest/amazon-corretto-8-x86-windows-jdk.zip",
            }
        } else if platform.arch == Arch::X86_64 && platform.os == Os::Windows {
            match self {
                JavaVersion::Java16 | JavaVersion::Java17 => "https://corretto.aws/downloads/latest/amazon-corretto-17-x64-windows-jdk.zip",
                JavaVersion::Java21 => "https://corretto.aws/downloads/latest/amazon-corretto-21-x64-windows-jdk.zip",
                JavaVersion::Java8 => "https://corretto.aws/downloads/latest/amazon-corretto-8-x64-windows-jdk.zip",
            }
        } else {
            match self {
                JavaVersion::Java16 | JavaVersion::Java17 => "https://corretto.aws/downloads/latest/amazon-corretto-17-x64-linux-jdk.zip",
                JavaVersion::Java21 => "https://corretto.aws/downloads/latest/amazon-corretto-21-x64-linux-jdk.zip",
                JavaVersion::Java8 => "https://corretto.aws/downloads/latest/amazon-corretto-8-x64-linux-jdk.tar.gz",
            }
        };
        proof {
            reveal_strlit("https://corretto.aws/downloads/latest/amazon-corretto-");
            reveal_strlit("-");
            reveal_strlit("-jdk.");
            reveal_strlit("zip");
            reveal_strlit("tar.gz");
            reveal_strlit("8");
            reveal_strlit("17");
            reveal_strlit("21");
            reveal_strlit("aarch64-linux");
            reveal_strlit("aarch64-macos");
            reveal_strlit("x86-windows");
            reveal_strlit("x64-windows");
            reveal_strlit("x64-linux");
            reveal_strlit("https://corretto.aws/downloads/latest/amazon-corretto-17-aarch64-linux-jdk.tar.gz");
            reveal_strlit("https://corretto.aws/downloads/latest/amazon-corretto-21-aarch64-linux-jdk.tar.gz");
            reveal_strlit("https://corretto.aws/downloads/latest/amazon-corretto-8-aarch64-linux-jdk.tar.gz");
            reveal_strlit("https://corretto.aws/downloads/latest/amazon-corretto-17-aarch64-macos-jdk.tar.gz");
            reveal_strlit("https://corretto.aws/downloads/latest/amazon-corretto-21-aarch64-macos-jdk.tar.gz");
            reveal_strlit("https://corretto.aws/downloads/latest/amazon-corretto-8-aarch64-macos-jdk.tar.gz");
            reveal_strlit("https://corretto.aws/downloads/latest/amazon-corretto-17-x86-windows-jdk.zip");
            reveal_strlit("https://corretto.aws/downloads/latest/amazon-corretto-21-x86-windows-jdk.zip");
            reveal_strlit("https://corretto.aws/downloads/latest/amazon-corretto-8-x86-windows-jdk.zip");
            reveal_strlit("https://corretto.aws/downloads/latest/amazon-corretto-17-x64-windows-jdk.zip");
            reveal_strlit("https://corretto.aws/downloads/latest/amazon-corretto-21-x64-windows-jdk.zip");
            reveal_strlit("https://corretto.aws/downloads/latest/amazon-corretto-8-x64-windows-jdk.zip");
            reveal_strlit("https://corretto.aws/downloads/latest/amazon-corretto-17-x64-linux-jdk.zip");
            reveal_strlit("https://corretto.aws/downloads/latest/amazon-corretto-21-x64-linux-jdk.zip");
            reveal_strlit("https://corretto.aws/downloads/latest/amazon-corretto-8-x64-linux-jdk.tar.gz");
            assert(r@ =~= corretto_url(self, platform));
        }
        r
    }
}

/// The Java version actually installed for a requested one: Windows on ARM
/// has nothing older than 17, and ARM Macs have no Java 16.
pub open spec fn effective_version_spec(v: JavaVersion, p: Platform) -> JavaVersion {
    if p.os == Os::Windows && p.arch == Arch::Aarch64 {
        if v == JavaVersion::Java21 { JavaVersion::Java21 } else { JavaVersion::Java17 }
    } else if p.os == Os::Macos && p.arch == Arch::Aarch64 && v == JavaVersion::Java16 {
        JavaVersion::Java17
    } else {
        v
    }
}

/// The Java version actually installed for a requested one on a platform.
pub fn effective_version(version: JavaVersion, platform: Platform) -> (r: JavaVersion)
    ensures
        r == effective_version_spec(version, platform),
{
    if platform.os == Os::Windows && platform.arch == Arch::Aarch64 {
        match version {
            JavaVersion::Java8 | JavaVersion::Java16 | JavaVersion::Java17 => JavaVersion::Java17,
            JavaVersion::Java21 => JavaVersion::Java21,
        }
    } else if platform.os == Os::Macos && platform.arch == Arch::Aarch64 {
        match version {
            JavaVersion::Java16 => JavaVersion::Java17,
            _ => version,
        }
    } else {
        version
    }
}

/// Where an executable lies inside a Java installation: `bin/<name>` when
/// it is there, else the platform's own layout (a `.exe` on Windows, the
/// macOS bundle, the Java 8 folder of ARM Linux); `None` elsewhere.
pub open spec fn binary_path_spec(name: Seq<char>, normal_exists: bool, v: JavaVersion, p: Platform) -> Option<Seq<char>> {
    if normal_exists {
        Some("bin/"@ + name)
    } else if p.os == Os::Windows {
        Some("bin/"@ + name + ".exe"@)
    } else if p.os == Os::Macos {
        Some((if p.arch == Arch::Aarch64 && v == JavaVersion::Java8 { seq![] } else { "jre.bundle/"@ })
            + "Contents/Home/bin/"@ + name)
    } else if p.os == Os::Linux && p.arch == Arch::Arm {
        Some("jdk1.8.0_231/"@ + name)
    } else {
        None
    }
}

/// Where the executable `name` lies inside the installation of `version`,
/// given whether `bin/<name>` exists there.
pub fn java_binary_path(name: &str, normal_exists: bool, version: JavaVersion, platform: Platform) -> (r: Result<String, JavaInstallError>)
    ensures
        match r {
            Ok(path) => binary_path_spec(name@, normal_exists, version, platform) == Some(path@),
            Err(e) => binary_path_spec(name@, normal_exists, version, platform) is None && e is NoJavaBinFound,
        },
{
    let mut out: Vec<char> = Vec::new();
    if normal_exists {
        push_str_chars(&mut out, "bin/");
        push_str_chars(&mut out, name);
    } else if platform.os == Os::Windows {
        push_str_chars(&mut out, "bin/");
        push_str_chars(&mut out, name);
        push_str_chars(&mut out, ".exe");
    } else if platform.os == Os::Macos {
        if !(platform.arch == Arch::Aarch64 && version == JavaVersion::Java8) {
            push_str_chars(&mut out, "jre.bundle/");
        }
        push_str_chars(&mut out, "Contents/Home/bin/");
        push_str_chars(&mut out, name);
    } else if platform.os == Os::Linux && platform.arch == Arch::Arm {
        push_str_chars(&mut out, "jdk1.8.0_231/");
        push_str_chars(&mut out, name);
    } else {
        return Err(JavaInstallError::NoJavaBinFound);
    }
    let r = string_of(out.as_slice());
    assert(Some(r@) =~= binary_path_spec(name@, normal_exists, version, platform));
    Ok(r)
}

/// Where the executable `name` for a requested Java version lies: in the
/// installation of the version actually installed on the platform (the
/// folder `java_installs/<version>` of the returned version), at the path
/// inside it that `java_binary_path` gives, given whether `bin/<name>`
/// exists in that installation.
pub fn java_binary_location(name: &str, normal_exists: bool, version: JavaVersion, platform: Platform) -> (r: Result<(JavaVersion, String), JavaInstallError>)
    ensures
        match r {
            Ok((installed, path)) => installed == effective_version_spec(version, platform)
                && binary_path_spec(name@, normal_exists, installed, platform) == Some(path@),
            Err(e) => binary_path_spec(name@, normal_exists, effective_version_spec(version, platform), platform) is None
                && e is NoJavaBinFound,
        },
{
    let installed = effective_version(version, platform);
    match java_binary_path(name, normal_exists, installed, platform) {
        Ok(path) => Ok((installed, path)),
        Err(e) => Err(e),
    }
}

/// Platforms that only get an old Java 8 JDK from a third-party mirror.
pub open spec fn old_only_platform(p: Platform) -> bool {
    (p.os == Os::Linux && p.arch == Arch::Arm) || (p.os == Os::Solaris && (p.arch == Arch::X86_64 || p.arch == Arch::Sparc64))
}

pub open spec fn old_only_url(p: Platform) -> Seq<char> {
    if p.os == Os::Linux {
        "https://github.com/hmsjy2017/get-jdk/releases/download/v8u231/jdk-8u231-linux-arm32-vfp-hflt.tar.gz"@
    } else if p.arch == Arch::X86_64 {
        "https://github.com/hmsjy2017/get-jdk/releases/download/v8u231/jdk-8u231-solaris-x64.tar.gz"@
    } else {
        "https://github.com/hmsjy2017/get-jdk/releases/download/v8u231/jdk-8u231-solaris-sparcv9.tar.gz"@
    }
}

/// Where a Java that Mojang does not provide is downloaded from: the
/// Java 8 mirror on the platforms that have nothing newer (which then
/// refuse any other version), else Amazon Corretto.
pub fn alternate_source(version: JavaVersion, platform: Platform) -> (r: Result<&'static str, JavaInstallError>)
    requires
        old_only_platform(platform) || corretto_platform(platform),
    ensures
        match r {
            Ok(url) => if old_only_platform(platform) {
                version == JavaVersion::Java8 && url@ == old_only_url(platform)
            } else {
                url@ == corretto_url(version, platform)
            },
            Err(e) => old_only_platform(platform) && version != JavaVersion::Java8 && e is UnsupportedOnlyJava8,
        },
{
    let old_only = (platform.os == Os::Linux && platform.arch == Arch::Arm)
        || (platform.os == Os::Solaris && (platform.arch == Arch::X86_64 || platform.arch == Arch::Sparc64));
    if old_only {
        if version != JavaVersion::Java8 {
            return Err(JavaInstallError::UnsupportedOnlyJava8);
        }
        if platform.os == Os::Linux {
            Ok("https://github.com/hmsjy2017/get-jdk/releases/download/v8u231/jdk-8u231-linux-arm32-vfp-hflt.tar.gz")
        } else if platform.arch == Arch::X86_64 {
            Ok("https://github.com/hmsjy2017/get-jdk/releases/download/v8u231/jdk-8u231-solaris-x64.tar.gz")
        } else {
            Ok("https://github.com/hmsjy2017/get-jdk/releases/download/v8u231/jdk-8u231-solaris-sparcv9.tar.gz")
        }
    } else {
        Ok(version.get_corretto_url(platform))
    }
}

/// The kinds of archive a JDK download comes in.
#[derive(PartialEq, Eq, Structural, Clone, Copy)]
pub enum ArchiveKind {
    TarGz,
    Zip,
}

/// How a downloaded JDK is unpacked, by the end of its address.
pub fn archive_kind(url: &str) -> (r: Result<ArchiveKind, JavaInstallError>)
    ensures
        match r {
            Ok(k) => if ends_with(url@, "tar.gz"@) { k == ArchiveKind::TarGz } else { ends_with(url@, "zip"@) && k == ArchiveKind::Zip },
            Err(e) => !ends_with(url@, "tar.gz"@) && !ends_with(url@, "zip"@) && (e matches JavaInstallError::UnknownExtension(m) && m@ == url@),
        },
{
    let v = chars_of(url);
    let tgz = chars_of("tar.gz");
    let zip = chars_of("zip");
    if ends_with_exec(v.as_slice(), tgz.as_slice()) {
        Ok(ArchiveKind::TarGz)
    } else if ends_with_exec(v.as_slice(), zip.as_slice()) {
        Ok(ArchiveKind::Zip)
    } else {
        Err(JavaInstallError::UnknownExtension(url.to_owned()))
    }
}

/// How many files of a Java installation are downloaded at once: fewer
/// on macOS.
pub fn install_job_limit(platform: Platform) -> (n: usize)
    ensures
        n == (if platform.os == Os::Macos { 16usize } else { 64usize }),
{
    if platform.os == Os::Macos {
        16
    } else {
        64
    }
}

/// The two progress reports of an installation from a third-party
/// archive: fetching it (step 0) and unpacking it (step 1).
pub fn archive_progress(step: usize) -> (p: GenericProgress)
    requires
        step < 2,
    ensures
        p.done == step,
        p.total == 2,
        !p.has_finished,
        p.message matches Some(m) && m@ == (if step == 0 { "Getting tar.gz archive"@ } else { "Extracting tar.gz archive"@ }),
{
    let message = if step == 0 {
        "Getting tar.gz archive".to_owned()
    } else {
        "Extracting tar.gz archive".to_owned()
    };
    GenericProgress { done: step, total: 2, message: Some(message), has_finished: false }
}

/// The progress report for a file of a Java installation.
pub fn file_progress(done: usize, total: usize, file_name: &str) -> (p: GenericProgress)
    ensures
        p.done == done,
        p.total == total,
        !p.has_finished,
        p.message matches Some(m) && m@ == "Installed file: "@ + file_name@,
{
    let mut out = chars_of("Installed file: ");
    push_str_chars(&mut out, file_name);
    GenericProgress { done, total, message: Some(string_of(out.as_slice())), has_finished: false }
}

/// What `lzma_rs::lzma_decompress` makes of a stream: its decoded bytes,
/// or `None` when the stream is not valid LZMA.
pub uninterp spec fn lzma_decoded(data: Seq<u8>) -> Option<Seq<u8>>;

/// `lzma_rs::lzma_decompress` over a byte slice. The decoded content is
/// named, not stated; output written before a failure is discarded.
#[verifier::external_body]
fn lzma_decompress_bytes(data: &[u8]) -> (r: Option<Vec<u8>>)
    ensures
        match r {
            Some(v) => lzma_decoded(data@) == Some(v@),
            None => lzma_decoded(data@) is None,
        },
{
    let mut input = std::io::BufReader::new(std::io::Cursor::new(data));
    let mut out: Vec<u8> = Vec::new();
    match lzma_rs::lzma_decompress(&mut input, &mut out) {
        Ok(()) => Some(out),
        Err(_) => None,
    }
}

/// The content of a file of a Java installation that came compressed with
/// LZMA; `None` tells the caller to fetch the uncompressed file instead.
pub fn unpack_lzma(data: &[u8]) -> (r: Option<Vec<u8>>)
    ensures
        match r {
            Some(v) => lzma_decoded(data@) == Some(v@),
            None => lzma_decoded(data@) is None,
        },
{
    lzma_decompress_bytes(data)
}

} // verus!
