use quantum_launcher::java::{
    alternate_source, archive_kind, archive_progress, effective_version, file_progress,
    install_job_limit, java_binary_location, java_binary_path, unpack_lzma, Arch, ArchiveKind, JavaInstallError,
    JavaVersion, Os, Platform,
};

fn p(os: Os, arch: Arch) -> Platform {
    Platform { os, arch }
}

#[test]
fn corretto_downloads() {
    let linux = p(Os::Linux, Arch::X86_64);
    assert_eq!(
        JavaVersion::Java17.get_corretto_url(linux),
        "https://corretto.aws/downloads/latest/amazon-corretto-17-x64-linux-jdk.zip"
    );
    assert_eq!(
        JavaVersion::Java8.get_corretto_url(linux),
        "https://corretto.aws/downloads/latest/amazon-corretto-8-x64-linux-jdk.tar.gz"
    );
    assert_eq!(
        JavaVersion::Java16.get_corretto_url(p(Os::Macos, Arch::Aarch64)),
        "https://corretto.aws/downloads/latest/amazon-corretto-17-aarch64-macos-jdk.tar.gz"
    );
    assert_eq!(
        JavaVersion::Java21.get_corretto_url(p(Os::Windows, Arch::X86)),
        "https://corretto.aws/downloads/latest/amazon-corretto-21-x86-windows-jdk.zip"
    );
}

#[test]
fn versions_that_platforms_lack() {
    assert!(matches!(effective_version(JavaVersion::Java8, p(Os::Windows, Arch::Aarch64)), JavaVersion::Java17));
    assert!(matches!(effective_version(JavaVersion::Java21, p(Os::Windows, Arch::Aarch64)), JavaVersion::Java21));
    assert!(matches!(effective_version(JavaVersion::Java16, p(Os::Macos, Arch::Aarch64)), JavaVersion::Java17));
    assert!(matches!(effective_version(JavaVersion::Java8, p(Os::Macos, Arch::Aarch64)), JavaVersion::Java8));
    assert!(matches!(effective_version(JavaVersion::Java16, p(Os::Linux, Arch::X86_64)), JavaVersion::Java16));
}

#[test]
fn binary_locations() {
    let linux = p(Os::Linux, Arch::X86_64);
    assert_eq!(java_binary_path("java", true, JavaVersion::Java17, linux).unwrap(), "bin/java");
    assert_eq!(
        java_binary_path("javaw", false, JavaVersion::Java17, p(Os::Windows, Arch::X86_64)).unwrap(),
        "bin/javaw.exe"
    );
    assert_eq!(
        java_binary_path("java", false, JavaVersion::Java17, p(Os::Macos, Arch::Aarch64)).unwrap(),
        "jre.bundle/Contents/Home/bin/java"
    );
    assert_eq!(
        java_binary_path("java", false, JavaVersion::Java8, p(Os::Macos, Arch::Aarch64)).unwrap(),
        "Contents/Home/bin/java"
    );
    assert!(matches!(
        java_binary_path("java", false, JavaVersion::Java17, linux),
        Err(JavaInstallError::NoJavaBinFound)
    ));
}

#[test]
fn third_party_sources() {
    let arm = p(Os::Linux, Arch::Arm);
    assert_eq!(
        alternate_source(JavaVersion::Java8, arm).unwrap(),
        "https://github.com/hmsjy2017/get-jdk/releases/download/v8u231/jdk-8u231-linux-arm32-vfp-hflt.tar.gz"
    );
    assert!(matches!(alternate_source(JavaVersion::Java17, arm), Err(JavaInstallError::UnsupportedOnlyJava8)));
    assert_eq!(
        alternate_source(JavaVersion::Java21, p(Os::Linux, Arch::Aarch64)).unwrap(),
        "https://corretto.aws/downloads/latest/amazon-corretto-21-aarch64-linux-jdk.tar.gz"
    );
}

#[test]
fn archives_by_extension() {
    assert!(archive_kind("a/b.tar.gz").unwrap() == ArchiveKind::TarGz);
    assert!(archive_kind("a/b.zip").unwrap() == ArchiveKind::Zip);
    match archive_kind("a/b.7z") {
        Err(e) => assert_eq!(
            e.message(),
            "while installing Java:\nunknown extension for java: a/b.7z\n\nTHIS IS A BUG, PLEASE REPORT ON DISCORD"
        ),
        Ok(_) => panic!("expected an error"),
    }
}

#[test]
fn error_messages() {
    assert_eq!(JavaInstallError::NoJavaBinFound.message(), "while installing Java:\ncouldn't find java binary");
    assert_eq!(
        JavaInstallError::UnsupportedOnlyJava8.message(),
        "on your platform, only Java 8 (Minecraft 1.16.5 and below) is supported!\n"
    );
    assert_eq!(JavaInstallError::Io("denied".to_owned()).message(), "while installing Java:\ndenied");
    assert_eq!(
        JavaInstallError::ZipExtract("bad".to_owned()).message(),
        "while installing Java:\nzip extract error:\nbad"
    );
    assert_eq!(
        JavaInstallError::TarGzExtract("bad".to_owned()).message(),
        "while installing Java:\ncouldn't extract java tar.gz:\nbad"
    );
}

#[test]
fn progress_reports() {
    assert_eq!(install_job_limit(p(Os::Macos, Arch::X86_64)), 16);
    assert_eq!(install_job_limit(p(Os::Linux, Arch::X86_64)), 64);
    let a = archive_progress(0);
    assert_eq!((a.done, a.total, a.message.as_deref()), (0, 2, Some("Getting tar.gz archive")));
    let b = archive_progress(1);
    assert_eq!(b.message.as_deref(), Some("Extracting tar.gz archive"));
    let f = file_progress(3, 9, "lib/rt.jar");
    assert_eq!((f.done, f.total, f.message.as_deref(), f.has_finished), (3, 9, Some("Installed file: lib/rt.jar"), false));
}

#[test]
fn lzma_files_are_unpacked() {
    let plain = b"java binary content, repeated repeated repeated".to_vec();
    let mut packed = Vec::new();
    lzma_rs::lzma_compress(&mut std::io::Cursor::new(&plain), &mut packed).unwrap();
    assert_ne!(packed, plain);
    assert_eq!(unpack_lzma(&packed), Some(plain));
    assert_eq!(unpack_lzma(b"not lzma at all"), None);
}

#[test]
fn java_binary_in_the_installed_version() {
    let (v, path) = java_binary_location("java", false, JavaVersion::Java16, p(Os::Macos, Arch::Aarch64)).unwrap();
    assert!(v == JavaVersion::Java17);
    assert_eq!(path, "jre.bundle/Contents/Home/bin/java");
    let (v, path) = java_binary_location("javaw", false, JavaVersion::Java8, p(Os::Windows, Arch::Aarch64)).unwrap();
    assert!(v == JavaVersion::Java17);
    assert_eq!(path, "bin/javaw.exe");
    let (v, path) = java_binary_location("java", true, JavaVersion::Java8, p(Os::Linux, Arch::X86_64)).unwrap();
    assert!(v == JavaVersion::Java8);
    assert_eq!(path, "bin/java");
    assert!(matches!(
        java_binary_location("java", false, JavaVersion::Java17, p(Os::Linux, Arch::X86_64)),
        Err(JavaInstallError::NoJavaBinFound)
    ));
}
