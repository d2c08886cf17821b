use quantum_launcher::fabric::{Library, LibraryRule};
use quantum_launcher::request::{Is404NotFound, JsonDownloadError, RequestError};
use quantum_launcher::neoforge::ForgeInstallError;
use quantum_launcher::version_list::{
    backend_request_url, first_seven_chars, latest_commit_short, BackendType, FabricVersion,
    FabricVersionListItem, FetchStep, VersionList, VersionListFetch,
};

fn lib(name: &str, url: Option<&str>, rules: Option<Vec<(&str, Option<&str>)>>) -> Library {
    Library {
        name: name.to_owned(),
        url: url.map(|u| u.to_owned()),
        rules: rules.map(|rs| {
            rs.into_iter()
                .map(|(a, o)| LibraryRule { action: a.to_owned(), os: o.map(|x| x.to_owned()) })
                .collect()
        }),
    }
}

#[test]
fn library_paths() {
    let l = lib("net.fabricmc:fabric-loader:0.16.0", Some("https://maven.fabricmc.net/"), None);
    assert_eq!(
        l.get_path_with_separator('/'),
        "net/fabricmc/fabric-loader/0.16.0/fabric-loader-0.16.0/net.fabricmc.jar"
    );
    assert_eq!(
        l.get_path_with_separator('\\'),
        "net\\fabricmc\\fabric-loader\\0.16.0\\fabric-loader-0.16.0\\net.fabricmc.jar"
    );
    let p = l.get_path();
    let sep = std::path::MAIN_SEPARATOR;
    assert_eq!(p, l.get_path_with_separator(sep));
    assert_eq!(
        l.get_url().as_deref(),
        Some("https://maven.fabricmc.net/net/fabricmc/fabric-loader/0.16.0/fabric-loader-0.16.0.jar")
    );
    assert!(lib("a:b:c", None, None).get_url().is_none());
    let spaced = lib("my group:art:1", None, None);
    assert_eq!(spaced.get_path_with_separator('/'), "my group/art/1/art-1/my_group.jar");
}

#[test]
fn library_rules() {
    assert!(lib("a:b:c", None, None).is_allowed("linux"));
    let only_osx = lib("a:b:c", None, Some(vec![("allow", Some("osx"))]));
    assert!(only_osx.is_allowed("osx"));
    assert!(!only_osx.is_allowed("linux"));
    let not_osx = lib("a:b:c", None, Some(vec![("allow", None), ("disallow", Some("osx"))]));
    assert!(not_osx.is_allowed("windows"));
    assert!(!not_osx.is_allowed("osx"));
    assert!(!lib("a:b:c", None, Some(vec![])).is_allowed("linux"));
}

#[test]
fn lwjgl2_detection() {
    assert!(lib("org.lwjgl.lwjgl:lwjgl:2.9.4", None, None).is_lwjgl2());
    assert!(!lib("org.lwjgl:lwjgl:3.3.1", None, None).is_lwjgl2());
    assert!(!lib("org.lwjgl.lwjgl:lwjgl:3.2", None, None).is_lwjgl2());
}

fn items(vs: &[&str]) -> Vec<FabricVersionListItem> {
    vs.iter().map(|v| FabricVersionListItem { loader: FabricVersion { version: v.to_string() } }).collect()
}

fn versions(l: &[FabricVersionListItem]) -> Vec<String> {
    l.iter().map(|i| i.label()).collect()
}

#[test]
fn backend_urls_and_names() {
    assert_eq!(BackendType::Fabric.get_url(), "https://meta.fabricmc.net/v2");
    assert_eq!(BackendType::Quilt.get_url(), "https://meta.quiltmc.org/v3");
    assert_eq!(BackendType::Babric.get_url(), "https://meta.babric.glass-launcher.net/v2");
    assert_eq!(BackendType::CursedLegacy.label(), "Fabric (Cursed Legacy)");
    assert_eq!(BackendType::Quilt.loader_name(), "Quilt");
    assert_eq!(BackendType::OrnitheMC.loader_name(), "Fabric");
    assert!(BackendType::Quilt.is_quilt());
    assert!(!BackendType::Fabric.is_quilt());
    assert!(BackendType::Fabric.backend_implementation().is_none());
    assert_eq!(BackendType::LegacyFabric.backend_implementation().as_deref(), Some("Fabric (Legacy)"));
    assert_eq!(
        backend_request_url(BackendType::Fabric, "/versions/loader"),
        "https://meta.fabricmc.net/v2/versions/loader"
    );
    assert_eq!(
        backend_request_url(BackendType::Quilt, "versions/loader"),
        "https://meta.quiltmc.org/v3/versions/loader"
    );
}

#[test]
fn catalogue_choices() {
    let beta = VersionList::Beta173 { ornithe_mc: items(&["o"]), babric: items(&["b"]), cursed_legacy: items(&["c"]) };
    assert!(beta.get_choices() == vec![BackendType::OrnitheMC, BackendType::Babric, BackendType::CursedLegacy]);
    let (l, b) = beta.just_get_one();
    assert!(b == BackendType::Babric);
    assert_eq!(versions(&l), vec!["b"]);
    let both = VersionList::Both { legacy_fabric: items(&["l"]), ornithe_mc: items(&["o"]) };
    assert!(!both.is_unsupported());
    assert_eq!(versions(&both.get_specific(BackendType::OrnitheMC).unwrap()), vec!["o"]);
    assert!(VersionList::Fabric(items(&["f"])).get_specific(BackendType::Quilt).is_none());
    assert!(VersionList::Fabric(items(&[])).is_unsupported());
    assert!(VersionList::Unsupported.is_unsupported());
    let (l, b) = VersionList::Unsupported.just_get_one();
    assert!(l.is_empty() && b == BackendType::Fabric);
    assert!(matches!(VersionList::from_old_version_lists(items(&[]), items(&[])), VersionList::Unsupported));
    assert!(matches!(VersionList::from_old_version_lists(items(&["l"]), items(&[])), VersionList::LegacyFabric(_)));
    assert!(matches!(VersionList::from_old_version_lists(items(&[]), items(&["o"])), VersionList::OrnitheMC(_)));
    assert!(matches!(VersionList::from_old_version_lists(items(&["l"]), items(&["o"])), VersionList::Both { .. }));
}

#[test]
fn commit_shortening() {
    assert_eq!(first_seven_chars("0123456789abcdef"), "0123456");
    assert_eq!(first_seven_chars("abc"), "abc");
    assert_eq!(latest_commit_short(&["fedcba9876".to_owned(), "x".to_owned()]), "fedcba9");
    assert_eq!(latest_commit_short(&[]), "5e8a1e8");
}

fn not_found() -> JsonDownloadError {
    JsonDownloadError::RequestError(RequestError::DownloadError { code: 404, url: "u".to_owned() })
}

fn server_error() -> JsonDownloadError {
    JsonDownloadError::RequestError(RequestError::DownloadError { code: 500, url: "u".to_owned() })
}

#[test]
fn not_found_detection() {
    assert!(not_found().is_not_found());
    assert!(!server_error().is_not_found());
    assert!(!JsonDownloadError::SerdeError("bad".to_owned()).is_not_found());
    assert!(!RequestError::ReqwestError("timeout".to_owned()).is_not_found());
}

fn expect_get(step: FetchStep) -> String {
    match step {
        FetchStep::Get(u) => u,
        FetchStep::Finished(_) => panic!("expected another request"),
    }
}

#[test]
fn fetch_fabric_list() {
    let (mut f, url) = VersionListFetch::start("1.20.1".to_owned(), false, false);
    assert_eq!(url, "https://meta.fabricmc.net/v2/versions/loader/1.20.1");
    match f.on_reply(Ok(items(&["0.16.0"]))) {
        FetchStep::Finished(Ok(VersionList::Fabric(l))) => assert_eq!(versions(&l), vec!["0.16.0"]),
        _ => panic!("expected the Fabric list"),
    }
}

#[test]
fn fetch_quilt_retries_then_gives_up_on_not_found() {
    let (mut f, url) = VersionListFetch::start("1.20.1".to_owned(), true, false);
    assert_eq!(url, "https://meta.quiltmc.org/v3/versions/loader/1.20.1");
    // The first failure is always retried.
    let again = expect_get(f.on_reply(Err(not_found())));
    assert_eq!(again, url);
    match f.on_reply(Err(not_found())) {
        FetchStep::Finished(Ok(VersionList::Quilt(l))) => assert!(l.is_empty()),
        _ => panic!("expected an empty Quilt list"),
    }
}

#[test]
fn fetch_gives_up_after_five_retries() {
    let (mut f, _) = VersionListFetch::start("1.20.1".to_owned(), false, true);
    for _ in 0..5 {
        expect_get(f.on_reply(Err(server_error())));
    }
    assert!(matches!(f.on_reply(Err(server_error())), FetchStep::Finished(Err(_))));
}

#[test]
fn fetch_old_version_asks_community_backends() {
    let (mut f, _) = VersionListFetch::start("1.7.10".to_owned(), false, false);
    let u = expect_get(f.on_reply(Ok(items(&[]))));
    assert_eq!(u, "https://meta.legacyfabric.net/v2/versions/loader/1.7.10");
    let u = expect_get(f.on_reply(Ok(items(&["0.14.0"]))));
    assert_eq!(u, "https://meta.ornithemc.net/v3/versions/fabric-loader/1.7.10");
    let u = expect_get(f.on_reply(Ok(items(&[]))));
    assert_eq!(u, "https://meta.ornithemc.net/v3/versions/fabric-loader/1.7.10-client");
    match f.on_reply(Ok(items(&["0.15.0"]))) {
        FetchStep::Finished(Ok(VersionList::Both { legacy_fabric, ornithe_mc })) => {
            assert_eq!(versions(&legacy_fabric), vec!["0.14.0"]);
            assert_eq!(versions(&ornithe_mc), vec!["0.15.0"]);
        }
        _ => panic!("expected both community lists"),
    }
}

#[test]
fn fetch_beta_version() {
    let (mut f, _) = VersionListFetch::start("b1.7.3".to_owned(), false, true);
    let u = expect_get(f.on_reply(Ok(items(&[]))));
    assert_eq!(u, "https://meta.ornithemc.net/v3/versions/fabric-loader/b1.7.3");
    let u = expect_get(f.on_reply(Ok(items(&["0.1"]))));
    assert_eq!(u, "https://meta.babric.glass-launcher.net/v2/versions/loader/b1.7.3");
    match f.on_reply(Ok(items(&["0.2"]))) {
        FetchStep::Finished(Ok(VersionList::Beta173 { ornithe_mc, babric, cursed_legacy })) => {
            assert_eq!(versions(&ornithe_mc), vec!["0.1"]);
            assert_eq!(versions(&babric), vec!["0.2"]);
            assert_eq!(versions(&cursed_legacy), vec!["b1.7.3"]);
        }
        _ => panic!("expected the Beta 1.7.3 catalogue"),
    }
}

fn catalogues() -> Vec<VersionList> {
    vec![
        VersionList::Beta173 { ornithe_mc: items(&["o"]), babric: items(&["b"]), cursed_legacy: items(&["c"]) },
        VersionList::Quilt(items(&["q"])),
        VersionList::Fabric(items(&["f"])),
        VersionList::LegacyFabric(items(&["l"])),
        VersionList::OrnitheMC(items(&["o"])),
        VersionList::Both { legacy_fabric: items(&["l"]), ornithe_mc: items(&["o"]) },
    ]
}

#[test]
fn default_pick_is_one_of_the_choices() {
    for (v, w) in catalogues().into_iter().zip(catalogues()) {
        let choices = v.get_choices();
        let (list, backend) = v.just_get_one();
        assert!(choices.contains(&backend));
        assert_eq!(versions(&w.get_specific(backend).unwrap()), versions(&list));
    }
    assert!(VersionList::Unsupported.get_specific(BackendType::Fabric).is_none());
}

#[test]
fn request_error_messages() {
    let e = RequestError::DownloadError { code: 404, url: "https://x/y".to_owned() };
    assert_eq!(e.message(), "could not send request: download error with code 404, url https://x/y");
    let e = RequestError::ReqwestError("timed out".to_owned());
    assert_eq!(e.message(), "could not send request: reqwest library error: timed out");
}

#[test]
fn forge_install_error_messages() {
    assert_eq!(
        ForgeInstallError::NoForgeVersionFound.message(),
        "error installing forge: no matching forge version found"
    );
    assert_eq!(
        ForgeInstallError::CompileError("out".to_owned(), "err".to_owned()).message(),
        "error installing forge: (compile error)\nSTDOUT = out\nSTDERR = err"
    );
    assert_eq!(
        ForgeInstallError::PathBufToStr("/a b/c".to_owned()).message(),
        "error installing forge: (pathbuf to str): \"/a b/c\""
    );
    assert_eq!(
        ForgeInstallError::Request(RequestError::DownloadError { code: 500, url: "u".to_owned() }).message(),
        "error installing forge: could not send request: download error with code 500, url u"
    );
    assert_eq!(
        ForgeInstallError::TempFile("full".to_owned()).message(),
        "error installing forge: (tempfile): full"
    );
}
