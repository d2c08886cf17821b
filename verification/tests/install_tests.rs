use quantum_launcher::clean::{
    cleanup_plan, folder_still_used, index_file_name, unused_files, SIZE_LIMIT_BYTES,
};
use quantum_launcher::launch_error::GameLaunchError;
use quantum_launcher::fabric::Library;
use quantum_launcher::mclogs::{interpret_response, upload_form, MclogsResponse};
use quantum_launcher::multimc::{
    fabric_library_jobs, filter_bytearray, legacy_profile_url_exec, library_progress_message,
    merge_jvm_args, pick_instance_name, pick_loader_version, read_instance_cfg, CfgError,
    InstanceRecipe, Loader, MmcPackComponent,
};
use quantum_launcher::neoforge::{
    check_release, choose_version, installer_run_classpath, installer_source, installer_url,
    matching_versions, neoforge_start_pattern, plan_libraries, ForgeLibrary, NeoforgeVersionError,
};
use quantum_launcher::version_list::{FabricVersion, FabricVersionListItem};

fn v(xs: &[&str]) -> Vec<String> {
    xs.iter().map(|x| x.to_string()).collect()
}

#[test]
fn neoforge_version_patterns() {
    assert_eq!(neoforge_start_pattern("1.20.1", false), "20.1.");
    assert_eq!(neoforge_start_pattern("1.21", false), "21.0.");
    assert_eq!(neoforge_start_pattern("24w14a", true), "0.24w14a");
}

#[test]
fn neoforge_versions_for_a_game_version() {
    let all = v(&["20.2.3-beta", "20.2.86", "20.4.1", "21.0.5"]);
    assert_eq!(matching_versions(&all, "20.2.").unwrap(), v(&["20.2.3-beta", "20.2.86"]));
    assert!(matching_versions(&all, "19.0.") == Err(NeoforgeVersionError::NoVersionFound));
    assert_eq!(choose_version(None, &v(&["20.2.3", "20.2.86"])).unwrap(), "20.2.86");
    assert_eq!(choose_version(Some("20.2.3".to_owned()), &[]).unwrap(), "20.2.3");
    assert!(choose_version(None, &[]) == Err(NeoforgeVersionError::NoVersionFound));
}

#[test]
fn neoforge_needs_a_recent_minecraft() {
    assert!(check_release("2023-09-21T12:00:00+00:00").is_ok());
    assert!(check_release("2023-09-20T09:02:57+00:00").is_ok());
    // The same instant written with another offset.
    assert!(check_release("2023-09-20T11:02:57+02:00").is_ok());
    assert!(check_release("2023-06-07T09:35:21+00:00") == Err(NeoforgeVersionError::OutdatedMinecraft));
    assert!(check_release("yesterday") == Err(NeoforgeVersionError::BadReleaseTime));
}

#[test]
fn neoforge_installer_details() {
    assert_eq!(
        installer_url("20.2.86"),
        "https://maven.neoforged.net/releases/net/neoforged/neoforge/20.2.86/neoforge-20.2.86-installer.jar"
    );
    let template = "run(CLIENT, new File(\".\"))";
    assert_eq!(installer_source(template, true), "run(SERVER, new File(\".\"), a -> true)");
    assert_eq!(installer_source(template, false), "run(CLIENT, new File(\".\"), a -> true)");
    assert_eq!(installer_run_classpath(':'), "forge/installer.jar:installer.jar:forge/:.");
}

#[test]
fn neoforge_library_plan() {
    let libs = vec![
        ForgeLibrary { name: "net.neoforged:fancy:1.0".to_owned(), url: None, artifact: None, clientreq: None },
        ForgeLibrary {
            name: "org.ow2:asm:9.5".to_owned(),
            url: Some("https://maven.example/".to_owned()),
            artifact: None,
            clientreq: Some(true),
        },
        ForgeLibrary { name: "server:only:1".to_owned(), url: None, artifact: None, clientreq: Some(false) },
        ForgeLibrary {
            name: "a:b:c".to_owned(),
            url: None,
            artifact: Some(("https://x/y.jar".to_owned(), "y/y.jar".to_owned())),
            clientreq: None,
        },
    ];
    let plan = plan_libraries(&libs, ';');
    assert_eq!(
        plan.downloads,
        vec![
            (
                "https://libraries.minecraft.net/net/neoforged/fancy/1.0/fancy-1.0.jar".to_owned(),
                "net/neoforged/fancy/1.0/fancy-1.0.jar".to_owned()
            ),
            ("https://maven.example/org/ow2/asm/9.5/asm-9.5.jar".to_owned(), "org/ow2/asm/9.5/asm-9.5.jar".to_owned()),
            ("https://x/y.jar".to_owned(), "y/y.jar".to_owned()),
        ]
    );
    assert_eq!(
        plan.classpath,
        "../forge/libraries/net/neoforged/fancy/1.0/fancy-1.0.jar;../forge/libraries/org/ow2/asm/9.5/asm-9.5.jar;../forge/libraries/y/y.jar;"
    );
    assert_eq!(plan.clean_classpath, "net.neoforged:fancy\n\norg.ow2:asm\n\na:b\n\n");
}

#[test]
fn oldest_files_go_first_and_no_more_than_needed() {
    assert_eq!(SIZE_LIMIT_BYTES, 100 * 1024 * 1024);
    // (size, age key): key 1 is the oldest.
    let files = [(40, 3), (50, 1), (30, 2), (10, 4)];
    assert!(cleanup_plan(&files, 200).is_empty());
    assert!(cleanup_plan(&files, 130).is_empty());
    assert_eq!(cleanup_plan(&files, 100), vec![1]);
    assert_eq!(cleanup_plan(&files, 60), vec![1, 2]);
    assert_eq!(cleanup_plan(&files, 0), vec![1, 2, 0, 3]);
}

#[test]
fn unused_cache_files() {
    let names = v(&["1.json", "5.json", "17.json"]);
    assert_eq!(unused_files(&names, &v(&["5.json"])), vec![0, 2]);
    assert!(unused_files(&names, &names).is_empty());
    assert_eq!(index_file_name("17"), "17.json");
}

fn comp(name: &str, version: &str) -> MmcPackComponent {
    MmcPackComponent { cached_name: name.to_owned(), cached_version: version.to_owned() }
}

#[test]
fn multimc_components() {
    let (r, unknown) = InstanceRecipe::from_components(&[
        comp("LWJGL 3", "3.3.1"),
        comp("Minecraft", "1.12.2"),
        comp("NeoForge", "47.1"),
        comp("Intermediary Mappings", "1.12.2"),
        comp("Mystery", "1"),
    ]);
    assert!(r.is_lwjgl3);
    assert_eq!(r.mc_version, "1.12.2");
    assert!(matches!(r.loader, Some(Loader::Forge)));
    assert_eq!(r.loader_version.as_deref(), Some("47.1"));
    assert_eq!(unknown, v(&["Mystery"]));
    let (r, _) = InstanceRecipe::from_components(&[comp("Quilt Loader", "0.20"), comp("Fabric Loader", "0.15")]);
    assert_eq!(r.mc_version, "(MultiMC) Couldn't find minecraft version");
    assert!(matches!(r.loader, Some(Loader::Fabric)));
    assert_eq!(r.loader_version.as_deref(), Some("0.15"));
    assert!(!r.is_lwjgl3);
}

#[test]
fn lwjgl3_port_of_old_versions() {
    let reference = "2017-09-18T08:39:46+00:00";
    let (mut r, _) = InstanceRecipe::from_components(&[comp("Minecraft", "1.7.10"), comp("LWJGL 3", "3")]);
    r.setup_lwjgl3(Some("2014-05-14T17:29:23+00:00"), reference);
    assert_eq!(r.mc_version, "1.7.10-lwjgl3");
    let (mut r, _) = InstanceRecipe::from_components(&[comp("Minecraft", "1.16.5"), comp("LWJGL 3", "3")]);
    r.setup_lwjgl3(Some("2021-01-14T16:05:32+00:00"), reference);
    assert_eq!(r.mc_version, "1.16.5");
    let (mut r, _) = InstanceRecipe::from_components(&[comp("Minecraft", "1.7.10")]);
    r.setup_lwjgl3(Some("2014-05-14T17:29:23+00:00"), reference);
    assert_eq!(r.mc_version, "1.7.10");
    let (mut r, _) = InstanceRecipe::from_components(&[comp("Minecraft", "1.7.10"), comp("LWJGL 3", "3")]);
    r.setup_lwjgl3(None, reference);
    assert_eq!(r.mc_version, "1.7.10");
}

#[test]
fn multimc_config_text() {
    let cfg = "name=Test\nmods_Page\\Columns=@ByteArray(x)\r\nJvmArgs=-Xss1M\n";
    assert_eq!(filter_bytearray(cfg), "name=Test\nJvmArgs=-Xss1M");
    assert_eq!(merge_jvm_args(Some(v(&["-Da=1"])), " -Xss1M  -Db=2 "), v(&["-Da=1", "-Xss1M", "-Db=2"]));
    assert_eq!(merge_jvm_args(None, ""), Vec::<String>::new());
}

#[test]
fn imported_fabric_profiles() {
    assert_eq!(
        legacy_profile_url_exec(false, "0.15.0"),
        "https://meta.fabricmc.net/v2/versions/loader/1.14.4/0.15.0/profile/json"
    );
    assert_eq!(
        legacy_profile_url_exec(true, "0.20.0"),
        "https://meta.quiltmc.org/v3/versions/loader/1.14.4/0.20.0/profile/json"
    );
    let items = vec![FabricVersionListItem { loader: FabricVersion { version: "0.16.0".to_owned() } }];
    assert_eq!(pick_loader_version(Some("0.1".to_owned()), &items), "0.1");
    assert_eq!(pick_loader_version(None, &items), "0.16.0");
    assert_eq!(pick_loader_version(None, &[]), " No versions found! ");
    let libs = vec![
        Library { name: "net.fabricmc:intermediary:1.12.2".to_owned(), url: Some("https://m/".to_owned()), rules: None },
        Library { name: "org.ow2:asm:9.5".to_owned(), url: Some("https://m/".to_owned()), rules: None },
        Library { name: "no:repo:1".to_owned(), url: None, rules: None },
    ];
    let jobs = fabric_library_jobs(&libs, '/');
    assert_eq!(jobs.len(), 1);
    assert_eq!(jobs[0].path, "org/ow2/asm/9.5/asm-9.5/org.ow2.jar");
    assert_eq!(jobs[0].url, "https://m/org/ow2/asm/9.5/asm-9.5.jar");
    assert_eq!(jobs[0].name, "org.ow2:asm:9.5");
    assert_eq!(library_progress_message("org.ow2:asm:9.5"), "Installing fabric: library org.ow2:asm:9.5");
}

#[test]
fn log_upload_form() {
    assert_eq!(upload_form("hello world & more").unwrap(), "content=hello%20world%20%26%20more");
    assert_eq!(upload_form("plain-text_1.2~3").unwrap(), "content=plain-text_1.2~3");
    assert_eq!(upload_form(" \n").unwrap_err(), "Cannot upload empty log");
}

#[test]
fn log_upload_answers() {
    let ok = MclogsResponse { success: true, url: Some("https://mclo.gs/abc".to_owned()), error: None };
    assert_eq!(interpret_response(ok).unwrap(), "https://mclo.gs/abc");
    let no_url = MclogsResponse { success: true, url: None, error: None };
    assert_eq!(interpret_response(no_url).unwrap_err(), "No URL in response");
    let failed = MclogsResponse { success: false, url: None, error: Some("too big".to_owned()) };
    assert_eq!(interpret_response(failed).unwrap_err(), "too big");
    let unknown = MclogsResponse { success: false, url: None, error: None };
    assert_eq!(interpret_response(unknown).unwrap_err(), "Unknown error");
}

#[test]
fn object_folders() {
    let used = v(&["ab12", "cd34"]);
    assert!(folder_still_used(&v(&["zz", "cd34"]), &used));
    assert!(!folder_still_used(&v(&["zz", "yy"]), &used));
    assert!(!folder_still_used(&[], &used));
}

#[test]
fn launch_error_messages() {
    assert_eq!(GameLaunchError::UsernameIsInvalid(String::new()).message(), "error launching game: username is empty");
    assert_eq!(
        GameLaunchError::UsernameIsInvalid("a b".to_owned()).message(),
        "error launching game: username contains spaces: a b"
    );
    assert_eq!(GameLaunchError::InstanceNotFound.message(), "error launching game: instance not found");
    assert_eq!(GameLaunchError::Io("denied".to_owned()).message(), "error launching game: (io) denied");
    assert_eq!(
        GameLaunchError::PathBufToString("/tmp/a b".to_owned()).message(),
        "error launching game: couldn't convert pathbuf to string: \"/tmp/a b\""
    );
    assert_eq!(
        GameLaunchError::PathBufToString("C:\\x\"y".to_owned()).message(),
        format!("error launching game: couldn't convert pathbuf to string: {:?}", std::path::Path::new("C:\\x\"y"))
    );
    assert_eq!(
        GameLaunchError::ForgeInstallUpgradeStripPrefixError.message(),
        "error launching game: error upgrading forge install (removing prefix)\noutdated forge install. Please uninstall and reinstall.\nSelect your instance, go to Mods -> Uninstall Forge, then Install Forge."
    );
}

#[test]
fn instance_cfg_name_and_java_args() {
    let cfg = "[General]\nname=My Pack\nJvmArgs=-Xss1M -Dx=1\nmods_Page\\Columns=@ByteArray(\\0)\n";
    let read = read_instance_cfg(cfg).unwrap();
    assert_eq!(read.name, "My Pack");
    assert_eq!(read.jvm_args.as_deref(), Some("-Xss1M -Dx=1"));
    let merged = merge_jvm_args(Some(v(&["-Da=1"])), read.jvm_args.as_deref().unwrap());
    assert_eq!(merged, v(&["-Da=1", "-Xss1M", "-Dx=1"]));
}

#[test]
fn instance_cfg_name_outside_sections() {
    let read = read_instance_cfg("name=Loose\n[Other]\nkey=1\n").unwrap();
    assert_eq!(read.name, "Loose");
    assert_eq!(read.jvm_args, None);
}

#[test]
fn instance_cfg_without_name() {
    match read_instance_cfg("[General]\nJvmArgs=-Xmx2G\n") {
        Err(CfgError::IniFieldMissing(s, k)) => {
            assert_eq!(s, "General");
            assert_eq!(k, "name");
        }
        other => panic!("unexpected: {:?}", other.map(|c| c.name)),
    }
}

#[test]
fn instance_cfg_parse_error() {
    match read_instance_cfg("[General\nname=x\n") {
        Err(CfgError::Parse { line, col, message }) => assert!(line >= 1 && col <= 100 && !message.is_empty()),
        other => panic!("unexpected: {:?}", other.map(|c| c.name)),
    }
}

#[test]
fn instance_name_choice() {
    assert_eq!(pick_instance_name(Some("A".into()), Some("B".into())).unwrap(), "A");
    assert_eq!(pick_instance_name(None, Some("B".into())).unwrap(), "B");
    assert!(matches!(pick_instance_name(None, None), Err(CfgError::IniFieldMissing(_, _))));
}
