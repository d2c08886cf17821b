use quantum_launcher::export::ModId;
use quantum_launcher::fabric_install::{
    cursed_legacy_profile, install_loader_version, library_progress, loader_profile_path,
    FabricInstallError,
};
use quantum_launcher::instance_config::InstanceConfigJson;
use quantum_launcher::java::{Arch, JavaVersion, Os, Platform};
use quantum_launcher::launcher_state::ModListEntry;
use quantum_launcher::mods::ModConfig;
use quantum_launcher::mods_menu::{
    installer_actions, is_selected, loader_from_mod_type, mod_entry_row, ForgeKind, LoaderAction,
    MenuRecommendedMods, ModRow, RecommendedMod, UninstallKind,
};
use quantum_launcher::multimc::Loader;
use quantum_launcher::presets::SelectedMod;
use quantum_launcher::screens::{
    copy_error_text, copy_log_text, create_gate, login_buttons, redact_client_id, loading_text, log_upload_content, login_back, masks_password,
    platform_warning, register_link, safe_to_exit, seconds_left, uninstall_confirm_text,
    upload_failed_text, CreateGate, LoginBack,
};
use quantum_launcher::server_run::{pipes_output, server_command_args, server_java_version};
use quantum_launcher::version_list::{FabricVersion, FabricVersionListItem};

fn is_uninstall(a: &LoaderAction, name: &str, k: UninstallKind) -> bool {
    matches!(a, LoaderAction::Uninstall { mod_type, kind } if mod_type == name && *kind == k)
}

#[test]
fn vanilla_client_offers_installers() {
    let r = installer_actions("Vanilla", false, None);
    assert_eq!(r.len(), 5);
    assert!(matches!(r[0], LoaderAction::InstallFabric { is_quilt: false }));
    assert!(matches!(r[1], LoaderAction::InstallFabric { is_quilt: true }));
    assert!(matches!(r[2], LoaderAction::InstallForge(ForgeKind::Normal)));
    assert!(matches!(r[3], LoaderAction::InstallForge(ForgeKind::NeoForge)));
    assert!(matches!(r[4], LoaderAction::InstallOptifine));
}

#[test]
fn vanilla_server_offers_paper_and_unavailable_loaders() {
    let r = installer_actions("Vanilla", true, None);
    assert_eq!(r.len(), 7);
    assert!(matches!(&r[4], LoaderAction::Unavailable(n) if n == "Bukkit"));
    assert!(matches!(&r[5], LoaderAction::Unavailable(n) if n == "Spigot"));
    assert!(matches!(r[6], LoaderAction::InstallPaper));
}

#[test]
fn forge_instance_offers_optifine_or_its_removal() {
    let r = installer_actions("Forge", false, None);
    assert_eq!(r.len(), 2);
    assert!(matches!(r[0], LoaderAction::InstallOptifine));
    assert!(is_uninstall(&r[1], "Forge", UninstallKind::Forge));
    let r = installer_actions("Forge", false, Some("mods/optifine.jar"));
    assert!(matches!(&r[0], LoaderAction::UninstallOptifine(p) if p == "mods/optifine.jar"));
}

#[test]
fn other_loaders_offer_their_removal() {
    let r = installer_actions("OptiFine", false, None);
    assert!(matches!(r[0], LoaderAction::InstallForge(ForgeKind::OptiFine)));
    assert!(is_uninstall(&r[1], "OptiFine", UninstallKind::OptiFine));
    assert!(is_uninstall(&installer_actions("NeoForge", false, None)[0], "NeoForge", UninstallKind::Forge));
    assert!(is_uninstall(&installer_actions("Quilt", true, None)[0], "Quilt", UninstallKind::Fabric));
    assert!(is_uninstall(&installer_actions("Fabric", false, None)[0], "Fabric", UninstallKind::Fabric));
    assert!(is_uninstall(&installer_actions("Paper", true, None)[0], "Paper", UninstallKind::Paper));
    let r = installer_actions("Rift", false, None);
    assert_eq!(r.len(), 1);
    assert!(matches!(&r[0], LoaderAction::UnknownModType(m) if m == "Rift"));
}

fn cfg(name: &str, manual: bool, enabled: bool) -> ModConfig {
    ModConfig {
        name: name.to_owned(),
        manually_installed: manual,
        installed_version: "0.5.3".to_owned(),
        enabled,
        project_source: "modrinth".to_owned(),
        project_id: "x".to_owned(),
        files: Vec::new(),
        dependencies: Vec::new(),
        dependents: Vec::new(),
    }
}

#[test]
fn mod_rows() {
    let sel = vec![SelectedMod::Local { file_name: "old.jar.disabled".to_owned() }];
    let e = ModListEntry::Downloaded { id: "sod".to_owned(), config: Box::new(cfg("Sodium", true, false)) };
    match mod_entry_row(&e, &sel) {
        ModRow::Selectable { label, version, enabled, selected, toggle_name, toggle_id } => {
            assert_eq!(label, "Sodium");
            assert_eq!(version.as_deref(), Some("0.5.3"));
            assert!(!enabled);
            assert!(!selected);
            assert_eq!(toggle_name, "Sodium");
            assert_eq!(toggle_id.as_deref(), Some("sod"));
        }
        ModRow::Dependency { .. } => panic!("expected a box"),
    }
    let e = ModListEntry::Downloaded { id: "lib".to_owned(), config: Box::new(cfg("Lib", false, true)) };
    assert!(matches!(mod_entry_row(&e, &sel), ModRow::Dependency { name } if name == "Lib"));
    let e = ModListEntry::Local { file_name: "old.jar.disabled".to_owned() };
    match mod_entry_row(&e, &sel) {
        ModRow::Selectable { label, version, enabled, selected, toggle_name, toggle_id } => {
            assert_eq!(label, "old.jar");
            assert!(version.is_none());
            assert!(!enabled);
            assert!(selected);
            assert_eq!(toggle_name, "old.jar.disabled");
            assert!(toggle_id.is_none());
        }
        ModRow::Dependency { .. } => panic!("expected a box"),
    }
    assert!(!is_selected(&sel, &SelectedMod::Local { file_name: "old.jar".to_owned() }));
}

fn rec(id: &str, on: bool) -> RecommendedMod {
    RecommendedMod { id: ModId::Modrinth(id.to_owned()), name: id.to_uppercase(), enabled_by_default: on }
}

fn ids(v: &[ModId]) -> Vec<String> {
    v.iter()
        .map(|m| match m {
            ModId::Modrinth(s) => format!("mr:{s}"),
            ModId::Curseforge(s) => format!("cf:{s}"),
        })
        .collect()
}

#[test]
fn recommended_mods_flow() {
    let typed = |t: &str| {
        let mut c = server_config(None, None);
        c.mod_type = t.to_owned();
        c
    };
    assert!(matches!(MenuRecommendedMods::open(typed("Vanilla")), MenuRecommendedMods::InstallALoader));
    let loading = MenuRecommendedMods::open(typed("Fabric"));
    assert!(matches!(&loading, MenuRecommendedMods::Loading { config } if config.mod_type == "Fabric"));
    assert_eq!(loading.get_config().map(|c| c.ram_in_mb), Some(2048));
    assert!(matches!(MenuRecommendedMods::after_check(Vec::new(), typed("Fabric")), MenuRecommendedMods::NotSupported));
    let mut menu = MenuRecommendedMods::after_check(
        vec![rec("sodium", true), rec("iris", false), rec("lithium", true)],
        typed("Quilt"),
    );
    assert_eq!(menu.get_config().map(|c| c.mod_type.clone()).as_deref(), Some("Quilt"));
    assert_eq!(ids(&menu.download_ids().unwrap()), vec!["mr:sodium", "mr:lithium"]);
    menu.toggle(1, true);
    menu.toggle(0, false);
    menu.toggle(9, true);
    assert_eq!(ids(&menu.download_ids().unwrap()), vec!["mr:iris", "mr:lithium"]);
    assert_eq!(ids(&menu.begin_download().unwrap()), vec!["mr:iris", "mr:lithium"]);
    assert!(matches!(&menu, MenuRecommendedMods::Loading { config } if config.mod_type == "Quilt"));
    assert!(menu.begin_download().is_none());
    assert!(MenuRecommendedMods::InstallALoader.download_ids().is_none());
    assert!(MenuRecommendedMods::NotSupported.get_config().is_none());
}

#[test]
fn loaders_named_by_mod_type() {
    assert!(matches!(loader_from_mod_type("NeoForge"), Some(Loader::Neoforge)));
    assert!(matches!(loader_from_mod_type("OptiFine"), Some(Loader::OptiFine)));
    assert!(matches!(loader_from_mod_type("Quilt"), Some(Loader::Quilt)));
    assert!(loader_from_mod_type("Vanilla").is_none());
    assert!(loader_from_mod_type("fabric").is_none());
}

#[test]
fn create_button_gate() {
    let existing = vec!["Survival".to_owned()];
    assert!(create_gate(false, "x", Some(&existing)) == CreateGate::NoVersion);
    assert!(create_gate(true, "", Some(&existing)) == CreateGate::NoName);
    assert!(create_gate(true, "Survival", Some(&existing)) == CreateGate::NameTaken);
    assert!(create_gate(true, "Creative", Some(&existing)) == CreateGate::Ready);
    assert!(create_gate(true, "Survival", None) == CreateGate::Ready);
    assert_eq!(CreateGate::NameTaken.tooltip().as_deref(), Some("An instance with that name already exists!"));
    assert_eq!(CreateGate::NoVersion.tooltip().as_deref(), Some("Select a version first!"));
    assert_eq!(CreateGate::NoName.tooltip().as_deref(), Some("Enter a name for your instance."));
    assert!(CreateGate::Ready.tooltip().is_none());
}

#[test]
fn warning_on_32_bit_linux() {
    let w = platform_warning(Platform { os: Os::Linux, arch: Arch::X86 }).unwrap();
    assert!(w.1.ends_with("(x86_64)"));
    let w = platform_warning(Platform { os: Os::Linux, arch: Arch::Arm }).unwrap();
    assert!(w.1.ends_with("(aarch64)"));
    assert!(platform_warning(Platform { os: Os::Linux, arch: Arch::X86_64 }).is_none());
    assert!(platform_warning(Platform { os: Os::Windows, arch: Arch::X86 }).is_none());
}

#[test]
fn login_screen_details() {
    assert_eq!(loading_text(0), "Loading.");
    assert_eq!(loading_text(4), "Loading..");
    assert_eq!(loading_text(5), "Loading...");
    assert!(masks_password("secret", false));
    assert!(!masks_password("secret", true));
    assert!(!masks_password("", false));
    assert_eq!(seconds_left(100, 40), 60);
    assert_eq!(seconds_left(40, 100), 0);
    assert_eq!(register_link(true), "https://littleskin.cn/auth/register");
    assert_eq!(register_link(false), "https://account.ely.by/register");
    assert!(login_back(true) == LoginBack::WelcomeAuth);
    assert!(login_back(false) == LoginBack::AddAccount);
}

#[test]
fn launcher_texts() {
    assert_eq!(copy_error_text("boom"), "(QuantumLauncher): boom");
    let (a, b) = uninstall_confirm_text("Forge");
    assert_eq!(a, "uninstall Forge");
    assert_eq!(b, "This should be fine, you can always reinstall it later");
    assert_eq!(upload_failed_text("timeout"), "Failed to upload log: timeout");
    assert_eq!(log_upload_content(&["a\n".to_owned(), "b".to_owned()]).as_deref(), Some("a\nb"));
    assert!(log_upload_content(&[" \n".to_owned()]).is_none());
    assert!(log_upload_content(&[]).is_none());
    assert!(safe_to_exit(0, false, true));
    assert!(safe_to_exit(0, true, false));
    assert!(!safe_to_exit(1, true, true));
    assert!(!safe_to_exit(0, false, false));
}

fn item(v: &str) -> FabricVersionListItem {
    FabricVersionListItem { loader: FabricVersion { version: v.to_owned() } }
}

#[test]
fn fabric_install_details() {
    assert_eq!(install_loader_version(Some("0.15.0".to_owned()), &[]).unwrap(), "0.15.0");
    assert_eq!(install_loader_version(None, &[item("0.16.1"), item("0.16.0")]).unwrap(), "0.16.1");
    assert!(install_loader_version(None, &[]) == Err(FabricInstallError::NoVersionFound));
    assert_eq!(loader_profile_path("1.20.1", "0.16.1", false), "/versions/loader/1.20.1/0.16.1/profile/json");
    assert_eq!(loader_profile_path("1.20.1", "0.16.1", true), "/versions/loader/1.20.1/0.16.1/server/json");
    assert_eq!(cursed_legacy_profile("a INSERT_COMMIT b INSERT_COMMIT", "abc1234"), "a abc1234 b abc1234");
    let p = library_progress(2, 10, "net.fabricmc:loader");
    assert_eq!(p.done, 3);
    assert_eq!(p.total, 10);
    assert_eq!(p.message.as_deref(), Some("Downloading library (3 / 10) net.fabricmc:loader"));
    assert!(!p.has_finished);
}

fn server_config(java_args: Option<Vec<String>>, game_args: Option<Vec<String>>) -> InstanceConfigJson {
    InstanceConfigJson {
        mod_type: "Vanilla".to_owned(),
        java_override: None,
        ram_in_mb: 2048,
        enable_logger: None,
        java_args,
        game_args,
        omniarchive: None,
        is_classic_server: None,
        is_server: Some(true),
        do_gc_tuning: None,
        close_on_start: None,
        global_settings: None,
        java_args_mode: None,
        pre_launch_prefix_mode: None,
        custom_jar: None,
    }
}

#[test]
fn server_process_arguments() {
    let c = server_config(None, None);
    assert_eq!(server_command_args(&c, "/s/server.jar"), vec!["-Xmx2048M", "-jar", "/s/server.jar", "nogui"]);
    let c = server_config(Some(vec!["-Dx=1".to_owned()]), Some(vec!["--port".to_owned(), "25566".to_owned()]));
    assert_eq!(
        server_command_args(&c, "server.jar"),
        vec!["-Dx=1", "-Xmx2048M", "-jar", "server.jar", "--port", "25566", "nogui"]
    );
    assert!(pipes_output(None));
    assert!(!pipes_output(Some(false)));
    assert!(matches!(server_java_version(None), JavaVersion::Java8));
    assert!(matches!(server_java_version(Some(JavaVersion::Java21)), JavaVersion::Java21));
}

#[test]
fn store_search_loaders() {
    let forge = quantum_launcher::mods_menu::search_loaders("Forge").unwrap();
    assert!(matches!(forge.as_slice(), [Loader::Forge]));
    let fabric = quantum_launcher::mods_menu::search_loaders("Fabric").unwrap();
    assert!(matches!(fabric.as_slice(), [Loader::Fabric]));
    assert!(quantum_launcher::mods_menu::search_loaders("Quilt").is_none());
}

#[test]
fn login_screen_buttons() {
    assert_eq!(login_buttons(true, true), (false, false));
    assert_eq!(login_buttons(true, false), (false, false));
    assert_eq!(login_buttons(false, true), (true, true));
    assert_eq!(login_buttons(false, false), (true, false));
}

#[test]
fn error_screen_hides_the_client_id() {
    assert_eq!(
        redact_client_id("bad request for client 1234-abcd (client 1234-abcd)", "1234-abcd"),
        "bad request for client [CLIENT ID] (client [CLIENT ID])"
    );
    assert_eq!(redact_client_id("nothing here", "1234"), "nothing here");
}

#[test]
fn copied_log() {
    let entries = vec![
        ("started".to_owned(), "[info]".to_owned()),
        ("oops".to_owned(), "[error]".to_owned()),
    ];
    assert_eq!(copy_log_text(&entries), "QuantumLauncher Log:\n[info] started\n[error] oops\n");
    assert_eq!(copy_log_text(&[]), "QuantumLauncher Log:\n");
}
