use quantum_launcher::edit_instance::{
    add_custom_jar, choose_custom_jar, custom_jar_choices, list_add, list_delete, list_shift_down,
    list_shift_up, parse_u32, parse_window_dimension, rename_action, sanitize_instance_name,
    JarChoice, RenameAction,
};
use quantum_launcher::instance_config::{
    any_meaningful, cleaned_exec, nonblank_exec, CustomJarConfig, GlobalSettings, InstanceConfigJson,
    JavaArgsMode, PreLaunchPrefixMode,
};

fn v(xs: &[&str]) -> Vec<String> {
    xs.iter().map(|x| x.to_string()).collect()
}

fn config() -> InstanceConfigJson {
    InstanceConfigJson {
        mod_type: "Vanilla".to_owned(),
        java_override: None,
        ram_in_mb: 4096,
        enable_logger: Some(true),
        java_args: None,
        game_args: None,
        omniarchive: None,
        is_classic_server: None,
        is_server: None,
        do_gc_tuning: None,
        close_on_start: None,
        global_settings: None,
        java_args_mode: None,
        pre_launch_prefix_mode: None,
        custom_jar: None,
    }
}

#[test]
fn mode_lists_and_texts() {
    assert!(JavaArgsMode::all() == vec![JavaArgsMode::Combine, JavaArgsMode::Disable, JavaArgsMode::Fallback]);
    assert!(JavaArgsMode::default() == JavaArgsMode::Combine);
    assert_eq!(JavaArgsMode::Combine.label(), "Combine (default)");
    assert_eq!(JavaArgsMode::Disable.get_description(), "No global arguments are applied");
    assert!(PreLaunchPrefixMode::default() == PreLaunchPrefixMode::CombineGlobalLocal);
    assert_eq!(PreLaunchPrefixMode::all().len(), 4);
    assert_eq!(PreLaunchPrefixMode::CombineLocalGlobal.label(), "Combine Local+Global");
    assert_eq!(
        PreLaunchPrefixMode::Fallback.get_description(),
        "Use global prefix only when instance has no prefix"
    );
}

#[test]
fn ram_argument() {
    assert_eq!(config().get_ram_argument(), "-Xmx4096M");
}

#[test]
fn window_size_falls_back_per_dimension() {
    let mut c = config();
    let global = GlobalSettings { window_width: Some(800), window_height: Some(600), pre_launch_prefix: None };
    assert_eq!(c.get_window_size(Some(&global)), (Some(800), Some(600)));
    assert_eq!(c.get_window_size(None), (None, None));
    c.global_settings = Some(GlobalSettings { window_width: Some(1280), window_height: None, pre_launch_prefix: None });
    assert_eq!(c.get_window_size(Some(&global)), (Some(1280), Some(600)));
}

#[test]
fn java_args_by_mode() {
    let global = v(&["-Dg=1", "  ", "-Dg=2"]);
    let mut c = config();
    c.java_args = Some(v(&["-Di=1"]));
    assert_eq!(c.get_java_args(&global), v(&["-Dg=1", "-Dg=2", "-Di=1"]));
    c.java_args_mode = Some(JavaArgsMode::Disable);
    assert_eq!(c.get_java_args(&global), v(&["-Di=1"]));
    c.java_args_mode = Some(JavaArgsMode::Fallback);
    assert_eq!(c.get_java_args(&global), v(&["-Di=1"]));
    c.java_args = Some(v(&[" ", ""]));
    assert_eq!(c.get_java_args(&global), global);
    c.java_args_mode = Some(JavaArgsMode::Disable);
    assert!(c.get_java_args(&global).is_empty());
}

#[test]
fn argument_cleaning() {
    let args = v(&[" a ", "", "  ", "b"]);
    assert_eq!(nonblank_exec(&args), v(&[" a ", "b"]));
    assert_eq!(cleaned_exec(&args), v(&["a", "b"]));
    assert!(any_meaningful(&args));
    assert!(!any_meaningful(&v(&["", " \t"])));
}

#[test]
fn launch_prefix_by_mode() {
    let global = v(&[" prime-run ", ""]);
    let mut c = config();
    assert_eq!(c.setup_launch_prefix(&global), v(&["prime-run"]));
    // The instance now has an (empty) prefix list of its own.
    assert!(c.global_settings.as_ref().unwrap().pre_launch_prefix.as_ref().unwrap().is_empty());
    c.get_launch_prefix().push("gamemoderun".to_owned());
    assert_eq!(c.setup_launch_prefix(&global), v(&["prime-run", "gamemoderun"]));
    c.pre_launch_prefix_mode = Some(PreLaunchPrefixMode::CombineLocalGlobal);
    assert_eq!(c.setup_launch_prefix(&global), v(&["gamemoderun", "prime-run"]));
    c.pre_launch_prefix_mode = Some(PreLaunchPrefixMode::Disable);
    assert_eq!(c.setup_launch_prefix(&global), v(&["gamemoderun"]));
    c.pre_launch_prefix_mode = Some(PreLaunchPrefixMode::Fallback);
    assert_eq!(c.setup_launch_prefix(&global), v(&["gamemoderun"]));
}

#[test]
fn shifting_arguments() {
    let mut args = v(&["a", "b", "c"]);
    list_shift_up(0, &mut args);
    assert_eq!(args, v(&["a", "b", "c"]));
    list_shift_up(2, &mut args);
    assert_eq!(args, v(&["a", "c", "b"]));
    list_shift_down(1, &mut args);
    assert_eq!(args, v(&["a", "b", "c"]));
    list_shift_down(2, &mut args);
    assert_eq!(args, v(&["a", "b", "c"]));
}

#[test]
fn shift_up_then_down_restores() {
    let start = v(&["x", "y", "z", "w"]);
    for idx in 1..start.len() {
        let mut args = start.clone();
        list_shift_up(idx, &mut args);
        list_shift_down(idx - 1, &mut args);
        assert_eq!(args, start);
    }
}

#[test]
fn adding_and_deleting_arguments() {
    let mut args = v(&["a"]);
    list_add(&mut args);
    assert_eq!(args, v(&["a", ""]));
    list_delete(&mut args, 1);
    assert_eq!(args, v(&["a"]));
    list_delete(&mut args, 0);
    assert!(args.is_empty());
}

#[test]
fn numbers_typed_into_settings() {
    for t in ["0", "854", "+12", "4294967295", "4294967296", "-1", "", "12a", " 5"] {
        assert_eq!(parse_u32(t), t.parse::<u32>().ok(), "input {t:?}");
    }
    assert_eq!(parse_window_dimension(""), None);
    assert_eq!(parse_window_dimension("1920"), Some(1920));
    assert_eq!(parse_window_dimension("wide"), None);
}

#[test]
fn instance_names() {
    assert_eq!(sanitize_instance_name("  My/World:1?  "), "MyWorld1");
    assert_eq!(sanitize_instance_name("a\u{7}b"), "ab");
    assert_eq!(sanitize_instance_name("<>|*\"'\\"), "");
    let once = sanitize_instance_name(" x / y ");
    assert_eq!(sanitize_instance_name(&once), once);
    assert!(matches!(rename_action("///", "Old"), RenameAction::Invalid));
    assert!(matches!(rename_action("Old", "Old"), RenameAction::Unchanged));
    assert!(matches!(rename_action("New/Name", "Old"), RenameAction::Rename(n) if n == "New/Name"));
}

#[test]
fn custom_jar_list() {
    assert_eq!(custom_jar_choices(v(&["a.jar"])), v(&["(None)", "a.jar", "+ Add JAR", "- Remove Selected"]));
    let mut jar = None;
    let mut choices = Some(custom_jar_choices(v(&["a.jar", "b.jar"])));
    assert!(matches!(choose_custom_jar("+ Add JAR", &mut jar, &mut choices), JarChoice::AddNew));
    assert!(jar.is_none());
    assert!(matches!(choose_custom_jar("b.jar", &mut jar, &mut choices), JarChoice::Done));
    assert_eq!(jar.as_ref().unwrap().name, "b.jar");
    match choose_custom_jar("- Remove Selected", &mut jar, &mut choices) {
        JarChoice::Removed(n) => assert_eq!(n, "b.jar"),
        _ => panic!("expected the jar to be removed"),
    }
    assert!(jar.is_none());
    assert_eq!(choices.as_ref().unwrap(), &v(&["(None)", "a.jar", "+ Add JAR", "- Remove Selected"]));
    assert!(matches!(choose_custom_jar("- Remove Selected", &mut jar, &mut choices), JarChoice::Done));
    jar = Some(CustomJarConfig { name: "a.jar".to_owned() });
    assert!(matches!(choose_custom_jar("(None)", &mut jar, &mut choices), JarChoice::Done));
    assert!(jar.is_none());
}

#[test]
fn adding_a_custom_jar() {
    let mut choices = custom_jar_choices(v(&["a.jar"]));
    let mut jar = None;
    add_custom_jar(&mut choices, &mut jar, "new.jar".to_owned());
    assert_eq!(choices, v(&["(None)", "new.jar", "a.jar", "+ Add JAR", "- Remove Selected"]));
    assert_eq!(jar.as_ref().unwrap().name, "new.jar");
    add_custom_jar(&mut choices, &mut jar, "a.jar".to_owned());
    assert_eq!(choices.len(), 5);
    assert_eq!(jar.as_ref().unwrap().name, "a.jar");
}
