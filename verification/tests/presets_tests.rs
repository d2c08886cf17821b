use quantum_launcher::launcher_state::{ModListEntry, PresetSelection, SelectedState};
use quantum_launcher::mods::{ModConfig, ModFile, ModIndex};
use quantum_launcher::presets::{is_already_covered, plan_preset, SelectedMod};
use quantum_launcher::store::{project_url, PresetJson};

fn config(name: &str, manual: bool, deps: &[&str], file: &str) -> ModConfig {
    ModConfig {
        name: name.to_owned(),
        manually_installed: manual,
        installed_version: "2.0".to_owned(),
        enabled: true,
        project_source: "modrinth".to_owned(),
        project_id: name.to_owned(),
        files: vec![ModFile { url: String::new(), filename: file.to_owned(), primary: true }],
        dependencies: deps.iter().map(|d| d.to_string()).collect(),
        dependents: Vec::new(),
    }
}

fn index() -> ModIndex {
    ModIndex {
        mods: vec![
            ("iris".to_owned(), config("Iris", true, &["sodium"], "iris.jar")),
            ("sodium".to_owned(), config("Sodium", false, &["lib"], "sodium.jar")),
            ("lib".to_owned(), config("Lib", false, &["missing"], "lib.jar")),
            ("jei".to_owned(), config("JEI", true, &[], "jei.jar")),
        ],
    }
}

fn downloaded(name: &str, id: &str) -> SelectedMod {
    SelectedMod::Downloaded { name: name.to_owned(), id: id.to_owned() }
}

fn local(f: &str) -> SelectedMod {
    SelectedMod::Local { file_name: f.to_owned() }
}

fn sorted_ids(v: &[(String, ModConfig)]) -> Vec<String> {
    let mut ids: Vec<String> = v.iter().map(|(k, _)| k.clone()).collect();
    ids.sort();
    ids
}

#[test]
fn preset_takes_dependencies_along() {
    let (mods, locals) = plan_preset(&index(), &[downloaded("Iris", "iris"), local("extra.jar")]);
    assert_eq!(sorted_ids(&mods), vec!["iris", "lib", "sodium"]);
    assert_eq!(locals, vec!["extra.jar".to_owned()]);
    for (k, cfg) in &mods {
        let recorded = index().mods.into_iter().find(|(id, _)| id == k).unwrap().1;
        assert_eq!(cfg.name, recorded.name);
    }
}

#[test]
fn preset_skips_local_files_an_indexed_mod_provides() {
    let idx = index();
    assert!(is_already_covered(&idx, &"jei.jar".to_owned()));
    assert!(!is_already_covered(&idx, &"other.jar".to_owned()));
    let (mods, locals) = plan_preset(&idx, &[local("jei.jar"), local("a.jar"), local("b.jar")]);
    assert!(mods.is_empty());
    assert_eq!(locals, vec!["a.jar".to_owned(), "b.jar".to_owned()]);
}

#[test]
fn preset_ignores_unknown_ids() {
    let (mods, locals) = plan_preset(&index(), &[downloaded("Ghost", "ghost"), downloaded("JEI", "jei")]);
    assert_eq!(sorted_ids(&mods), vec!["jei"]);
    assert!(locals.is_empty());
}

#[test]
fn preset_json_carries_versions() {
    let p = PresetJson::build("0.4.2".to_owned(), "1.20.1".to_owned(), &index(), &[downloaded("JEI", "jei")]);
    assert_eq!(p.launcher_version, "0.4.2");
    assert_eq!(p.minecraft_version, "1.20.1");
    assert_eq!(sorted_ids(&p.entries_modrinth), vec!["jei"]);
    assert!(p.entries_local.is_empty());
}

#[test]
fn project_api_url() {
    assert_eq!(project_url("AANobbMI"), "https://api.modrinth.com/v2/project/AANobbMI");
}

fn list() -> Vec<ModListEntry> {
    vec![
        ModListEntry::Downloaded { id: "iris".to_owned(), config: Box::new(config("Iris", true, &[], "iris.jar")) },
        ModListEntry::Downloaded { id: "sodium".to_owned(), config: Box::new(config("Sodium", false, &[], "sodium.jar")) },
        ModListEntry::Local { file_name: "extra.jar".to_owned() },
    ]
}

fn has(sel: &PresetSelection, m: &SelectedMod) -> bool {
    sel.selected_mods.iter().any(|x| match (x, m) {
        (SelectedMod::Downloaded { name: a, id: b }, SelectedMod::Downloaded { name: c, id: d }) => a == c && b == d,
        (SelectedMod::Local { file_name: a }, SelectedMod::Local { file_name: b }) => a == b,
        _ => false,
    })
}

#[test]
fn preset_selection_starts_with_manual_mods() {
    let sel = PresetSelection::all_manual(&list());
    assert!(sel.selected_state == SelectedState::All);
    assert_eq!(sel.selected_mods.len(), 2);
    assert!(has(&sel, &downloaded("Iris", "iris")));
    assert!(has(&sel, &local("extra.jar")));
    assert!(!has(&sel, &downloaded("Sodium", "sodium")));
}

#[test]
fn ticking_then_unticking_a_mod() {
    let mut sel = PresetSelection::all_manual(&list());
    sel.toggle(downloaded("Sodium", "sodium"), true);
    assert!(has(&sel, &downloaded("Sodium", "sodium")));
    assert!(sel.selected_state == SelectedState::Partial);
    sel.toggle(downloaded("Sodium", "sodium"), true);
    assert_eq!(sel.selected_mods.len(), 3);
    sel.toggle(downloaded("Sodium", "sodium"), false);
    assert!(!has(&sel, &downloaded("Sodium", "sodium")));
    assert_eq!(sel.selected_mods.len(), 2);
    sel.toggle(local("extra.jar"), false);
    assert_eq!(sel.selected_mods.len(), 1);
}

#[test]
fn select_all_pressed_twice() {
    let mut sel = PresetSelection::all_manual(&list());
    sel.toggle(local("extra.jar"), false);
    sel.select_all(&list());
    assert!(sel.selected_state == SelectedState::All);
    assert_eq!(sel.selected_mods.len(), 2);
    sel.select_all(&list());
    assert!(sel.selected_state == SelectedState::Nothing);
    assert!(sel.selected_mods.is_empty());
    sel.select_all(&list());
    assert!(sel.selected_state == SelectedState::All);
    assert_eq!(sel.selected_mods.len(), 2);
}
