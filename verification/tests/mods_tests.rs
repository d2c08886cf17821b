use quantum_launcher::mods::{delete_mods, has_key, mod_file_names, ModConfig, ModFile, ModIndex};

fn config(name: &str, manual: bool, enabled: bool, deps: &[&str], dependents: &[&str]) -> ModConfig {
    ModConfig {
        name: name.to_owned(),
        manually_installed: manual,
        installed_version: "1.0".to_owned(),
        enabled,
        project_source: "modrinth".to_owned(),
        project_id: name.to_lowercase(),
        files: vec![ModFile {
            url: format!("https://cdn.example/{name}.jar"),
            filename: format!("{name}.jar"),
            primary: true,
        }],
        dependencies: deps.iter().map(|d| d.to_string()).collect(),
        dependents: dependents.iter().map(|d| d.to_string()).collect(),
    }
}

/// Sodium-like layout: A needs B, B needs C; D is a separate manual mod.
fn sample_index() -> ModIndex {
    ModIndex {
        mods: vec![
            ("A".to_owned(), config("A", true, true, &["B"], &[])),
            ("B".to_owned(), config("B", false, true, &["C"], &["A"])),
            ("C".to_owned(), config("C", false, false, &[], &["B"])),
            ("D".to_owned(), config("D", true, true, &[], &[])),
        ],
    }
}

fn ids(index: &ModIndex) -> Vec<String> {
    index.mods.iter().map(|(k, _)| k.clone()).collect()
}

#[test]
fn deleting_a_mod_cascades_to_unneeded_dependencies() {
    let mut index = sample_index();
    let files = delete_mods(&mut index, &["A".to_owned()]);
    assert_eq!(ids(&index), vec!["D".to_owned()]);
    assert_eq!(files, vec!["A.jar".to_owned(), "B.jar".to_owned(), "C.jar.disabled".to_owned()]);
}

#[test]
fn deleting_keeps_manual_mods_not_asked_for() {
    let mut index = sample_index();
    delete_mods(&mut index, &["B".to_owned()]);
    // A was installed by hand, so it stays even though its dependency went.
    assert!(has_key(&index.mods, &"A".to_owned()));
    assert!(has_key(&index.mods, &"D".to_owned()));
    assert!(!has_key(&index.mods, &"B".to_owned()));
    // C is needed by nothing any more.
    assert!(!has_key(&index.mods, &"C".to_owned()));
}

#[test]
fn deleting_nothing_leaves_a_settled_index_alone() {
    let mut index = sample_index();
    let files = delete_mods(&mut index, &[]);
    assert!(files.is_empty());
    assert_eq!(ids(&index), vec!["A", "B", "C", "D"]);
}

#[test]
fn deleting_again_changes_nothing() {
    let mut index = sample_index();
    delete_mods(&mut index, &["D".to_owned(), "A".to_owned()]);
    let before = ids(&index);
    let files = delete_mods(&mut index, &[]);
    assert!(files.is_empty());
    assert_eq!(ids(&index), before);
    assert!(before.is_empty());
}

#[test]
fn deleting_an_unknown_id_changes_nothing() {
    let mut index = sample_index();
    let files = delete_mods(&mut index, &["Z".to_owned()]);
    assert!(files.is_empty());
    assert_eq!(ids(&index).len(), 4);
}

#[test]
fn orphan_without_dependents_is_removed_on_any_deletion() {
    let mut index = sample_index();
    index.mods.push(("E".to_owned(), config("E", false, true, &[], &[])));
    let files = delete_mods(&mut index, &["D".to_owned()]);
    assert_eq!(files, vec!["D.jar".to_owned(), "E.jar".to_owned()]);
    assert_eq!(ids(&index), vec!["A", "B", "C"]);
}

#[test]
fn file_names_of_disabled_mods() {
    let mut out = vec!["x".to_owned()];
    mod_file_names(&config("C", false, false, &[], &[]), &mut out);
    assert_eq!(out, vec!["x".to_owned(), "C.jar.disabled".to_owned()]);
    let mut out = Vec::new();
    mod_file_names(&config("A", true, true, &[], &[]), &mut out);
    assert_eq!(out, vec!["A.jar".to_owned()]);
}
