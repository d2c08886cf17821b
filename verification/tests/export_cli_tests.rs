use quantum_launcher::cli::{
    list_columns, list_output, InstanceRow, confirm_answer, get_right_text, long_about, pad_line, print_cmds, render_row,
    strip_ansi_codes, visible_len, CellStyle, PrintCmd,
};
use quantum_launcher::export::{
    export_entries, export_exceptions, local_display_name, mod_page_url, more_mods_text,
    export_actions_enabled, preview_rows, selection_summary, toggle_entry, DirItem, ModId, PreviewMod,
};
use quantum_launcher::launcher_state::{InstanceLog, MenuLaunch};

fn dir(name: &str, is_file: bool) -> DirItem {
    DirItem { name: name.to_owned(), is_file }
}

fn shown(entries: &[(DirItem, bool)]) -> Vec<(String, bool, bool)> {
    entries.iter().map(|(d, t)| (d.name.clone(), d.is_file, *t)).collect()
}

#[test]
fn export_lists_folders_first_then_by_name() {
    let items = vec![
        dir("options.txt", true),
        dir("saves", false),
        dir("logs", false),
        dir("mod_index.json", true),
        dir("Zeta", false),
        dir("command_history.txt", true),
        dir("launcher_profiles.json", true),
    ];
    let entries = export_entries(&items);
    assert_eq!(
        shown(&entries),
        vec![
            ("Zeta".to_owned(), false, true),
            ("logs".to_owned(), false, false),
            ("saves".to_owned(), false, true),
            ("command_history.txt".to_owned(), true, false),
            ("options.txt".to_owned(), true, true),
        ]
    );
    assert_eq!(export_exceptions(&entries), vec![".minecraft/logs".to_owned(), ".minecraft/command_history.txt".to_owned()]);
}

#[test]
fn ticking_export_entries() {
    let mut entries = export_entries(&[dir("a", false), dir("b", true)]);
    toggle_entry(&mut entries, 1, false);
    assert_eq!(shown(&entries), vec![("a".to_owned(), false, true), ("b".to_owned(), true, false)]);
    toggle_entry(&mut entries, 7, false);
    assert_eq!(entries.len(), 2);
    assert_eq!(export_exceptions(&entries), vec![".minecraft/b".to_owned()]);
}

#[test]
fn mod_list_texts() {
    let id = ModId::Curseforge("jei".to_owned());
    assert_eq!(mod_page_url(Some(("modrinth", "sodium")), &id), "https://modrinth.com/mod/sodium");
    assert_eq!(mod_page_url(Some(("curseforge", "jei")), &id), "https://www.curseforge.com/minecraft/mc-mods/jei");
    assert_eq!(mod_page_url(Some(("elsewhere", "x")), &id), "https://www.curseforge.com/minecraft/mc-mods/jei");
    assert_eq!(mod_page_url(None, &ModId::Modrinth("iris".to_owned())), "https://modrinth.com/mod/iris");
    assert_eq!(local_display_name("OptiFine.jar"), "OptiFine");
    assert_eq!(local_display_name("pack.zip"), "pack");
    assert_eq!(local_display_name("notes.txt"), "notes.txt");
    assert_eq!(more_mods_text(10), None);
    assert_eq!(more_mods_text(11).as_deref(), Some("... and 1 more mod"));
    assert_eq!(more_mods_text(25).as_deref(), Some("... and 15 more mods"));
    assert_eq!(selection_summary(0), "No mods selected - please select some mods first");
    assert_eq!(selection_summary(1), "1 mod selected for export");
    assert_eq!(selection_summary(12), "12 mods selected for export");
}

#[test]
fn columns_asked_for() {
    assert!(print_cmds(None) == vec![PrintCmd::Name]);
    let asked = vec!["version".to_owned(), "name".to_owned(), "version".to_owned(), "loader".to_owned()];
    assert!(print_cmds(Some(&asked)) == vec![PrintCmd::Version, PrintCmd::Name, PrintCmd::Loader]);
}

#[test]
fn help_and_intro_texts() {
    assert_eq!(
        long_about(),
        "\nQuantumLauncher: A simple, powerful Minecraft launcher\n\nWebsite: https://mrmayman.github.io/quantumlauncher\nGithub : https://github.com/Mrmayman/quantumlauncher\nDiscord: https://discord.gg/bWqRaSXar5"
    );
    let t = get_right_text("NAME");
    assert!(t.starts_with("NAME\n \x1b[1m\x1b[32mA simple, powerful Minecraft launcher\x1b[39m\x1b[0m"));
    assert!(t.ends_with("\x1b[33m./quantum_launcher --help\x1b[39m"));
}

#[test]
fn yes_no_answers() {
    assert_eq!(confirm_answer("Y"), Some(true));
    assert_eq!(confirm_answer("  yes \n"), Some(true));
    assert_eq!(confirm_answer(""), Some(true));
    assert_eq!(confirm_answer("NO"), Some(false));
    assert_eq!(confirm_answer("n"), Some(false));
    assert_eq!(confirm_answer("maybe"), None);
}

#[test]
fn terminal_widths() {
    assert_eq!(strip_ansi_codes("\x1b[1;32mhi\x1b[0m there"), "hi there");
    assert_eq!(strip_ansi_codes("plain"), "plain");
    assert_eq!(strip_ansi_codes("open \x1b[12"), "open ");
    assert_eq!(visible_len("\x1b[33mäbc\x1b[39m"), 3);
    assert_eq!(pad_line(Some("ab"), 5), "ab   ");
    assert_eq!(pad_line(Some("\x1b[1mab\x1b[0m"), 4), "\x1b[1mab\x1b[0m  ");
    assert_eq!(pad_line(Some("toolong"), 3), "toolong");
    assert_eq!(pad_line(None, 2), "  ");
}

#[test]
fn blocks_side_by_side() {
    let items = vec![("a\nbb".to_owned(), None), ("c".to_owned(), None)];
    assert_eq!(render_row(80, &items, false, true).unwrap(), "a   c  \nbb     \n");
    assert_eq!(render_row(80, &items, false, false).unwrap(), "a\tc\nbb\t\n");
    // Too narrow for both: one under the other.
    assert_eq!(render_row(5, &items, false, true).unwrap(), "a\nbb\nc\n");
    // A block wider than the terminal.
    assert!(render_row(2, &items, false, true).is_none());
    assert_eq!(render_row(2, &items, true, true).unwrap(), "a\tc\nbb\t\n");
}

#[test]
fn list_blocks_wrap() {
    let items = vec![
        ("one".to_owned(), None),
        (String::new(), None),
        ("two".to_owned(), Some(CellStyle::PurpleBold)),
        ("three".to_owned(), None),
    ];
    assert_eq!(
        render_row(12, &items, true, true).unwrap(),
        "one   \x1b[35;1mtwo  \x1b[0m\nthree  \n"
    );
}

#[test]
fn server_console() {
    let mut log = InstanceLog { log: vec!["[Server] started\n".to_owned()], has_crashed: false, command: "say hi".to_owned() };
    assert_eq!(log.submit_command(), "say hi\n");
    assert_eq!(log.log.last().unwrap(), "> say hi");
    assert!(log.command.is_empty());
    assert_eq!(log.text(), "[Server] started\n> say hi");
    let m = MenuLaunch::with_message("Welcome".to_owned());
    assert_eq!(m.message, "Welcome");
    assert!(m.java_recv.is_none() && m.asset_recv.is_none());
}

#[test]
fn instance_list_columns() {
    let rows = vec![
        InstanceRow { name: "Survival".to_owned(), version: "1.20.1".to_owned(), mod_type: "Fabric".to_owned() },
        InstanceRow { name: "Old".to_owned(), version: "b1.7.3".to_owned(), mod_type: "Vanilla".to_owned() },
        InstanceRow { name: "Odd".to_owned(), version: "1.12.2".to_owned(), mod_type: "Strange".to_owned() },
    ];
    let cmds = vec![PrintCmd::Name, PrintCmd::Loader];
    let (names, versions, loaders) = list_columns(&rows, &cmds);
    assert_eq!(
        names,
        "\x1b[4m\x1b[1mSurvival\x1b[0m\x1b[0m\n\x1b[4m\x1b[1mOld\x1b[0m\x1b[0m\n\x1b[4m\x1b[1mOdd\x1b[0m\x1b[0m\n"
    );
    assert_eq!(versions, "");
    assert_eq!(loaders, "\x1b[92mFabric\x1b[39m\n\x1b[90mVanilla\x1b[39m\nStrange\n");
    let (_, _, loaders) = list_columns(
        &[
            InstanceRow { name: "a".to_owned(), version: String::new(), mod_type: "OptiFine".to_owned() },
            InstanceRow { name: "b".to_owned(), version: String::new(), mod_type: "Quilt".to_owned() },
            InstanceRow { name: "c".to_owned(), version: String::new(), mod_type: "Forge".to_owned() },
            InstanceRow { name: "d".to_owned(), version: String::new(), mod_type: "NeoForge".to_owned() },
            InstanceRow { name: "e".to_owned(), version: String::new(), mod_type: "Paper".to_owned() },
        ],
        &[PrintCmd::Loader],
    );
    assert_eq!(
        loaders,
        "\x1b[1m\x1b[31mOptiFine\x1b[39m\x1b[0m\n\x1b[95mQuilt\x1b[39m\n\x1b[93mForge\x1b[39m\n\x1b[33mNeoForge\x1b[39m\n\x1b[34mPaper\x1b[39m\n"
    );
    let columns = ("n\n".to_owned(), "v\n".to_owned(), "l\n".to_owned());
    assert_eq!(list_output(columns.clone(), &cmds, None, true), "n\n\n\nl\n\n\nv\n");
    assert_eq!(list_output(columns, &[PrintCmd::Name, PrintCmd::Version], Some(80), true), "n  v  \n");
}

#[test]
fn padded_lines_show_the_column_width() {
    for (line, width) in [("ab", 5usize), ("\x1b[32mok\x1b[0m", 6), ("wider than it", 4), ("", 3)] {
        let padded = pad_line(Some(line), width);
        assert_eq!(visible_len(&padded), visible_len(line).max(width));
    }
    // A line that ends inside an unfinished control sequence swallows its padding.
    assert_eq!(visible_len(&pad_line(Some("a\x1b["), 4)), 1);
}

#[test]
fn stripping_twice() {
    let once = strip_ansi_codes("\x1b[1mbold\x1b[0m text");
    assert_eq!(once, "bold text");
    assert_eq!(strip_ansi_codes(&once), once);
    // An escape left in front of a removed sequence starts a new one.
    let once = strip_ansi_codes("\x1b\x1b[m[m");
    assert_eq!(once, "\x1b[m");
    assert_eq!(strip_ansi_codes(&once), "");
}

#[test]
fn export_preview_lists_the_first_ten() {
    let mut mods = vec![
        PreviewMod::Downloaded {
            name: "Sodium".to_owned(),
            id: ModId::Modrinth("AANobbMI".to_owned()),
            recorded: Some(("modrinth".to_owned(), "sodium".to_owned())),
        },
        PreviewMod::Local { file_name: "OptiFine.jar".to_owned() },
    ];
    for k in 0..10 {
        mods.push(PreviewMod::Downloaded {
            name: format!("m{k}"),
            id: ModId::Curseforge(format!("c{k}")),
            recorded: None,
        });
    }
    let rows = preview_rows(&mods);
    assert_eq!(rows.len(), 10);
    assert_eq!((rows[0].number, rows[0].name.as_str()), (1, "Sodium"));
    assert_eq!(rows[0].link.as_deref(), Some("https://modrinth.com/mod/sodium"));
    assert_eq!((rows[1].number, rows[1].name.as_str(), rows[1].link.clone()), (2, "OptiFine", None));
    assert_eq!(rows[9].number, 10);
    assert_eq!(rows[9].link.as_deref(), Some("https://www.curseforge.com/minecraft/mc-mods/c7"));
    assert_eq!(more_mods_text(mods.len()).as_deref(), Some("... and 2 more mods"));
    assert_eq!(preview_rows(&mods[..3]).len(), 3);
}

#[test]
fn export_actions_need_a_selection() {
    assert!(!export_actions_enabled(0));
    assert!(export_actions_enabled(1));
    assert!(export_actions_enabled(42));
}
