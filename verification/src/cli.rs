//! The command line: which columns `list` prints, the help and intro texts,
//! the answer to a yes/no question, and how text blocks are laid out side
//! by side in a terminal.
use vstd::prelude::*;

use owo_colors::OwoColorize;

use crate::mods::strs;
use crate::mods_menu::{loader_from_mod_type, loader_of};
use crate::multimc::Loader;
use crate::text::{
    all_ws, chars_of, is_blank, join, join_with, lines, lines_of, push_all, push_str_chars,
    str_eq, string_of, trim, trimmed,
};

verus! {

/// A column of `list`.
#[derive(PartialEq, Eq, Structural, Clone, Copy)]
pub enum PrintCmd {
    Name,
    Version,
    Loader,
}

pub open spec fn field_of(s: Seq<char>) -> Option<PrintCmd> {
    if s == "name"@ {
        Some(PrintCmd::Name)
    } else if s == "version"@ {
        Some(PrintCmd::Version)
    } else if s == "loader"@ {
        Some(PrintCmd::Loader)
    } else {
        None
    }
}

/// The elements of `s` in order, each only at its first occurrence.
pub open spec fn first_occurrences<A>(s: Seq<A>) -> Seq<A>
    decreases s.len(),
{
    if s.len() == 0 {
        seq![]
    } else if first_occurrences(s.drop_last()).contains(s.last()) {
        first_occurrences(s.drop_last())
    } else {
        first_occurrences(s.drop_last()).push(s.last())
    }
}

/// The columns asked for on the command line, each once, in the order
/// first named; the name alone when none is named.
pub fn print_cmds(values: Option<&[String]>) -> (r: Vec<PrintCmd>)
    requires
        values matches Some(vs) ==> forall|i: int| 0 <= i < vs@.len() ==> field_of((#[trigger] vs@[i])@) is Some,
    ensures
        match values {
            None => r@ == seq![PrintCmd::Name],
            Some(vs) => r@ == first_occurrences(strs(vs@).map_values(|s: Seq<char>| field_of(s)->0)),
        },
{
    match values {
        None => vec![PrintCmd::Name],
        Some(vs) => {
            let ghost cmds = strs(vs@).map_values(|s: Seq<char>| field_of(s)->0);
            let mut out: Vec<PrintCmd> = Vec::new();
            let mut i: usize = 0;
            while i < vs.len()
                invariant
                    i <= vs@.len(),
                    cmds == strs(vs@).map_values(|s: Seq<char>| field_of(s)->0),
                    forall|k: int| 0 <= k < vs@.len() ==> field_of((#[trigger] vs@[k])@) is Some,
                    out@ == first_occurrences(cmds.take(i as int)),
                decreases vs@.len() - i,
            {
                assert(cmds.take(i + 1).drop_last() =~= cmds.take(i as int));
                let s = vs[i].as_str();
                assert(field_of(vs@[i as int]@) is Some);
                let c = if str_eq(s, "name") {
                    PrintCmd::Name
                } else if str_eq(s, "version") {
                    PrintCmd::Version
                } else {
                    PrintCmd::Loader
                };
                assert(cmds.take(i + 1).last() == c);
                let mut seen = false;
                let mut k: usize = 0;
                while k < out.len()
                    invariant
                        k <= out@.len(),
                        seen <==> exists|m: int| 0 <= m < k && out@[m] == c,
                    decreases out@.len() - k,
                {
                    if out[k] == c {
                        seen = true;
                    }
                    k = k + 1;
                }
                if !seen {
                    out.push(c);
                }
                i = i + 1;
            }
            assert(cmds.take(vs@.len() as int) =~= cmds);
            out
        },
    }
}

/// The long help text: what the launcher is and where to find it.
pub fn long_about() -> (r: String)
    ensures
        r@ == "\nQuantumLauncher: A simple, powerful Minecraft launcher\n\nWebsite: "@
            + "https://mrmayman.github.io/quantumlauncher"@ + "\nGithub : "@
            + "https://github.com/Mrmayman/quantumlauncher"@ + "\nDiscord: "@
            + "https://discord.gg/bWqRaSXar5"@,
{
    let mut out = chars_of("\nQuantumLauncher: A simple, powerful Minecraft launcher\n\nWebsite: ");
    push_str_chars(&mut out, "https://mrmayman.github.io/quantumlauncher");
    push_str_chars(&mut out, "\nGithub : ");
    push_str_chars(&mut out, "https://github.com/Mrmayman/quantumlauncher");
    push_str_chars(&mut out, "\nDiscord: ");
    push_str_chars(&mut out, "https://discord.gg/bWqRaSXar5");
    string_of(out.as_slice())
}

/// `owo_colors`: a text made green (SGR 32, ended by 39) and bold (SGR 1,
/// ended by a reset). `owo_colors` writes the escape codes whatever the
/// terminal.
#[verifier::external_body]
fn green_bold(s: &str) -> (r: String)
    ensures
        r@ == "\x1b[1m"@ + "\x1b[32m"@ + s@ + "\x1b[39m"@ + "\x1b[0m"@,
{
    s.green().bold().to_string()
}

/// `owo_colors`: a text in bright black (SGR 90, ended by 39).
#[verifier::external_body]
fn bright_black_owo(s: &str) -> (r: String)
    ensures
        r@ == "\x1b[90m"@ + s@ + "\x1b[39m"@,
{
    s.bright_black().to_string()
}

/// `owo_colors`: a text in yellow (SGR 33, ended by 39).
#[verifier::external_body]
fn yellow_owo(s: &str) -> (r: String)
    ensures
        r@ == "\x1b[33m"@ + s@ + "\x1b[39m"@,
{
    s.yellow().to_string()
}

/// `owo_colors`: a text in bright green (SGR 92, ended by 39).
#[verifier::external_body]
fn bright_green_owo(s: &str) -> (r: String)
    ensures
        r@ == "\x1b[92m"@ + s@ + "\x1b[39m"@,
{
    s.bright_green().to_string()
}

/// `owo_colors`: a text in bright purple (SGR 95, ended by 39).
#[verifier::external_body]
fn bright_purple_owo(s: &str) -> (r: String)
    ensures
        r@ == "\x1b[95m"@ + s@ + "\x1b[39m"@,
{
    s.bright_purple().to_string()
}

/// `owo_colors`: a text in bright yellow (SGR 93, ended by 39).
#[verifier::external_body]
fn bright_yellow_owo(s: &str) -> (r: String)
    ensures
        r@ == "\x1b[93m"@ + s@ + "\x1b[39m"@,
{
    s.bright_yellow().to_string()
}

/// `owo_colors`: a text in blue (SGR 34, ended by 39).
#[verifier::external_body]
fn blue_owo(s: &str) -> (r: String)
    ensures
        r@ == "\x1b[34m"@ + s@ + "\x1b[39m"@,
{
    s.blue().to_string()
}

/// `owo_colors`: a text made red (SGR 31, ended by 39) and bold (SGR 1,
/// ended by a reset).
#[verifier::external_body]
fn red_bold_owo(s: &str) -> (r: String)
    ensures
        r@ == "\x1b[1m"@ + "\x1b[31m"@ + s@ + "\x1b[39m"@ + "\x1b[0m"@,
{
    s.red().bold().to_string()
}

/// `owo_colors`: a text made bold (SGR 1) and underlined (SGR 4), each
/// ended by a reset.
#[verifier::external_body]
fn bold_underline_owo(s: &str) -> (r: String)
    ensures
        r@ == "\x1b[4m"@ + "\x1b[1m"@ + s@ + "\x1b[0m"@ + "\x1b[0m"@,
{
    s.bold().underline().to_string()
}

pub open spec fn fg(s: Seq<char>, code: Seq<char>) -> Seq<char> {
    "\x1b["@ + code + "m"@ + s + "\x1b[39m"@
}

/// How `list` shows an instance's mod type: each loader in its colour,
/// "Vanilla" greyed, anything else as it is.
pub open spec fn loader_cell(mod_type: Seq<char>) -> Seq<char> {
    match loader_of(mod_type) {
        Some(Loader::Fabric) => fg(mod_type, "92"@),
        Some(Loader::Quilt) => fg(mod_type, "95"@),
        Some(Loader::Forge) => fg(mod_type, "93"@),
        Some(Loader::Neoforge) => fg(mod_type, "33"@),
        Some(Loader::OptiFine) => "\x1b[1m"@ + fg(mod_type, "31"@) + "\x1b[0m"@,
        Some(Loader::Paper) => fg(mod_type, "34"@),
        Some(_) => mod_type,
        None => if mod_type == "Vanilla"@ { fg(mod_type, "90"@) } else { mod_type },
    }
}

/// How `list` shows an instance's name: bold and underlined.
pub open spec fn name_cell(name: Seq<char>) -> Seq<char> {
    "\x1b[4m"@ + "\x1b[1m"@ + name + "\x1b[0m"@ + "\x1b[0m"@
}

/// What `list` knows of an installed instance (or server): its name, its
/// Minecraft version and its mod type.
pub struct InstanceRow {
    pub name: String,
    pub version: String,
    pub mod_type: String,
}

pub open spec fn cell_of(row: InstanceRow, which: PrintCmd) -> Seq<char> {
    match which {
        PrintCmd::Name => name_cell(row.name@),
        PrintCmd::Version => row.version@,
        PrintCmd::Loader => loader_cell(row.mod_type@),
    }
}

/// What one instance adds to a column: a line for each time the column is
/// asked for.
pub open spec fn row_part(row: InstanceRow, cmds: Seq<PrintCmd>, which: PrintCmd) -> Seq<char>
    decreases cmds.len(),
{
    if cmds.len() == 0 {
        seq![]
    } else {
        row_part(row, cmds.drop_last(), which) + if cmds.last() == which { cell_of(row, which) + "\n"@ } else { seq![] }
    }
}

/// A column of `list` over the first `n` instances.
pub open spec fn column_of(rows: Seq<InstanceRow>, cmds: Seq<PrintCmd>, which: PrintCmd, n: int) -> Seq<char>
    decreases n,
{
    if n <= 0 {
        seq![]
    } else {
        column_of(rows, cmds, which, n - 1) + row_part(rows[n - 1], cmds, which)
    }
}

fn push_cell(out: &mut Vec<char>, row: &InstanceRow, which: PrintCmd)
    ensures
        final(out)@ == old(out)@ + cell_of(*row, which) + "\n"@,
{
    let cell = match which {
        PrintCmd::Name => bold_underline_owo(row.name.as_str()),
        PrintCmd::Version => row.version.clone(),
        PrintCmd::Loader => {
            let m = row.mod_type.as_str();
            match loader_from_mod_type(m) {
                Some(Loader::Fabric) => bright_green_owo(m),
                Some(Loader::Quilt) => bright_purple_owo(m),
                Some(Loader::Forge) => bright_yellow_owo(m),
                Some(Loader::Neoforge) => yellow_owo(m),
                Some(Loader::OptiFine) => red_bold_owo(m),
                Some(Loader::Paper) => blue_owo(m),
                Some(_) => m.to_owned(),
                None => if str_eq(m, "Vanilla") { bright_black_owo(m) } else { m.to_owned() },
            }
        },
    };
    push_str_chars(out, cell.as_str());
    push_str_chars(out, "\n");
    proof {
        reveal_strlit("Vanilla");
        assert(fg(row.mod_type@, "92"@) =~= "\x1b[92m"@ + row.mod_type@ + "\x1b[39m"@) by {
            reveal_strlit("\x1b[");
            reveal_strlit("92");
            reveal_strlit("m");
            reveal_strlit("\x1b[92m");
        }
        assert(fg(row.mod_type@, "95"@) =~= "\x1b[95m"@ + row.mod_type@ + "\x1b[39m"@) by {
            reveal_strlit("\x1b[");
            reveal_strlit("95");
            reveal_strlit("m");
            reveal_strlit("\x1b[95m");
        }
        assert(fg(row.mod_type@, "93"@) =~= "\x1b[93m"@ + row.mod_type@ + "\x1b[39m"@) by {
            reveal_strlit("\x1b[");
            reveal_strlit("93");
            reveal_strlit("m");
            reveal_strlit("\x1b[93m");
        }
        assert(fg(row.mod_type@, "33"@) =~= "\x1b[33m"@ + row.mod_type@ + "\x1b[39m"@) by {
            reveal_strlit("\x1b[");
            reveal_strlit("33");
            reveal_strlit("m");
            reveal_strlit("\x1b[33m");
        }
        assert("\x1b[1m"@ + fg(row.mod_type@, "31"@) + "\x1b[0m"@ =~= "\x1b[1m"@ + "\x1b[31m"@ + row.mod_type@ + "\x1b[39m"@ + "\x1b[0m"@) by {
            reveal_strlit("\x1b[");
            reveal_strlit("31");
            reveal_strlit("m");
            reveal_strlit("\x1b[31m");
        }
        assert(fg(row.mod_type@, "34"@) =~= "\x1b[34m"@ + row.mod_type@ + "\x1b[39m"@) by {
            reveal_strlit("\x1b[");
            reveal_strlit("34");
            reveal_strlit("m");
            reveal_strlit("\x1b[34m");
        }
        assert(fg(row.mod_type@, "90"@) =~= "\x1b[90m"@ + row.mod_type@ + "\x1b[39m"@) by {
            reveal_strlit("\x1b[");
            reveal_strlit("90");
            reveal_strlit("m");
            reveal_strlit("\x1b[90m");
        }
    }
}

/// The three columns of `list` (names, Minecraft versions, mod types):
/// every instance adds a line to a column for each time the column is
/// asked for.
pub fn list_columns(rows: &[InstanceRow], cmds: &[PrintCmd]) -> (r: (String, String, String))
    ensures
        r.0@ == column_of(rows@, cmds@, PrintCmd::Name, rows@.len() as int),
        r.1@ == column_of(rows@, cmds@, PrintCmd::Version, rows@.len() as int),
        r.2@ == column_of(rows@, cmds@, PrintCmd::Loader, rows@.len() as int),
{
    let mut names: Vec<char> = Vec::new();
    let mut versions: Vec<char> = Vec::new();
    let mut loaders: Vec<char> = Vec::new();
    let mut i: usize = 0;
    while i < rows.len()
        invariant
            i <= rows@.len(),
            names@ == column_of(rows@, cmds@, PrintCmd::Name, i as int),
            versions@ == column_of(rows@, cmds@, PrintCmd::Version, i as int),
            loaders@ == column_of(rows@, cmds@, PrintCmd::Loader, i as int),
        decreases rows@.len() - i,
    {
        let row = &rows[i];
        let ghost n0 = names@;
        let ghost v0 = versions@;
        let ghost l0 = loaders@;
        let mut k: usize = 0;
        while k < cmds.len()
            invariant
                k <= cmds@.len(),
                i < rows@.len(),
                *row == rows@[i as int],
                names@ == n0 + row_part(*row, cmds@.take(k as int), PrintCmd::Name),
                versions@ == v0 + row_part(*row, cmds@.take(k as int), PrintCmd::Version),
                loaders@ == l0 + row_part(*row, cmds@.take(k as int), PrintCmd::Loader),
            decreases cmds@.len() - k,
        {
            let c = cmds[k];
            assert(cmds@.take(k + 1).drop_last() =~= cmds@.take(k as int));
            match c {
                PrintCmd::Name => push_cell(&mut names, row, PrintCmd::Name),
                PrintCmd::Version => push_cell(&mut versions, row, PrintCmd::Version),
                PrintCmd::Loader => push_cell(&mut loaders, row, PrintCmd::Loader),
            }
            assert(names@ =~= n0 + row_part(*row, cmds@.take(k + 1), PrintCmd::Name));
            assert(versions@ =~= v0 + row_part(*row, cmds@.take(k + 1), PrintCmd::Version));
            assert(loaders@ =~= l0 + row_part(*row, cmds@.take(k + 1), PrintCmd::Loader));
            k = k + 1;
        }
        assert(cmds@.take(cmds@.len() as int) =~= cmds@);
        i = i + 1;
    }
    (string_of(names.as_slice()), string_of(versions.as_slice()), string_of(loaders.as_slice()))
}

/// What `list` prints: the columns asked for side by side when the width
/// of the terminal is known, else the names, mod types and versions one
/// after the other, separated by blank lines.
pub fn list_output(columns: (String, String, String), cmds: &[PrintCmd], width: Option<u16>, is_terminal: bool) -> (r: String)
    ensures
        match width {
            None => r@ == columns.0@ + "\n\n"@ + columns.2@ + "\n\n"@ + columns.1@,
            Some(w) => layout(
                cmds@.map_values(|c: PrintCmd| (match c {
                    PrintCmd::Name => columns.0,
                    PrintCmd::Version => columns.1,
                    PrintCmd::Loader => columns.2,
                }, None::<CellStyle>)),
                w as nat,
                true,
                is_terminal,
            ) == Some(r@),
        },
{
    match width {
        None => {
            let mut out = chars_of(columns.0.as_str());
            push_str_chars(&mut out, "\n\n");
            push_str_chars(&mut out, columns.2.as_str());
            push_str_chars(&mut out, "\n\n");
            push_str_chars(&mut out, columns.1.as_str());
            string_of(out.as_slice())
        },
        Some(w) => {
            let mut blocks: Vec<Block> = Vec::new();
            let mut k: usize = 0;
            while k < cmds.len()
                invariant
                    k <= cmds@.len(),
                    blocks@ == cmds@.take(k as int).map_values(|c: PrintCmd| (match c {
                        PrintCmd::Name => columns.0,
                        PrintCmd::Version => columns.1,
                        PrintCmd::Loader => columns.2,
                    }, None::<CellStyle>)),
                decreases cmds@.len() - k,
            {
                let text = match cmds[k] {
                    PrintCmd::Name => columns.0.clone(),
                    PrintCmd::Version => columns.1.clone(),
                    PrintCmd::Loader => columns.2.clone(),
                };
                blocks.push((text, None));
                assert(blocks@ =~= cmds@.take(k + 1).map_values(|c: PrintCmd| (match c {
                    PrintCmd::Name => columns.0,
                    PrintCmd::Version => columns.1,
                    PrintCmd::Loader => columns.2,
                }, None::<CellStyle>)));
                k = k + 1;
            }
            assert(cmds@.take(cmds@.len() as int) =~= cmds@);
            match render_row(w, blocks.as_slice(), true, is_terminal) {
                Some(t) => t,
                None => {
                    proof {
                        assert(layout(blocks@, w as nat, true, is_terminal) is Some);
                    }
                    vstd::pervasive::unreached()
                },
            }
        },
    }
}

/// The text beside the logo in the intro: the launcher's name art, then
/// what it is and how to get help.
pub fn get_right_text(name_art: &str) -> (r: String)
    ensures
        r@ == name_art@ + "\n "@ + ("\x1b[1m"@ + "\x1b[32m"@ + "A simple, powerful Minecraft launcher"@ + "\x1b[39m"@ + "\x1b[0m"@)
            + "\n "@ + ("\x1b[90m"@ + "This window shows debug info;"@ + "\x1b[39m"@)
            + "\n "@ + ("\x1b[90m"@ + "feel free to ignore it"@ + "\x1b[39m"@)
            + "\n\n For a list of commands type\n "@ + ("\x1b[33m"@ + "./quantum_launcher --help"@ + "\x1b[39m"@),
{
    let mut out = chars_of(name_art);
    push_str_chars(&mut out, "\n ");
    let a = green_bold("A simple, powerful Minecraft launcher");
    push_str_chars(&mut out, a.as_str());
    push_str_chars(&mut out, "\n ");
    let b = bright_black_owo("This window shows debug info;");
    push_str_chars(&mut out, b.as_str());
    push_str_chars(&mut out, "\n ");
    let c = bright_black_owo("feel free to ignore it");
    push_str_chars(&mut out, c.as_str());
    push_str_chars(&mut out, "\n\n For a list of commands type\n ");
    let h = yellow_owo("./quantum_launcher --help");
    push_str_chars(&mut out, h.as_str());
    string_of(out.as_slice())
}

/// What `str::to_lowercase` makes of a text.
pub uninterp spec fn lowercased(s: Seq<char>) -> Seq<char>;

/// ASCII letters made lower case; other characters kept.
pub open spec fn ascii_lower(s: Seq<char>) -> Seq<char> {
    s.map_values(|c: char| if 'A' <= c && c <= 'Z' { ((c as u32) + 32) as char } else { c })
}

/// `str::to_lowercase`. Its result is named; the claim made of it is what
/// its documentation gives for ASCII text: each letter made lower case.
#[verifier::external_body]
fn to_lowercase(s: &str) -> (r: String)
    ensures
        r@ == lowercased(s@),
        (forall|i: int| 0 <= i < s@.len() ==> (#[trigger] s@[i]) as u32 <= 127) ==> r@ == ascii_lower(s@),
{
    s.to_lowercase()
}

/// The answer to a yes/no question: yes for `y`, `yes` or nothing, no for
/// `n` or `no` (in any case, around whitespace); `None` asks again.
pub open spec fn answer_of(s: Seq<char>) -> Option<bool> {
    if s == "y"@ || s == "yes"@ || s == ""@ {
        Some(true)
    } else if s == "n"@ || s == "no"@ {
        Some(false)
    } else {
        None
    }
}

/// The answer typed to a yes/no question.
pub fn confirm_answer(input: &str) -> (r: Option<bool>)
    ensures
        r == answer_of(lowercased(trim(input@))),
{
    let t = trimmed(input);
    let l = to_lowercase(t.as_str());
    let s = l.as_str();
    if str_eq(s, "y") || str_eq(s, "yes") || str_eq(s, "") {
        Some(true)
    } else if str_eq(s, "n") || str_eq(s, "no") {
        Some(false)
    } else {
        None
    }
}


/// Whether a character ends a terminal control sequence (`ESC [` ...).
pub open spec fn is_final_byte(c: char) -> bool {
    0x40 <= c as u32 && c as u32 <= 0x7e
}

/// The length of a control sequence's body after `ESC [`: up to and with
/// its final character, or everything when it has none.
pub open spec fn csi_len(t: Seq<char>) -> nat
    decreases t.len(),
{
    if t.len() == 0 {
        0
    } else if is_final_byte(t[0]) {
        1
    } else {
        1 + csi_len(t.drop_first())
    }
}

pub proof fn lemma_csi_len(t: Seq<char>)
    ensures
        csi_len(t) <= t.len(),
    decreases t.len(),
{
    if t.len() > 0 && !is_final_byte(t[0]) {
        lemma_csi_len(t.drop_first());
    }
}

/// A text without its terminal control sequences (`ESC [`, parameters and
/// a final character), as the terminal shows it.
pub open spec fn strip_ansi(s: Seq<char>) -> Seq<char>
    decreases s.len(),
{
    if s.len() == 0 {
        seq![]
    } else if s.len() >= 2 && s[0] == '\x1b' && s[1] == '[' {
        proof {
            lemma_csi_len(s.skip(2));
        }
        strip_ansi(s.skip(2 + csi_len(s.skip(2)) as int))
    } else {
        seq![s[0]] + strip_ansi(s.drop_first())
    }
}

/// Whether a control sequence starts somewhere in a text (`ESC` followed
/// by `[`).
pub open spec fn has_csi_start(t: Seq<char>) -> bool {
    exists|i: int| 0 <= i < t.len() - 1 && t[i] == '\x1b' && #[trigger] t[i + 1] == '['
}

proof fn lemma_strip_shorter(t: Seq<char>)
    ensures
        strip_ansi(t).len() <= t.len(),
        has_csi_start(t) ==> strip_ansi(t).len() < t.len(),
    decreases t.len(),
{
    if t.len() == 0 {
    } else if t.len() >= 2 && t[0] == '\x1b' && t[1] == '[' {
        lemma_csi_len(t.skip(2));
        let k = csi_len(t.skip(2));
        lemma_strip_shorter(t.skip(2 + k as int));
    } else {
        lemma_strip_shorter(t.drop_first());
        if has_csi_start(t) {
            let i = choose|i: int| 0 <= i < t.len() - 1 && t[i] == '\x1b' && #[trigger] t[i + 1] == '[';
            assert(i >= 1);
            assert(t.drop_first()[i - 1] == '\x1b' && t.drop_first()[(i - 1) + 1] == '[');
            assert(has_csi_start(t.drop_first()));
        }
    }
}

proof fn lemma_strip_plain(t: Seq<char>)
    requires
        !has_csi_start(t),
    ensures
        strip_ansi(t) == t,
    decreases t.len(),
{
    if t.len() > 0 {
        if t.len() >= 2 && t[0] == '\x1b' && t[1] == '[' {
            assert(t[0int] == '\x1b' && t[0int + 1] == '[');
        }
        assert forall|i: int| 0 <= i < t.drop_first().len() - 1 && t.drop_first()[i] == '\x1b' implies #[trigger] t.drop_first()[i + 1] != '[' by {
            assert(t[i + 1] == '\x1b');
            assert(t[(i + 1) + 1] != '[');
        }
        lemma_strip_plain(t.drop_first());
        assert(seq![t[0]] + t.drop_first() =~= t);
    }
}

/// Removing control sequences again changes nothing exactly when the first
/// removal left no `ESC [` behind (one can be left: the text
/// `"\x1b\x1b[m[m"` loses its inner sequence and becomes `"\x1b[m"`).
pub proof fn lemma_strip_again(s: Seq<char>)
    ensures
        strip_ansi(strip_ansi(s)) == strip_ansi(s) <==> !has_csi_start(strip_ansi(s)),
{
    let t = strip_ansi(s);
    if has_csi_start(t) {
        lemma_strip_shorter(t);
    } else {
        lemma_strip_plain(t);
    }
}

/// How wide a text shows in a terminal (its characters without control
/// sequences).
pub open spec fn visible(s: Seq<char>) -> nat {
    strip_ansi(s).len()
}

proof fn lemma_csi_index(v: Seq<char>, o: int, j: int)
    requires
        0 <= o <= j <= v.len(),
        forall|m: int| o <= m < j ==> !is_final_byte(#[trigger] v[m]),
        j == v.len() || is_final_byte(v[j]),
    ensures
        csi_len(v.skip(o)) == (if j == v.len() { j - o } else { j - o + 1 }),
    decreases j - o,
{
    if o < j {
        assert(v.skip(o).drop_first() =~= v.skip(o + 1));
        lemma_csi_index(v, o + 1, j);
    }
}

/// A text without its terminal control sequences.
pub fn strip_ansi_codes(s: &str) -> (r: String)
    ensures
        r@ == strip_ansi(s@),
{
    let v = chars_of(s);
    let mut out: Vec<char> = Vec::new();
    let mut i: usize = 0;
    assert(v@.skip(0) =~= v@);
    while i < v.len()
        invariant
            i <= v@.len(),
            v@ == s@,
            out@ + strip_ansi(v@.skip(i as int)) == strip_ansi(s@),
        decreases v@.len() - i,
    {
        let ghost rest = v@.skip(i as int);
        if v[i] == '\x1b' && i + 1 < v.len() && v[i + 1] == '[' {
            assert(rest[0] == '\x1b' && rest[1] == '[');
            let mut j = i + 2;
            while j < v.len() && !(0x40 <= v[j] as u32 && v[j] as u32 <= 0x7e)
                invariant
                    i + 2 <= j <= v@.len(),
                    forall|m: int| i + 2 <= m < j ==> !is_final_byte(#[trigger] v@[m]),
                decreases v@.len() - j,
            {
                j = j + 1;
            }
            proof {
                lemma_csi_index(v@, i + 2, j as int);
                assert(rest.skip(2) =~= v@.skip(i + 2));
            }
            let end = if j < v.len() { j + 1 } else { j };
            assert(rest.skip(2 + csi_len(rest.skip(2)) as int) =~= v@.skip(end as int));
            i = end;
        } else {
            assert(rest.drop_first() =~= v@.skip(i + 1));
            out.push(v[i]);
            assert(out@ + strip_ansi(v@.skip(i + 1)) =~= old_out_plus(out@, rest));
            i = i + 1;
        }
    }
    assert(v@.skip(i as int) =~= seq![]);
    assert(out@ + seq![] =~= out@);
    string_of(out.as_slice())
}

spec fn old_out_plus(out: Seq<char>, rest: Seq<char>) -> Seq<char> {
    out.drop_last() + strip_ansi(rest)
}

/// How wide a text shows in a terminal.
pub fn visible_len(s: &str) -> (n: usize)
    ensures
        n == visible(s@),
{
    let t = strip_ansi_codes(s);
    t.as_str().unicode_len()
}

/// `n` spaces.
pub open spec fn spaces(n: nat) -> Seq<char> {
    Seq::new(n, |i: int| ' ')
}

/// A line padded with spaces to show `width` characters wide (a wider
/// line is kept as it is).
pub open spec fn padded(line: Seq<char>, width: nat) -> Seq<char> {
    if visible(line) < width {
        line + spaces((width - visible(line)) as nat)
    } else {
        line
    }
}

/// Whether a text ends inside a control sequence that has no final
/// character yet (such as `"a\x1b["`): what follows it would be read as
/// part of that sequence.
pub open spec fn ends_in_open_csi(s: Seq<char>) -> bool
    decreases s.len(),
{
    if s.len() == 0 {
        false
    } else if s.len() >= 2 && s[0] == '\x1b' && s[1] == '[' {
        let k = csi_len(s.skip(2));
        proof {
            lemma_csi_len(s.skip(2));
        }
        if k == 0 || !is_final_byte(s.skip(2)[k - 1]) {
            true
        } else {
            ends_in_open_csi(s.skip(2 + k as int))
        }
    } else {
        ends_in_open_csi(s.drop_first())
    }
}

proof fn lemma_csi_len_closed(t: Seq<char>, u: Seq<char>)
    requires
        csi_len(t) > 0,
        is_final_byte(t[csi_len(t) - 1]),
    ensures
        csi_len(t + u) == csi_len(t),
    decreases t.len(),
{
    lemma_csi_len(t);
    if !is_final_byte(t[0]) {
        assert((t + u).drop_first() =~= t.drop_first() + u);
        assert(t.drop_first()[csi_len(t.drop_first()) - 1] == t[csi_len(t) - 1]);
        lemma_csi_len_closed(t.drop_first(), u);
    }
}

proof fn lemma_strip_spaces(n: nat)
    ensures
        strip_ansi(spaces(n)) == spaces(n),
    decreases n,
{
    if n > 0 {
        assert(spaces(n).drop_first() =~= spaces((n - 1) as nat));
        lemma_strip_spaces((n - 1) as nat);
        assert(spaces(n) =~= seq![' '] + spaces((n - 1) as nat));
    }
}

proof fn lemma_strip_then_spaces(a: Seq<char>, n: nat)
    requires
        !ends_in_open_csi(a),
    ensures
        strip_ansi(a + spaces(n)) == strip_ansi(a) + spaces(n),
    decreases a.len(),
{
    let t = a + spaces(n);
    if a.len() == 0 {
        assert(t =~= spaces(n));
        lemma_strip_spaces(n);
        assert(strip_ansi(a) =~= seq![]);
        assert(seq![] + spaces(n) =~= spaces(n));
    } else if a.len() >= 2 && a[0] == '\x1b' && a[1] == '[' {
        let k = csi_len(a.skip(2));
        lemma_csi_len(a.skip(2));
        assert(t.skip(2) =~= a.skip(2) + spaces(n));
        lemma_csi_len_closed(a.skip(2), spaces(n));
        assert(t.skip(2 + k as int) =~= a.skip(2 + k as int) + spaces(n));
        lemma_strip_then_spaces(a.skip(2 + k as int), n);
    } else {
        assert(t.drop_first() =~= a.drop_first() + spaces(n));
        lemma_strip_then_spaces(a.drop_first(), n);
        if a.len() == 1 && n > 0 {
            assert(t[1] == ' ');
        }
        assert(seq![a[0]] + (strip_ansi(a.drop_first()) + spaces(n)) =~= seq![a[0]] + strip_ansi(a.drop_first()) + spaces(n));
    }
}

/// Padding a line makes it show at least `width` characters wide, and no
/// wider than it must: exactly `width`, or the line's own width when it is
/// wider. This holds of every line that does not end inside an unfinished
/// control sequence.
pub proof fn lemma_padded_width(line: Seq<char>, width: nat)
    requires
        !ends_in_open_csi(line),
    ensures
        visible(padded(line, width)) == if visible(line) < width { width } else { visible(line) },
{
    if visible(line) < width {
        lemma_strip_then_spaces(line, (width - visible(line)) as nat);
    }
}

/// A line (none counts as empty) padded to `width`.
pub fn pad_line(line: Option<&str>, width: usize) -> (r: String)
    ensures
        r@ == padded(match line { Some(l) => l@, None => seq![] }, width as nat),
{
    let l = match line {
        Some(l) => l,
        None => "",
    };
    proof {
        reveal_strlit("");
    }
    let vis = visible_len(l);
    let mut out = chars_of(l);
    if vis < width {
        let pad = width - vis;
        let mut k: usize = 0;
        let ghost base = out@;
        while k < pad
            invariant
                k <= pad,
                out@ == base + spaces(k as nat),
            decreases pad - k,
        {
            out.push(' ');
            k = k + 1;
            assert(out@ =~= base + spaces(k as nat));
        }
    }
    let r = string_of(out.as_slice());
    assert(r@ =~= padded(match line { Some(l) => l@, None => seq![] }, width as nat));
    r
}


/// The style of a block of text laid out in the terminal: the launcher
/// paints its logo purple and bold.
#[derive(PartialEq, Eq, Structural, Clone, Copy)]
pub enum CellStyle {
    PurpleBold,
}

/// `owo_colors`: a text with the style purple and bold (SGR 35;1, ended by
/// a reset).
#[verifier::external_body]
fn purple_bold_style(s: &str) -> (r: String)
    ensures
        r@ == "\x1b[35;1m"@ + s@ + "\x1b[0m"@,
{
    s.style(owo_colors::Style::new().purple().bold()).to_string()
}

pub open spec fn styled(s: Seq<char>, st: Option<CellStyle>) -> Seq<char> {
    match st {
        Some(_) => "\x1b[35;1m"@ + s + "\x1b[0m"@,
        None => s,
    }
}

fn write_line(out: &mut Vec<char>, style: Option<CellStyle>, line: &str)
    ensures
        final(out)@ == old(out)@ + styled(line@, style),
{
    match style {
        Some(_) => {
            let p = purple_bold_style(line);
            push_str_chars(out, p.as_str());
        },
        None => push_str_chars(out, line),
    }
}

/// The widest line of a block, as shown.
pub open spec fn widest(ls: Seq<Seq<char>>) -> nat
    decreases ls.len(),
{
    if ls.len() == 0 {
        0
    } else {
        let w = widest(ls.drop_last());
        if visible(ls.last()) > w { visible(ls.last()) } else { w }
    }
}

/// The width of a block's column: its widest line and two spaces (nothing
/// for an empty block).
pub open spec fn column_width(text: Seq<char>) -> nat {
    if lines(text).len() == 0 { 0 } else { widest(lines(text)) + 2 }
}

/// The `i`-th line of a block, or nothing.
pub open spec fn nth_line(text: Seq<char>, i: int) -> Seq<char> {
    if 0 <= i < lines(text).len() { lines(text)[i] } else { seq![] }
}

pub open spec fn seq_max(s: Seq<nat>) -> nat
    decreases s.len(),
{
    if s.len() == 0 {
        0
    } else {
        let m = seq_max(s.drop_last());
        if s.last() > m { s.last() } else { m }
    }
}

pub open spec fn seq_sum(s: Seq<nat>) -> nat
    decreases s.len(),
{
    if s.len() == 0 { 0 } else { seq_sum(s.drop_last()) + s.last() }
}

pub type Block = (String, Option<CellStyle>);

pub open spec fn texts(items: Seq<Block>) -> Seq<Seq<char>> {
    items.map_values(|b: Block| b.0@)
}

pub open spec fn widths(items: Seq<Block>) -> Seq<nat> {
    items.map_values(|b: Block| column_width(b.0@))
}

pub open spec fn height(items: Seq<Block>) -> nat {
    seq_max(items.map_values(|b: Block| lines(b.0@).len()))
}

/// One row of the plain layout: the `i`-th line of every block without
/// control sequences, separated by tabs.
pub open spec fn plain_row(items: Seq<Block>, i: int) -> Seq<char> {
    join(items.map_values(|b: Block| strip_ansi(nth_line(b.0@, i))), "\t"@)
}

pub open spec fn plain_rows(items: Seq<Block>, h: int) -> Seq<char>
    decreases h,
{
    if h <= 0 { seq![] } else { plain_rows(items, h - 1) + plain_row(items, h - 1) + "\n"@ }
}

/// One row of the side-by-side layout over the first `k` blocks: the
/// `i`-th line of each, padded to its column and styled.
pub open spec fn grid_row(items: Seq<Block>, i: int, k: int) -> Seq<char>
    decreases k,
{
    if k <= 0 {
        seq![]
    } else {
        grid_row(items, i, k - 1) + styled(padded(nth_line(items[k - 1].0@, i), column_width(items[k - 1].0@)), items[k - 1].1)
    }
}

pub open spec fn grid_rows(items: Seq<Block>, h: int) -> Seq<char>
    decreases h,
{
    if h <= 0 { seq![] } else { grid_rows(items, h - 1) + grid_row(items, h - 1, items.len() as int) + "\n"@ }
}

/// The blocks one under the other, each styled.
pub open spec fn stacked(items: Seq<Block>, k: int) -> Seq<char>
    decreases k,
{
    if k <= 0 { seq![] } else { stacked(items, k - 1) + styled(items[k - 1].0@, items[k - 1].1) + "\n"@ }
}

/// The wrapped layout of row `i` over the first `k` blocks: what is written
/// so far, the line being filled, and how wide it shows. An empty block is
/// skipped; a cell that would not fit on a started line starts a new one;
/// cells on a line are separated by a space.
pub open spec fn wrap_row(items: Seq<Block>, width: nat, i: int, k: int) -> (Seq<char>, Seq<char>, nat)
    decreases k,
{
    if k <= 0 {
        (seq![], seq![], 0)
    } else {
        let (o, b, c) = wrap_row(items, width, i, k - 1);
        let t = items[k - 1].0@;
        if t.len() == 0 {
            (o, b, c)
        } else {
            let cell = padded(nth_line(t, i), column_width(t));
            let cw = visible(cell);
            let (o2, b2, c2) = if c > 0 && c + 1 + cw > width { (o + b + "\n"@, seq![], 0nat) } else { (o, b, c) };
            let (b3, c3) = if c2 > 0 { (b2 + " "@, c2 + 1) } else { (b2, c2) };
            (o2, b3 + styled(cell, items[k - 1].1), (c3 + cw) as nat)
        }
    }
}

pub open spec fn wrapped_rows(items: Seq<Block>, width: nat, h: int) -> Seq<char>
    decreases h,
{
    if h <= 0 {
        seq![]
    } else {
        let (o, b, c) = wrap_row(items, width, h - 1, items.len() as int);
        wrapped_rows(items, width, h - 1) + o + (if b.len() > 0 { b + "\n"@ } else { seq![] })
    }
}

/// How blocks of text are laid out in a terminal `width` characters wide:
/// plain and tab-separated when the output is not a terminal (or a block
/// is too wide for a list); nothing when a block is too wide otherwise;
/// side by side when all fit; else wrapped (for a list) or one under the
/// other.
pub open spec fn layout(items: Seq<Block>, width: nat, list_view: bool, is_terminal: bool) -> Option<Seq<char>> {
    let h = height(items) as int;
    if !is_terminal {
        Some(plain_rows(items, h))
    } else if seq_max(widths(items)) > width {
        if list_view { Some(plain_rows(items, h)) } else { None }
    } else if seq_sum(widths(items)) > width {
        if list_view { Some(wrapped_rows(items, width, h)) } else { Some(stacked(items, items.len() as int)) }
    } else {
        Some(grid_rows(items, h))
    }
}


fn nth_of(ls: &Vec<String>, i: usize) -> (r: &str)
    ensures
        r@ == if i < ls@.len() { strs(ls@)[i as int] } else { seq![] },
{
    if i < ls.len() {
        ls[i].as_str()
    } else {
        proof {
            reveal_strlit("");
        }
        ""
    }
}

/// The lines of every block.
fn lines_of_blocks(items: &[Block]) -> (r: Vec<Vec<String>>)
    ensures
        r@.len() == items@.len(),
        forall|k: int| 0 <= k < items@.len() ==> strs(#[trigger] r@[k]@) == lines(items@[k].0@),
{
    let mut out: Vec<Vec<String>> = Vec::new();
    let mut k: usize = 0;
    while k < items.len()
        invariant
            k <= items@.len(),
            out@.len() == k,
            forall|m: int| 0 <= m < k ==> strs(#[trigger] out@[m]@) == lines(items@[m].0@),
        decreases items@.len() - k,
    {
        out.push(lines_of(items[k].0.as_str()));
        k = k + 1;
    }
    out
}

/// The column width of a block from its lines; `None` when it passes
/// `usize::MAX`.
fn block_width(ls: &Vec<String>) -> (r: Option<usize>)
    ensures
        match r {
            Some(w) => (if strs(ls@).len() == 0 { 0 } else { widest(strs(ls@)) + 2 }) == w,
            None => strs(ls@).len() > 0 && widest(strs(ls@)) + 2 > usize::MAX,
        },
{
    if ls.len() == 0 {
        return Some(0);
    }
    let mut m: usize = 0;
    let mut i: usize = 0;
    while i < ls.len()
        invariant
            i <= ls@.len(),
            m == widest(strs(ls@).take(i as int)),
        decreases ls@.len() - i,
    {
        assert(strs(ls@).take(i + 1).drop_last() =~= strs(ls@).take(i as int));
        assert(strs(ls@).take(i + 1).last() == ls@[i as int]@);
        let v = visible_len(ls[i].as_str());
        if v > m {
            m = v;
        }
        i = i + 1;
    }
    assert(strs(ls@).take(ls@.len() as int) =~= strs(ls@));
    m.checked_add(2)
}

/// Lays blocks of text out for a terminal `width` characters wide (see
/// [`layout`]); `None` when a block is too wide to be shown beside the
/// others and the blocks are not a list.
pub fn render_row(width: u16, items: &[Block], list_view: bool, is_terminal: bool) -> (r: Option<String>)
    ensures
        match r {
            Some(t) => layout(items@, width as nat, list_view, is_terminal) == Some(t@),
            None => layout(items@, width as nat, list_view, is_terminal) is None,
        },
{
    let all = lines_of_blocks(items);
    let ghost n = items@.len();
    // Height: the most lines of a block.
    let mut h: usize = 0;
    let mut k: usize = 0;
    while k < all.len()
        invariant
            k <= all@.len(),
            all@.len() == items@.len(),
            forall|m: int| 0 <= m < items@.len() ==> strs(#[trigger] all@[m]@) == lines(items@[m].0@),
            h == seq_max(items@.map_values(|b: Block| lines(b.0@).len()).take(k as int)),
        decreases all@.len() - k,
    {
        let ghost hs = items@.map_values(|b: Block| lines(b.0@).len());
        assert(hs.take(k + 1).drop_last() =~= hs.take(k as int));
        assert(strs(all@[k as int]@).len() == all@[k as int]@.len());
        if all[k].len() > h {
            h = all[k].len();
        }
        k = k + 1;
    }
    assert(items@.map_values(|b: Block| lines(b.0@).len()).take(items@.len() as int) =~= items@.map_values(|b: Block| lines(b.0@).len()));
    assert(h == height(items@));
    if !is_terminal {
        return Some(plain_layout(items, &all, h));
    }
    // Column widths, and whether one or their sum passes the width.
    let mut ws: Vec<usize> = Vec::new();
    let mut too_wide = false;
    let mut sum: usize = 0;
    let limit = width as usize;
    let mut k: usize = 0;
    while k < all.len()
        invariant
            k <= all@.len(),
            all@.len() == items@.len(),
            forall|m: int| 0 <= m < items@.len() ==> strs(#[trigger] all@[m]@) == lines(items@[m].0@),
            limit == width as usize,
            ws@.len() == k,
            forall|m: int| 0 <= m < k ==> (#[trigger] ws@[m]) as nat == column_width(items@[m].0@),
            too_wide == (seq_max(widths(items@).take(k as int)) > width),
            h == height(items@),
            is_terminal,
            sum as int == if seq_sum(widths(items@).take(k as int)) > limit + 1 { limit + 1 } else { seq_sum(widths(items@).take(k as int)) as int },
        decreases all@.len() - k,
    {
        let ghost wsq = widths(items@);
        assert(wsq.take(k + 1).drop_last() =~= wsq.take(k as int));
        match block_width(&all[k]) {
            Some(w) => {
                ws.push(w);
                if w > limit {
                    too_wide = true;
                }
                sum = if sum + (if w > limit { limit + 1 } else { w }) > limit + 1 { limit + 1 } else { sum + (if w > limit { limit + 1 } else { w }) };
            },
            None => {
                ws.push(0);
                too_wide = true;
                sum = limit + 1;
                proof {
                    assert(wsq[k as int] > width);
                    lemma_seq_max_ge(wsq, k as int);
                }
                // The remaining widths do not matter: the layout is plain or none.
                if list_view {
                    return Some(plain_layout(items, &all, h));
                } else {
                    return None;
                }
            },
        }
        k = k + 1;
    }
    assert(widths(items@).take(items@.len() as int) =~= widths(items@));
    if too_wide {
        if list_view {
            return Some(plain_layout(items, &all, h));
        } else {
            return None;
        }
    }
    if sum > limit {
        if list_view {
            Some(wrapped_layout(items, &all, &ws, width, h))
        } else {
            Some(stacked_layout(items))
        }
    } else {
        Some(grid_layout(items, &all, &ws, h))
    }
}


proof fn lemma_seq_max_ge(s: Seq<nat>, k: int)
    requires
        0 <= k < s.len(),
    ensures
        seq_max(s) >= s[k],
    decreases s.len(),
{
    if k < s.len() - 1 {
        lemma_seq_max_ge(s.drop_last(), k);
    }
}

fn plain_layout(items: &[Block], all: &Vec<Vec<String>>, h: usize) -> (r: String)
    requires
        all@.len() == items@.len(),
        forall|m: int| 0 <= m < items@.len() ==> strs(#[trigger] all@[m]@) == lines(items@[m].0@),
    ensures
        r@ == plain_rows(items@, h as int),
{
    let mut out: Vec<char> = Vec::new();
    let mut i: usize = 0;
    while i < h
        invariant
            i <= h,
            all@.len() == items@.len(),
            forall|m: int| 0 <= m < items@.len() ==> strs(#[trigger] all@[m]@) == lines(items@[m].0@),
            out@ == plain_rows(items@, i as int),
        decreases h - i,
    {
        let ghost cells = items@.map_values(|b: Block| strip_ansi(nth_line(b.0@, i as int)));
        let ghost before = out@;
        let mut k: usize = 0;
        while k < items.len()
            invariant
                k <= items@.len(),
                all@.len() == items@.len(),
                forall|m: int| 0 <= m < items@.len() ==> strs(#[trigger] all@[m]@) == lines(items@[m].0@),
                cells == items@.map_values(|b: Block| strip_ansi(nth_line(b.0@, i as int))),
                out@ == before + join(cells.take(k as int), "\t"@),
            decreases items@.len() - k,
        {
            assert(cells.take(k + 1).drop_last() =~= cells.take(k as int));
            if k > 0 {
                push_str_chars(&mut out, "\t");
            }
            let line = nth_of(&all[k], i);
            assert(line@ == nth_line(items@[k as int].0@, i as int));
            let stripped = strip_ansi_codes(line);
            push_str_chars(&mut out, stripped.as_str());
            proof {
                if k == 0 {
                    assert(join(cells.take(1), "\t"@) == cells.take(1)[0]);
                }
                assert(out@ =~= before + join(cells.take(k + 1), "\t"@));
            }
            k = k + 1;
        }
        assert(cells.take(items@.len() as int) =~= cells);
        push_str_chars(&mut out, "\n");
        i = i + 1;
    }
    string_of(out.as_slice())
}

fn stacked_layout(items: &[Block]) -> (r: String)
    ensures
        r@ == stacked(items@, items@.len() as int),
{
    let mut out: Vec<char> = Vec::new();
    let mut k: usize = 0;
    while k < items.len()
        invariant
            k <= items@.len(),
            out@ == stacked(items@, k as int),
        decreases items@.len() - k,
    {
        write_line(&mut out, items[k].1, items[k].0.as_str());
        push_str_chars(&mut out, "\n");
        k = k + 1;
    }
    string_of(out.as_slice())
}

fn grid_layout(items: &[Block], all: &Vec<Vec<String>>, ws: &Vec<usize>, h: usize) -> (r: String)
    requires
        all@.len() == items@.len(),
        ws@.len() == items@.len(),
        forall|m: int| 0 <= m < items@.len() ==> strs(#[trigger] all@[m]@) == lines(items@[m].0@),
        forall|m: int| 0 <= m < items@.len() ==> (#[trigger] ws@[m]) as nat == column_width(items@[m].0@),
    ensures
        r@ == grid_rows(items@, h as int),
{
    let mut out: Vec<char> = Vec::new();
    let mut i: usize = 0;
    while i < h
        invariant
            i <= h,
            all@.len() == items@.len(),
            ws@.len() == items@.len(),
            forall|m: int| 0 <= m < items@.len() ==> strs(#[trigger] all@[m]@) == lines(items@[m].0@),
            forall|m: int| 0 <= m < items@.len() ==> (#[trigger] ws@[m]) as nat == column_width(items@[m].0@),
            out@ == grid_rows(items@, i as int),
        decreases h - i,
    {
        let ghost before = out@;
        let mut k: usize = 0;
        while k < items.len()
            invariant
                k <= items@.len(),
                all@.len() == items@.len(),
                ws@.len() == items@.len(),
                forall|m: int| 0 <= m < items@.len() ==> strs(#[trigger] all@[m]@) == lines(items@[m].0@),
                forall|m: int| 0 <= m < items@.len() ==> (#[trigger] ws@[m]) as nat == column_width(items@[m].0@),
                out@ == before + grid_row(items@, i as int, k as int),
            decreases items@.len() - k,
        {
            let line = nth_of(&all[k], i);
            assert(line@ == nth_line(items@[k as int].0@, i as int));
            assert(ws@[k as int] as nat == column_width(items@[k as int].0@));
            let cell = pad_line(Some(line), ws[k]);
            write_line(&mut out, items[k].1, cell.as_str());
            assert(out@ =~= before + grid_row(items@, i as int, k + 1));
            k = k + 1;
        }
        push_str_chars(&mut out, "\n");
        i = i + 1;
    }
    string_of(out.as_slice())
}

fn wrapped_layout(items: &[Block], all: &Vec<Vec<String>>, ws: &Vec<usize>, width: u16, h: usize) -> (r: String)
    requires
        all@.len() == items@.len(),
        ws@.len() == items@.len(),
        forall|m: int| 0 <= m < items@.len() ==> strs(#[trigger] all@[m]@) == lines(items@[m].0@),
        forall|m: int| 0 <= m < items@.len() ==> (#[trigger] ws@[m]) as nat == column_width(items@[m].0@),
    ensures
        r@ == wrapped_rows(items@, width as nat, h as int),
{
    let limit = width as usize;
    let mut out: Vec<char> = Vec::new();
    let mut i: usize = 0;
    while i < h
        invariant
            i <= h,
            limit == width as usize,
            all@.len() == items@.len(),
            ws@.len() == items@.len(),
            forall|m: int| 0 <= m < items@.len() ==> strs(#[trigger] all@[m]@) == lines(items@[m].0@),
            forall|m: int| 0 <= m < items@.len() ==> (#[trigger] ws@[m]) as nat == column_width(items@[m].0@),
            out@ == wrapped_rows(items@, width as nat, i as int),
        decreases h - i,
    {
        let ghost before = out@;
        let mut row: Vec<char> = Vec::new();
        let mut buf: Vec<char> = Vec::new();
        // How wide the line being filled shows, counted up to one past the width.
        let mut cur: usize = 0;
        let mut k: usize = 0;
        while k < items.len()
            invariant
                k <= items@.len(),
                limit == width as usize,
                all@.len() == items@.len(),
                ws@.len() == items@.len(),
                forall|m: int| 0 <= m < items@.len() ==> strs(#[trigger] all@[m]@) == lines(items@[m].0@),
                forall|m: int| 0 <= m < items@.len() ==> (#[trigger] ws@[m]) as nat == column_width(items@[m].0@),
                ({
                    let (o, b, c) = wrap_row(items@, width as nat, i as int, k as int);
                    &&& row@ == o
                    &&& buf@ == b
                    &&& cur as int == if c > limit + 1 { limit + 1 } else { c as int }
                }),
            decreases items@.len() - k,
        {
            if !is_empty_text(items[k].0.as_str()) {
                let line = nth_of(&all[k], i);
                assert(line@ == nth_line(items@[k as int].0@, i as int));
                assert(ws@[k as int] as nat == column_width(items@[k as int].0@));
                let cell = pad_line(Some(line), ws[k]);
                let cw0 = visible_len(cell.as_str());
                let cw = if cw0 > limit + 1 { limit + 1 } else { cw0 };
                if cur > 0 && cur + 1 + cw > limit {
                    push_all(&mut row, buf.as_slice());
                    push_str_chars(&mut row, "\n");
                    buf = Vec::new();
                    cur = 0;
                }
                if cur > 0 {
                    push_str_chars(&mut buf, " ");
                    cur = cur + 1;
                }
                write_line(&mut buf, items[k].1, cell.as_str());
                cur = if cur + cw > limit + 1 { limit + 1 } else { cur + cw };
            }
            k = k + 1;
        }
        push_all(&mut out, row.as_slice());
        if buf.len() > 0 {
            push_all(&mut out, buf.as_slice());
            push_str_chars(&mut out, "\n");
        }
        i = i + 1;
    }
    string_of(out.as_slice())
}

fn is_empty_text(s: &str) -> (b: bool)
    ensures
        b == (s@.len() == 0),
{
    s.unicode_len() == 0
}

} // verus!
