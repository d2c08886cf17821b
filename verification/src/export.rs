//! Exporting: which files of an instance go into an exported pack (and in
//! what order they are listed), and how an exported mod list describes
//! each mod.
use vstd::prelude::*;

use crate::text::{chars_of, decimal, ends_with, ends_with_exec, push_decimal, push_str_chars, str_eq, string_of};

verus! {

/// An entry of a folder.
pub struct DirItem {
    pub name: String,
    pub is_file: bool,
}

/// `a` comes before `b` in the order of `str` comparison (character by
/// character, by code point; a proper prefix first).
pub open spec fn lex_lt(a: Seq<char>, b: Seq<char>) -> bool
    decreases a.len(),
{
    if a.len() == 0 {
        b.len() > 0
    } else if b.len() == 0 {
        false
    } else if a[0] != b[0] {
        a[0] < b[0]
    } else {
        lex_lt(a.drop_first(), b.drop_first())
    }
}

proof fn lemma_lex_irreflexive(a: Seq<char>)
    ensures
        !lex_lt(a, a),
    decreases a.len(),
{
    if a.len() > 0 {
        lemma_lex_irreflexive(a.drop_first());
    }
}

proof fn lemma_lex_total(a: Seq<char>, b: Seq<char>)
    ensures
        a != b ==> lex_lt(a, b) || lex_lt(b, a),
    decreases a.len(),
{
    if a.len() > 0 && b.len() > 0 && a[0] == b[0] {
        lemma_lex_total(a.drop_first(), b.drop_first());
        if a.drop_first() == b.drop_first() {
            assert(a =~= seq![a[0]] + a.drop_first());
            assert(b =~= seq![b[0]] + b.drop_first());
        }
    } else if a.len() == 0 && b.len() == 0 {
        assert(a =~= b);
    } else if a.len() > 0 && b.len() > 0 {
    }
}

proof fn lemma_lex_trans(a: Seq<char>, b: Seq<char>, c: Seq<char>)
    requires
        lex_lt(a, b),
        lex_lt(b, c),
    ensures
        lex_lt(a, c),
    decreases a.len(),
{
    if a.len() > 0 && b.len() > 0 && c.len() > 0 && a[0] == b[0] && b[0] == c[0] {
        lemma_lex_trans(a.drop_first(), b.drop_first(), c.drop_first());
    }
}

/// The order of an export list: folders before files, then by name.
pub open spec fn entry_lt(a: (Seq<char>, bool, bool), b: (Seq<char>, bool, bool)) -> bool {
    (!a.1 && b.1) || (a.1 == b.1 && lex_lt(a.0, b.0))
}

pub open spec fn entry_le(a: (Seq<char>, bool, bool), b: (Seq<char>, bool, bool)) -> bool {
    !entry_lt(b, a)
}

/// Entries of a folder that an export never lists.
pub open spec fn never_listed(name: Seq<char>) -> bool {
    name == "mod_index.json"@ || name == "launcher_profiles.json"@
}

/// Entries that an export leaves out unless the user ticks them: logs,
/// caches and the like of the game and of common mods.
pub open spec fn off_by_default(name: Seq<char>) -> bool {
    name == ".fabric"@ || name == "logs"@ || name == "command_history.txt"@
        || name == "realms_persistence.json"@ || name == "debug"@ || name == ".cache"@
        || name == "authlib-injector.log"@ || name == "easy_npc"@ || name == "CustomSkinLoader"@
        || name == ".bobby"@
}

/// The listed entries among the first `n`, in folder order, as (name, is
/// a file, ticked).
pub open spec fn listed(items: Seq<DirItem>, n: int) -> Seq<(Seq<char>, bool, bool)>
    decreases n,
{
    if n <= 0 {
        seq![]
    } else if never_listed(items[n - 1].name@) {
        listed(items, n - 1)
    } else {
        listed(items, n - 1).push((items[n - 1].name@, items[n - 1].is_file, !off_by_default(items[n - 1].name@)))
    }
}

pub open spec fn export_view(e: (DirItem, bool)) -> (Seq<char>, bool, bool) {
    (e.0.name@, e.0.is_file, e.1)
}

pub open spec fn sorted_entries(s: Seq<(Seq<char>, bool, bool)>) -> bool {
    forall|a: int, b: int| 0 <= a < b < s.len() ==> entry_le(s[a], s[b])
}

proof fn lemma_entry_trans(a: (Seq<char>, bool, bool), b: (Seq<char>, bool, bool), c: (Seq<char>, bool, bool))
    requires
        entry_lt(a, b),
        entry_lt(b, c),
    ensures
        entry_lt(a, c),
{
    if a.1 == b.1 && b.1 == c.1 {
        lemma_lex_trans(a.0, b.0, c.0);
    }
}

proof fn lemma_entry_irreflexive(a: (Seq<char>, bool, bool))
    ensures
        !entry_lt(a, a),
{
    lemma_lex_irreflexive(a.0);
}

proof fn lemma_insert_sorted(s: Seq<(Seq<char>, bool, bool)>, p: int, v: (Seq<char>, bool, bool))
    requires
        sorted_entries(s),
        0 <= p <= s.len(),
        forall|k: int| 0 <= k < p ==> !entry_lt(v, #[trigger] s[k]),
        p < s.len() ==> entry_lt(v, s[p]),
    ensures
        sorted_entries(s.insert(p, v)),
{
    let t = s.insert(p, v);
    assert forall|a: int, b: int| 0 <= a < b < t.len() implies entry_le(t[a], t[b]) by {
        if b == p {
            assert(t[a] == s[a]);
        } else if a == p {
            assert(t[b] == s[b - 1]);
            if entry_lt(s[b - 1], v) {
                lemma_entry_trans(s[b - 1], v, s[p]);
                if b - 1 == p {
                    lemma_entry_irreflexive(s[p]);
                } else {
                    assert(entry_le(s[p], s[b - 1]));
                }
            }
        } else {
            let a0 = if a < p { a } else { a - 1 };
            let b0 = if b < p { b } else { b - 1 };
            assert(t[a] == s[a0]);
            assert(t[b] == s[b0]);
        }
    }
}

/// Whether an export leaves an entry out unless it is ticked.
fn is_off_by_default(name: &str) -> (b: bool)
    ensures
        b == off_by_default(name@),
{
    str_eq(name, ".fabric") || str_eq(name, "logs") || str_eq(name, "command_history.txt")
        || str_eq(name, "realms_persistence.json") || str_eq(name, "debug") || str_eq(name, ".cache")
        || str_eq(name, "authlib-injector.log") || str_eq(name, "easy_npc")
        || str_eq(name, "CustomSkinLoader") || str_eq(name, ".bobby")
}

fn lex_less(a: &[char], b: &[char]) -> (r: bool)
    ensures
        r == lex_lt(a@, b@),
{
    let mut i: usize = 0;
    assert(a@.skip(0) =~= a@);
    assert(b@.skip(0) =~= b@);
    while i < a.len() && i < b.len() && a[i] == b[i]
        invariant
            i <= a@.len(),
            i <= b@.len(),
            lex_lt(a@, b@) == lex_lt(a@.skip(i as int), b@.skip(i as int)),
        decreases a@.len() - i,
    {
        assert(a@.skip(i as int).drop_first() =~= a@.skip(i + 1));
        assert(b@.skip(i as int).drop_first() =~= b@.skip(i + 1));
        i = i + 1;
    }
    if i == a.len() {
        i < b.len()
    } else if i == b.len() {
        false
    } else {
        a[i] < b[i]
    }
}

fn entry_less(a: &(DirItem, bool), b: &(DirItem, bool)) -> (r: bool)
    ensures
        r == entry_lt(export_view(*a), export_view(*b)),
{
    if !a.0.is_file && b.0.is_file {
        return true;
    }
    if a.0.is_file != b.0.is_file {
        return false;
    }
    let x = chars_of(a.0.name.as_str());
    let y = chars_of(b.0.name.as_str());
    lex_less(x.as_slice(), y.as_slice())
}

/// The entries of an instance's folder as an export lists them: without
/// the launcher's own files, each ticked unless it is a log, cache or the
/// like, folders first and then by name (entries that compare equal keep
/// their order).
pub fn export_entries(items: &[DirItem]) -> (r: Vec<(DirItem, bool)>)
    ensures
        sorted_entries(r@.map_values(|e: (DirItem, bool)| export_view(e))),
        r@.map_values(|e: (DirItem, bool)| export_view(e)).to_multiset() == listed(items@, items@.len() as int).to_multiset(),
{
    let mut out: Vec<(DirItem, bool)> = Vec::new();
    let mut i: usize = 0;
    proof {
        let e = out@.map_values(|e: (DirItem, bool)| export_view(e));
        assert(e =~= listed(items@, 0));
    }
    while i < items.len()
        invariant
            i <= items@.len(),
            sorted_entries(out@.map_values(|e: (DirItem, bool)| export_view(e))),
            out@.map_values(|e: (DirItem, bool)| export_view(e)).to_multiset() == listed(items@, i as int).to_multiset(),
        decreases items@.len() - i,
    {
        let name = &items[i].name;
        if !(str_eq(name.as_str(), "mod_index.json") || str_eq(name.as_str(), "launcher_profiles.json")) {
            let enabled = !is_off_by_default(name.as_str());
            let e = (DirItem { name: name.clone(), is_file: items[i].is_file }, enabled);
            let ghost s = out@.map_values(|e: (DirItem, bool)| export_view(e));
            let mut p: usize = 0;
            while p < out.len() && !entry_less(&e, &out[p])
                invariant
                    p <= out@.len(),
                    s == out@.map_values(|e: (DirItem, bool)| export_view(e)),
                    forall|k: int| 0 <= k < p ==> !entry_lt(export_view(e), #[trigger] s[k]),
                decreases out@.len() - p,
            {
                p = p + 1;
            }
            let ghost v = export_view(e);
            proof {
                lemma_insert_sorted(s, p as int, v);
                vstd::seq_lib::to_multiset_insert(s, p as int, v);
                vstd::seq_lib::to_multiset_build(listed(items@, i as int), v);
            }
            let ghost old_out = out@;
            out.insert(p, e);
            assert(out@.map_values(|e: (DirItem, bool)| export_view(e)) =~= s.insert(p as int, v));
        }
        i = i + 1;
    }
    out
}

/// What an export leaves out: the unticked entries, as paths below the
/// instance folder (`.minecraft/<name>`), in list order.
pub open spec fn exceptions_of(entries: Seq<(DirItem, bool)>) -> Seq<Seq<char>>
    decreases entries.len(),
{
    if entries.len() == 0 {
        seq![]
    } else if entries.last().1 {
        exceptions_of(entries.drop_last())
    } else {
        exceptions_of(entries.drop_last()).push(".minecraft/"@ + entries.last().0.name@)
    }
}

/// The paths that an export leaves out.
pub fn export_exceptions(entries: &[(DirItem, bool)]) -> (r: Vec<String>)
    ensures
        crate::mods::strs(r@) == exceptions_of(entries@),
{
    let mut out: Vec<String> = Vec::new();
    let mut i: usize = 0;
    while i < entries.len()
        invariant
            i <= entries@.len(),
            crate::mods::strs(out@) == exceptions_of(entries@.take(i as int)),
        decreases entries@.len() - i,
    {
        assert(entries@.take(i + 1).drop_last() =~= entries@.take(i as int));
        if !entries[i].1 {
            let mut path = chars_of(".minecraft/");
            push_str_chars(&mut path, entries[i].0.name.as_str());
            let p = string_of(path.as_slice());
            let ghost prev = out@;
            let ghost pv = p;
            out.push(p);
            proof {
                crate::mods::lemma_map_push(prev, pv, |x: String| x@);
            }
        }
        i = i + 1;
    }
    assert(entries@.take(entries@.len() as int) =~= entries@);
    out
}

/// Ticks or unticks the entry at `idx`, when there is one.
pub fn toggle_entry(entries: &mut Vec<(DirItem, bool)>, idx: usize, t: bool)
    ensures
        final(entries)@.len() == old(entries)@.len(),
        forall|k: int| 0 <= k < old(entries)@.len() && k != idx ==> final(entries)@[k] == old(entries)@[k],
        idx < old(entries)@.len() ==> final(entries)@[idx as int].1 == t
            && final(entries)@[idx as int].0 == old(entries)@[idx as int].0,
{
    if idx < entries.len() {
        let name = entries[idx].0.name.clone();
        let is_file = entries[idx].0.is_file;
        entries.set(idx, (DirItem { name, is_file }, t));
    }
}

/// A mod's identity in a store.
pub enum ModId {
    Modrinth(String),
    Curseforge(String),
}

pub open spec fn store_page(source: Seq<char>, project: Seq<char>) -> Option<Seq<char>> {
    if source == "modrinth"@ {
        Some("https://modrinth.com/mod/"@ + project)
    } else if source == "curseforge"@ {
        Some("https://www.curseforge.com/minecraft/mc-mods/"@ + project)
    } else {
        None
    }
}

pub open spec fn id_page(id: ModId) -> Seq<char> {
    match id {
        ModId::Modrinth(m) => "https://modrinth.com/mod/"@ + m@,
        ModId::Curseforge(c) => "https://www.curseforge.com/minecraft/mc-mods/"@ + c@,
    }
}

/// The store page an exported mod list links to: by the source and
/// project recorded in the index when it names a known store, else by the
/// mod's own id.
pub fn mod_page_url(recorded: Option<(&str, &str)>, id: &ModId) -> (r: String)
    ensures
        r@ == match recorded {
            Some(p) => match store_page(p.0@, p.1@) {
                Some(u) => u,
                None => id_page(*id),
            },
            None => id_page(*id),
        },
{
    match recorded {
        Some((source, project)) => {
            if str_eq(source, "modrinth") {
                let mut out = chars_of("https://modrinth.com/mod/");
                push_str_chars(&mut out, project);
                return string_of(out.as_slice());
            } else if str_eq(source, "curseforge") {
                let mut out = chars_of("https://www.curseforge.com/minecraft/mc-mods/");
                push_str_chars(&mut out, project);
                return string_of(out.as_slice());
            }
        },
        None => {},
    }
    match id {
        ModId::Modrinth(m) => {
            let mut out = chars_of("https://modrinth.com/mod/");
            push_str_chars(&mut out, m.as_str());
            string_of(out.as_slice())
        },
        ModId::Curseforge(c) => {
            let mut out = chars_of("https://www.curseforge.com/minecraft/mc-mods/");
            push_str_chars(&mut out, c.as_str());
            string_of(out.as_slice())
        },
    }
}

/// A local mod file's name without a `.jar` ending, or else without a
/// `.zip` ending.
pub open spec fn local_name(file_name: Seq<char>) -> Seq<char> {
    if ends_with(file_name, ".jar"@) {
        file_name.take(file_name.len() - 4)
    } else if ends_with(file_name, ".zip"@) {
        file_name.take(file_name.len() - 4)
    } else {
        file_name
    }
}

/// The name a local mod file is listed under: without a `.jar` ending, or
/// else without a `.zip` ending.
pub fn local_display_name(file_name: &str) -> (r: String)
    ensures
        r@ == local_name(file_name@),
{
    let v = chars_of(file_name);
    let jar = chars_of(".jar");
    let zip = chars_of(".zip");
    proof {
        reveal_strlit(".jar");
        reveal_strlit(".zip");
    }
    if ends_with_exec(v.as_slice(), jar.as_slice()) || ends_with_exec(v.as_slice(), zip.as_slice()) {
        let n = v.len() - 4;
        string_of(&v.as_slice()[0..n])
    } else {
        string_of(v.as_slice())
    }
}

/// A selected mod as the export preview shows it: a downloaded one by its
/// name, its store id and the store and project that the mod index
/// records for it (if any); a local one by its file name.
pub enum PreviewMod {
    Downloaded { name: String, id: ModId, recorded: Option<(String, String)> },
    Local { file_name: String },
}

/// A row of the export preview: its number (counting from 1), the name
/// shown and, for a downloaded mod, the page it opens (a local mod is
/// marked `(local)` and opens nothing).
pub struct PreviewRow {
    pub number: usize,
    pub name: String,
    pub link: Option<String>,
}

/// The page a downloaded mod of the preview opens.
pub open spec fn preview_link(id: ModId, recorded: Option<(String, String)>) -> Seq<char> {
    match recorded {
        Some(p) => match store_page(p.0@, p.1@) {
            Some(u) => u,
            None => id_page(id),
        },
        None => id_page(id),
    }
}

/// The row that shows a selected mod as number `number`.
pub open spec fn preview_row(m: PreviewMod, number: int) -> (int, Seq<char>, Option<Seq<char>>) {
    match m {
        PreviewMod::Downloaded { name, id, recorded } => (number, name@, Some(preview_link(id, recorded))),
        PreviewMod::Local { file_name } => (number, local_name(file_name@), None),
    }
}

pub open spec fn row_view(r: PreviewRow) -> (int, Seq<char>, Option<Seq<char>>) {
    (r.number as int, r.name@, match r.link {
        Some(l) => Some(l@),
        None => None,
    })
}

/// The rows of the export preview: the first ten selected mods, in order,
/// numbered from 1 (the rest are counted by [`more_mods_text`]).
pub fn preview_rows(mods: &[PreviewMod]) -> (r: Vec<PreviewRow>)
    ensures
        r@.len() == if mods@.len() < 10 { mods@.len() } else { 10 },
        forall|i: int| 0 <= i < r@.len() ==> row_view(#[trigger] r@[i]) == preview_row(mods@[i], i + 1),
{
    let n: usize = if mods.len() < 10 { mods.len() } else { 10 };
    let mut out: Vec<PreviewRow> = Vec::new();
    let mut i: usize = 0;
    while i < n
        invariant
            n <= mods@.len(),
            n <= 10,
            n == if mods@.len() < 10 { mods@.len() } else { 10 },
            i <= n,
            out@.len() == i,
            forall|k: int| 0 <= k < i ==> row_view(#[trigger] out@[k]) == preview_row(mods@[k], k + 1),
        decreases n - i,
    {
        let row = match &mods[i] {
            PreviewMod::Downloaded { name, id, recorded } => {
                let rec = match recorded {
                    Some(p) => Some((p.0.as_str(), p.1.as_str())),
                    None => None,
                };
                let url = mod_page_url(rec, id);
                PreviewRow { number: i + 1, name: name.clone(), link: Some(url) }
            },
            PreviewMod::Local { file_name } => {
                PreviewRow { number: i + 1, name: local_display_name(file_name.as_str()), link: None }
            },
        };
        assert(row_view(row) == preview_row(mods@[i as int], i + 1));
        out.push(row);
        i = i + 1;
    }
    out
}

/// "mod" or "mods", for a count.
pub open spec fn mods_word(n: nat) -> Seq<char> {
    if n == 1 { "mod"@ } else { "mods"@ }
}

/// The line under an export preview that stands for the mods past the
/// first ten.
pub fn more_mods_text(total: usize) -> (r: Option<String>)
    ensures
        total <= 10 ==> r is None,
        total > 10 ==> (r matches Some(t) && t@ == "... and "@ + decimal((total - 10) as nat) + " more "@ + mods_word((total - 10) as nat)),
{
    if total <= 10 {
        return None;
    }
    let rest = total - 10;
    let mut out = chars_of("... and ");
    push_decimal(&mut out, rest as u64);
    push_str_chars(&mut out, " more ");
    if rest == 1 {
        push_str_chars(&mut out, "mod");
    } else {
        push_str_chars(&mut out, "mods");
    }
    Some(string_of(out.as_slice()))
}

/// Whether the export screen's four actions (copy as plain text, save as
/// plain text, copy as Markdown, save as Markdown) can be pressed and its
/// preview is shown: only when some mod is selected.
pub fn export_actions_enabled(count: usize) -> (b: bool)
    ensures
        b == (count > 0),
{
    count > 0
}

/// The summary at the top of the export screen.
pub fn selection_summary(count: usize) -> (r: String)
    ensures
        count == 0 ==> r@ == "No mods selected - please select some mods first"@,
        count > 0 ==> r@ == decimal(count as nat) + " "@ + mods_word(count as nat) + " selected for export"@,
{
    if count == 0 {
        return "No mods selected - please select some mods first".to_owned();
    }
    let mut out: Vec<char> = Vec::new();
    push_decimal(&mut out, count as u64);
    push_str_chars(&mut out, " ");
    if count == 1 {
        push_str_chars(&mut out, "mod");
    } else {
        push_str_chars(&mut out, "mods");
    }
    push_str_chars(&mut out, " selected for export");
    string_of(out.as_slice())
}

} // verus!
