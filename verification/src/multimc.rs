//! Importing a MultiMC or Prism Launcher instance: what its component list
//! asks for, its cleaned-up configuration text, and the Java arguments and
//! loader libraries it brings along.
use vstd::prelude::*;

use crate::fabric::{library_path, library_url, Library};
use crate::mods::{lemma_map_push, strs};
use crate::text::{
    chars_of, count_char, join, join_with, lines, lines_of, push_str_chars, starts_with,
    starts_with_exec, str_eq, string_of, words, words_of,
};
use crate::version_list::FabricVersionListItem;

verus! {

/// The component list of an exported instance (`mmc-pack.json`).
pub struct MmcPack {
    pub components: Vec<MmcPackComponent>,
}

/// One component of the list, by its display name and version.
pub struct MmcPackComponent {
    pub cached_name: String,
    pub cached_version: String,
}

/// The mod loaders an instance can run.
#[derive(PartialEq, Eq, Structural, Clone, Copy)]
pub enum Loader {
    Fabric,
    Quilt,
    Forge,
    Neoforge,
    OptiFine,
    Paper,
    Liteloader,
    Modloader,
    Rift,
}

/// What an imported instance needs installed.
pub struct InstanceRecipe {
    pub is_lwjgl3: bool,
    pub mc_version: String,
    pub loader: Option<Loader>,
    pub loader_version: Option<String>,
}

/// A recipe as plain values.
pub open spec fn recipe_view(r: InstanceRecipe) -> (bool, Seq<char>, Option<Loader>, Option<Seq<char>>) {
    (r.is_lwjgl3, r.mc_version@, r.loader, match r.loader_version {
        Some(v) => Some(v@),
        None => None,
    })
}

/// What a component does to the recipe: Minecraft sets the game version,
/// a loader sets the loader and its version (Forge, NeoForge and the Quilt
/// loader are all recorded as Forge, the Fabric loader as Fabric), LWJGL 3
/// marks the recipe; LWJGL 2 and the intermediary mappings change nothing.
pub open spec fn apply_component(
    r: (bool, Seq<char>, Option<Loader>, Option<Seq<char>>),
    name: Seq<char>,
    version: Seq<char>,
) -> (bool, Seq<char>, Option<Loader>, Option<Seq<char>>) {
    if name == "Minecraft"@ {
        (r.0, version, r.2, r.3)
    } else if name == "Forge"@ || name == "NeoForge"@ || name == "Quilt Loader"@ {
        (r.0, r.1, Some(Loader::Forge), Some(version))
    } else if name == "Fabric Loader"@ {
        (r.0, r.1, Some(Loader::Fabric), Some(version))
    } else if name == "LWJGL 3"@ {
        (true, r.1, r.2, r.3)
    } else {
        r
    }
}

/// Whether the importer knows a component.
pub open spec fn known_component(name: Seq<char>) -> bool {
    name == "Minecraft"@ || name == "Forge"@ || name == "NeoForge"@ || name == "Fabric Loader"@
        || name == "Quilt Loader"@ || name == "LWJGL 3"@ || name == "LWJGL 2"@
        || name == "Intermediary Mappings"@
}

/// The recipe after the first `n` components.
pub open spec fn recipe_after(cs: Seq<MmcPackComponent>, n: int) -> (bool, Seq<char>, Option<Loader>, Option<Seq<char>>)
    decreases n,
{
    if n <= 0 {
        (false, "(MultiMC) Couldn't find minecraft version"@, None, None)
    } else {
        apply_component(recipe_after(cs, n - 1), cs[n - 1].cached_name@, cs[n - 1].cached_version@)
    }
}

/// The names of the unknown components among the first `n`, in order.
pub open spec fn unknown_after(cs: Seq<MmcPackComponent>, n: int) -> Seq<Seq<char>>
    decreases n,
{
    if n <= 0 {
        seq![]
    } else if known_component(cs[n - 1].cached_name@) {
        unknown_after(cs, n - 1)
    } else {
        unknown_after(cs, n - 1).push(cs[n - 1].cached_name@)
    }
}

/// The names of the components that choose a mod loader.
pub open spec fn names_loader(name: Seq<char>) -> bool {
    name == "Forge"@ || name == "NeoForge"@ || name == "Fabric Loader"@ || name == "Quilt Loader"@
}

proof fn lemma_component_names_differ()
    ensures
        "Minecraft"@ != "Forge"@,
        "Minecraft"@ != "NeoForge"@,
        "Minecraft"@ != "Fabric Loader"@,
        "Minecraft"@ != "Quilt Loader"@,
        "Fabric Loader"@ != "Forge"@,
        "Fabric Loader"@ != "NeoForge"@,
        "Fabric Loader"@ != "Quilt Loader"@,
        "LWJGL 3"@ != "Minecraft"@,
        "LWJGL 3"@ != "Forge"@,
        "LWJGL 3"@ != "NeoForge"@,
        "LWJGL 3"@ != "Fabric Loader"@,
        "LWJGL 3"@ != "Quilt Loader"@,
{
    reveal_strlit("Minecraft");
    reveal_strlit("Forge");
    reveal_strlit("NeoForge");
    reveal_strlit("Fabric Loader");
    reveal_strlit("Quilt Loader");
    reveal_strlit("LWJGL 3");
    assert("Minecraft"@[0] != "Forge"@[0]);
    assert("Minecraft"@[0] != "NeoForge"@[0]);
    assert("Minecraft"@[0] != "Fabric Loader"@[0]);
    assert("Minecraft"@[0] != "Quilt Loader"@[0]);
    assert("Fabric Loader"@[1] != "Forge"@[1]);
    assert("Fabric Loader"@[0] != "NeoForge"@[0]);
    assert("Fabric Loader"@[0] != "Quilt Loader"@[0]);
    assert("LWJGL 3"@[0] != "Minecraft"@[0]);
    assert("LWJGL 3"@[0] != "Forge"@[0]);
    assert("LWJGL 3"@[0] != "NeoForge"@[0]);
    assert("LWJGL 3"@[0] != "Fabric Loader"@[0]);
    assert("LWJGL 3"@[0] != "Quilt Loader"@[0]);
}

/// The loader of an imported instance is set by the last component that
/// chooses one, together with that component's version: the Fabric loader
/// gives Fabric, and Forge gives Forge (as do NeoForge and the Quilt
/// loader, which the importer records as Forge); later components that
/// choose no loader leave it alone.
pub proof fn lemma_last_loader_component(cs: Seq<MmcPackComponent>, n: int, k: int)
    requires
        0 <= k < n <= cs.len(),
        names_loader(cs[k].cached_name@),
        forall|j: int| k < j < n ==> !names_loader(#[trigger] cs[j].cached_name@),
    ensures
        recipe_after(cs, n).2 == Some(if cs[k].cached_name@ == "Fabric Loader"@ { Loader::Fabric } else { Loader::Forge }),
        recipe_after(cs, n).3 == Some(cs[k].cached_version@),
    decreases n,
{
    lemma_component_names_differ();
    if n > k + 1 {
        lemma_last_loader_component(cs, n - 1, k);
        assert(!names_loader(cs[n - 1].cached_name@));
    }
}

/// An import with no component that chooses a loader installs none.
pub proof fn lemma_no_loader_component(cs: Seq<MmcPackComponent>, n: int)
    requires
        0 <= n <= cs.len(),
        forall|j: int| 0 <= j < n ==> !names_loader(#[trigger] cs[j].cached_name@),
    ensures
        recipe_after(cs, n).2 is None,
        recipe_after(cs, n).3 is None,
    decreases n,
{
    if n > 0 {
        lemma_no_loader_component(cs, n - 1);
        assert(!names_loader(cs[n - 1].cached_name@));
    }
}

/// The game version of an imported instance is the version of its last
/// `Minecraft` component.
pub proof fn lemma_last_minecraft_component(cs: Seq<MmcPackComponent>, n: int, k: int)
    requires
        0 <= k < n <= cs.len(),
        cs[k].cached_name@ == "Minecraft"@,
        forall|j: int| k < j < n ==> #[trigger] cs[j].cached_name@ != "Minecraft"@,
    ensures
        recipe_after(cs, n).1 == cs[k].cached_version@,
    decreases n,
{
    if n > k + 1 {
        lemma_last_minecraft_component(cs, n - 1, k);
        assert(cs[n - 1].cached_name@ != "Minecraft"@);
    }
}

impl InstanceRecipe {
    /// The recipe that a component list asks for, and the names of the
    /// components the importer does not know (to be reported).
    pub fn from_components(components: &[MmcPackComponent]) -> (r: (InstanceRecipe, Vec<String>))
        ensures
            recipe_view(r.0) == recipe_after(components@, components@.len() as int),
            strs(r.1@) == unknown_after(components@, components@.len() as int),
    {
        let mut recipe = InstanceRecipe {
            is_lwjgl3: false,
            mc_version: "(MultiMC) Couldn't find minecraft version".to_owned(),
            loader: None,
            loader_version: None,
        };
        let mut unknown: Vec<String> = Vec::new();
        let mut i: usize = 0;
        while i < components.len()
            invariant
                i <= components@.len(),
                recipe_view(recipe) == recipe_after(components@, i as int),
                strs(unknown@) == unknown_after(components@, i as int),
            decreases components@.len() - i,
        {
            let c = &components[i];
            let name = c.cached_name.as_str();
            if str_eq(name, "Minecraft") {
                recipe.mc_version = c.cached_version.clone();
            } else if str_eq(name, "Forge") || str_eq(name, "NeoForge") || str_eq(name, "Quilt Loader") {
                recipe.loader = Some(Loader::Forge);
                recipe.loader_version = Some(c.cached_version.clone());
            } else if str_eq(name, "Fabric Loader") {
                recipe.loader = Some(Loader::Fabric);
                recipe.loader_version = Some(c.cached_version.clone());
            } else if str_eq(name, "LWJGL 3") {
                recipe.is_lwjgl3 = true;
            } else if str_eq(name, "LWJGL 2") || str_eq(name, "Intermediary Mappings") {
            } else {
                let ghost prev = unknown@;
                let n = c.cached_name.clone();
                let ghost nv = n;
                unknown.push(n);
                proof {
                    lemma_map_push(prev, nv, |s: String| s@);
                }
            }
            i = i + 1;
        }
        (recipe, unknown)
    }

    /// Marks the game version for the LWJGL 3 build of an old version: when
    /// the instance uses LWJGL 3 and the version was released no later than
    /// `reference` (both read as RFC 3339 times), `-lwjgl3` is appended.
    pub fn setup_lwjgl3(&mut self, release_time: Option<&str>, reference: &str)
        ensures
            final(self).is_lwjgl3 == old(self).is_lwjgl3,
            final(self).loader == old(self).loader,
            final(self).loader_version == old(self).loader_version,
            ({
                let marks = old(self).is_lwjgl3 && match release_time {
                    Some(t) => match (rfc3339_instant(t@), rfc3339_instant(reference@)) {
                        (Some(a), Some(b)) => instant_le(a, b),
                        _ => false,
                    },
                    None => false,
                };
                final(self).mc_version@ == if marks { old(self).mc_version@ + "-lwjgl3"@ } else { old(self).mc_version@ }
            }),
    {
        if !self.is_lwjgl3 {
            return;
        }
        let t = match release_time {
            Some(t) => t,
            None => {
                return;
            },
        };
        let look = parse_rfc3339(t);
        let expect = parse_rfc3339(reference);
        match (look, expect) {
            (Some(a), Some(b)) => {
                if a.0 < b.0 || (a.0 == b.0 && a.1 <= b.1) {
                    let mut v = chars_of(self.mc_version.as_str());
                    push_str_chars(&mut v, "-lwjgl3");
                    self.mc_version = string_of(v.as_slice());
                }
            },
            _ => {},
        }
    }
}

/// An instant as whole seconds since the UNIX epoch and nanoseconds.
pub open spec fn instant_le(a: (i64, u32), b: (i64, u32)) -> bool {
    a.0 < b.0 || (a.0 == b.0 && a.1 <= b.1)
}

/// The instant that `chrono::DateTime::parse_from_rfc3339` reads from a
/// text, as seconds since the UNIX epoch and nanoseconds; `None` when the
/// text is not an RFC 3339 time.
pub uninterp spec fn rfc3339_instant(s: Seq<char>) -> Option<(i64, u32)>;

/// `chrono::DateTime::parse_from_rfc3339`, read as an instant (two such
/// times compare as their instants do). Its result is named, not stated.
#[verifier::external_body]
pub(crate) fn parse_rfc3339(s: &str) -> (r: Option<(i64, u32)>)
    ensures
        r == rfc3339_instant(s@),
{
    match chrono::DateTime::parse_from_rfc3339(s) {
        Ok(t) => Some((t.timestamp(), t.timestamp_subsec_nanos())),
        Err(_) => None,
    }
}

/// The lines of a configuration text that the launcher's INI reader can
/// take: Prism Launcher's `mods_Page\Columns` byte-array entries removed.
pub open spec fn readable_lines(ls: Seq<Seq<char>>) -> Seq<Seq<char>>
    decreases ls.len(),
{
    if ls.len() == 0 {
        seq![]
    } else if starts_with(ls.last(), "mods_Page\\Columns"@) {
        readable_lines(ls.drop_last())
    } else {
        readable_lines(ls.drop_last()).push(ls.last())
    }
}

/// An instance configuration without the entries the INI reader cannot
/// parse, its lines joined with `\n`.
pub fn filter_bytearray(input: &str) -> (res: String)
    ensures
        res@ == join(readable_lines(lines(input@)), "\n"@),
{
    let all = lines_of(input);
    let prefix = chars_of("mods_Page\\Columns");
    let mut kept: Vec<String> = Vec::new();
    let mut i: usize = 0;
    while i < all.len()
        invariant
            i <= all@.len(),
            strs(all@) == lines(input@),
            prefix@ == "mods_Page\\Columns"@,
            strs(kept@) == readable_lines(strs(all@).take(i as int)),
        decreases all@.len() - i,
    {
        let ghost t = strs(all@);
        assert(t.take(i + 1).drop_last() =~= t.take(i as int));
        assert(t.take(i + 1).last() == all@[i as int]@);
        let line = chars_of(all[i].as_str());
        let ghost prev = kept@;
        if !starts_with_exec(line.as_slice(), prefix.as_slice()) {
            let l = all[i].clone();
            let ghost lv = l;
            kept.push(l);
            proof {
                lemma_map_push(prev, lv, |s: String| s@);
                assert(readable_lines(t.take(i + 1)) == readable_lines(t.take(i as int)).push(t.take(i + 1).last()));
            }
        } else {
            assert(readable_lines(t.take(i + 1)) == readable_lines(t.take(i as int)));
        }
        i = i + 1;
    }
    assert(strs(all@).take(all@.len() as int) =~= strs(all@));
    join_with(kept.as_slice(), "\n")
}

/// An INI document as the `rust-ini` crate reads it.
#[verifier::external_type_specification]
#[verifier::external_body]
pub struct ExIni(ini::Ini);

/// What `ini::Ini::get_from` gives for each section (`None` for the
/// entries before any section header) and key of a document: the first
/// value of that key in the first section of that name.
pub uninterp spec fn ini_values(doc: ini::Ini) -> Map<(Option<Seq<char>>, Seq<char>), Seq<char>>;

/// What `ini::Ini::load_from_str` makes of a text: the values of the
/// document it reads, or the line, column and message of its parse error.
pub uninterp spec fn ini_loaded(text: Seq<char>) -> Result<Map<(Option<Seq<char>>, Seq<char>), Seq<char>>, (usize, usize, Seq<char>)>;

/// `ini::Ini::load_from_str`. Whether a text parses and what it holds is
/// named, not stated: the document's values or the parse error are exactly
/// what `ini_loaded` gives for the text.
#[verifier::external_body]
fn load_ini(text: &str) -> (r: Result<ini::Ini, (usize, usize, String)>)
    ensures
        match r {
            Ok(doc) => ini_loaded(text@) == Ok::<Map<(Option<Seq<char>>, Seq<char>), Seq<char>>, (usize, usize, Seq<char>)>(ini_values(doc)),
            Err(e) => ini_loaded(text@) == Err::<Map<(Option<Seq<char>>, Seq<char>), Seq<char>>, (usize, usize, Seq<char>)>((e.0, e.1, e.2@)),
        },
{
    match ini::Ini::load_from_str(text) {
        Ok(doc) => Ok(doc),
        Err(e) => Err((e.line, e.col, e.msg.into_owned())),
    }
}

/// An optional section name as plain text.
pub open spec fn section_view(section: Option<&str>) -> Option<Seq<char>> {
    match section {
        Some(s) => Some(s@),
        None => None,
    }
}

/// `ini::Ini::get_from`: the value of a key in a section, as the document
/// holds it (`ini_values`).
#[verifier::external_body]
fn ini_get(doc: &ini::Ini, section: Option<&str>, key: &str) -> (r: Option<String>)
    ensures
        match r {
            Some(v) => ini_values(*doc).contains_key((section_view(section), key@))
                && ini_values(*doc)[(section_view(section), key@)] == v@,
            None => !ini_values(*doc).contains_key((section_view(section), key@)),
        },
{
    match doc.get_from(section, key) {
        Some(v) => Some(v.to_owned()),
        None => None,
    }
}

/// Why an instance configuration could not be read.
#[derive(Debug)]
pub enum CfgError {
    /// The INI reader refused the text, at this line and column.
    Parse { line: usize, col: usize, message: String },
    /// The section and key of an entry that must be there.
    IniFieldMissing(String, String),
}

/// What the importer reads from an instance configuration.
pub struct InstanceCfg {
    /// The instance's name.
    pub name: String,
    /// Its `JvmArgs` entry of the `General` section, if it has one.
    pub jvm_args: Option<String>,
}

/// A value of a document, if it has one.
pub open spec fn ini_lookup(m: Map<(Option<Seq<char>>, Seq<char>), Seq<char>>, section: Option<Seq<char>>, key: Seq<char>) -> Option<Seq<char>> {
    if m.contains_key((section, key)) {
        Some(m[(section, key)])
    } else {
        None
    }
}

/// The instance's name: `name` of the `General` section, else a `name`
/// before any section header.
pub open spec fn cfg_name(m: Map<(Option<Seq<char>>, Seq<char>), Seq<char>>) -> Option<Seq<char>> {
    match ini_lookup(m, Some("General"@), "name"@) {
        Some(n) => Some(n),
        None => ini_lookup(m, None, "name"@),
    }
}

/// The text the INI reader is given: the configuration without its
/// byte-array entries.
pub open spec fn cfg_text(cfg: Seq<char>) -> Seq<char> {
    join(readable_lines(lines(cfg)), "\n"@)
}

/// The instance name, from the `General` section's entry or else from one
/// before any section; the missing-entry error when there is neither.
pub fn pick_instance_name(general: Option<String>, top: Option<String>) -> (r: Result<String, CfgError>)
    ensures
        match (general, top) {
            (Some(g), _) => r matches Ok(n) && n@ == g@,
            (None, Some(t)) => r matches Ok(n) && n@ == t@,
            (None, None) => r matches Err(CfgError::IniFieldMissing(s, k)) && s@ == "General"@ && k@ == "name"@,
        },
{
    match general {
        Some(g) => Ok(g),
        None => match top {
            Some(t) => Ok(t),
            None => Err(CfgError::IniFieldMissing("General".to_owned(), "name".to_owned())),
        },
    }
}

/// Reads an instance configuration (`instance.cfg`): its byte-array
/// entries are dropped, the rest is read as INI, and the instance's name
/// and Java arguments are taken from it.
pub fn read_instance_cfg(cfg: &str) -> (r: Result<InstanceCfg, CfgError>)
    ensures
        match ini_loaded(cfg_text(cfg@)) {
            Err(p) => r matches Err(CfgError::Parse { line, col, message })
                && line == p.0 && col == p.1 && message@ == p.2,
            Ok(m) => match cfg_name(m) {
                Some(n) => r matches Ok(c) && c.name@ == n
                    && match c.jvm_args { Some(a) => Some(a@), None => None::<Seq<char>> } == ini_lookup(m, Some("General"@), "JvmArgs"@),
                None => r matches Err(CfgError::IniFieldMissing(s, k)) && s@ == "General"@ && k@ == "name"@,
            },
        },
{
    let text = filter_bytearray(cfg);
    let doc = match load_ini(text.as_str()) {
        Ok(doc) => doc,
        Err(e) => {
            return Err(CfgError::Parse { line: e.0, col: e.1, message: e.2 });
        },
    };
    let general = ini_get(&doc, Some("General"), "name");
    let top = ini_get(&doc, None, "name");
    let name = match pick_instance_name(general, top) {
        Ok(n) => n,
        Err(e) => {
            return Err(e);
        },
    };
    let jvm_args = ini_get(&doc, Some("General"), "JvmArgs");
    Ok(InstanceCfg { name, jvm_args })
}

/// The Java arguments of an imported instance: the ones it had, then the
/// whitespace-separated words of its `JvmArgs` entry.
pub fn merge_jvm_args(java_args: Option<Vec<String>>, jvm_args: &str) -> (res: Vec<String>)
    ensures
        strs(res@) == (match java_args {
            Some(a) => strs(a@),
            None => seq![],
        }) + words(jvm_args@),
{
    let mut out = match java_args {
        Some(a) => a,
        None => Vec::new(),
    };
    let ghost before = out@;
    let mut extra = words_of(jvm_args);
    let ghost added = extra@;
    out.append(&mut extra);
    assert(strs(out@) =~= strs(before) + strs(added));
    out
}

/// The loader profile that stands in for versions older than 1.14 (the
/// 1.14.4 profile of the chosen loader version).
pub open spec fn legacy_profile_url(is_quilt: bool, version: Seq<char>) -> Seq<char> {
    "https://"@ + (if is_quilt { "meta.quiltmc.org/v3"@ } else { "meta.fabricmc.net/v2"@ })
        + "/versions/loader/1.14.4/"@ + version + "/profile/json"@
}

pub fn legacy_profile_url_exec(is_quilt: bool, version: &str) -> (res: String)
    ensures
        res@ == legacy_profile_url(is_quilt, version@),
{
    let mut out = chars_of("https://");
    if is_quilt {
        push_str_chars(&mut out, "meta.quiltmc.org/v3");
    } else {
        push_str_chars(&mut out, "meta.fabricmc.net/v2");
    }
    push_str_chars(&mut out, "/versions/loader/1.14.4/");
    push_str_chars(&mut out, version);
    push_str_chars(&mut out, "/profile/json");
    string_of(out.as_slice())
}

/// The loader version to install: the one recorded, else the newest the
/// backend lists, else a placeholder that no backend serves.
pub fn pick_loader_version(recorded: Option<String>, available: &[FabricVersionListItem]) -> (res: String)
    ensures
        res@ == match recorded {
            Some(v) => v@,
            None => if available@.len() > 0 { available@[0].loader.version@ } else { " No versions found! "@ },
        },
{
    match recorded {
        Some(v) => v,
        None => {
            if available.len() > 0 {
                available[0].loader.version.clone()
            } else {
                " No versions found! ".to_owned()
            }
        },
    }
}

/// A library to download for an imported instance: its path below the
/// libraries folder, its address, and its name.
pub struct LibraryJob {
    pub path: String,
    pub url: String,
    pub name: String,
}

/// Whether a library is downloaded: the intermediary mappings are not, nor
/// are libraries without a repository.
pub open spec fn wanted(l: Library) -> bool {
    !starts_with(l.name@, "net.fabricmc:intermediary"@) && l.url is Some
}

/// The downloads, in order, for the libraries among the first `n` that are
/// wanted, with `sep` between path parts.
pub open spec fn jobs_after(ls: Seq<Library>, n: int, sep: char) -> Seq<(Seq<char>, Seq<char>, Seq<char>)>
    decreases n,
{
    if n <= 0 {
        seq![]
    } else if wanted(ls[n - 1]) {
        jobs_after(ls, n - 1, sep).push((library_path(ls[n - 1].name@, sep), library_url(ls[n - 1].url->0@, ls[n - 1].name@), ls[n - 1].name@))
    } else {
        jobs_after(ls, n - 1, sep)
    }
}

pub open spec fn job_view(j: LibraryJob) -> (Seq<char>, Seq<char>, Seq<char>) {
    (j.path@, j.url@, j.name@)
}

/// The library downloads of a loader profile installed for a version older
/// than 1.14, with `sep` between path parts.
pub fn fabric_library_jobs(libraries: &[Library], sep: char) -> (res: Vec<LibraryJob>)
    requires
        forall|i: int| 0 <= i < libraries@.len() && wanted(#[trigger] libraries@[i]) ==> count_char(libraries@[i].name@, ':') >= 2,
    ensures
        res@.map_values(|j: LibraryJob| job_view(j)) == jobs_after(libraries@, libraries@.len() as int, sep),
{
    let mut out: Vec<LibraryJob> = Vec::new();
    let prefix = chars_of("net.fabricmc:intermediary");
    let mut i: usize = 0;
    while i < libraries.len()
        invariant
            i <= libraries@.len(),
            prefix@ == "net.fabricmc:intermediary"@,
            forall|k: int| 0 <= k < libraries@.len() && wanted(#[trigger] libraries@[k]) ==> count_char(libraries@[k].name@, ':') >= 2,
            out@.map_values(|j: LibraryJob| job_view(j)) == jobs_after(libraries@, i as int, sep),
        decreases libraries@.len() - i,
    {
        let l = &libraries[i];
        let n = chars_of(l.name.as_str());
        if !starts_with_exec(n.as_slice(), prefix.as_slice()) && l.url.is_some() {
            assert(wanted(libraries@[i as int]));
            match l.get_url() {
                Some(url) => {
                    let path = l.get_path_with_separator(sep);
                    let job = LibraryJob { path, url, name: l.name.clone() };
                    let ghost prev = out@;
                    let ghost jv = job;
                    out.push(job);
                    proof {
                        lemma_map_push(prev, jv, |j: LibraryJob| job_view(j));
                    }
                },
                None => {},
            }
        }
        i = i + 1;
    }
    out
}

/// The progress message for a library of an imported Fabric profile.
pub fn library_progress_message(name: &str) -> (res: String)
    ensures
        res@ == "Installing fabric: library "@ + name@,
{
    let mut out = chars_of("Installing fabric: library ");
    push_str_chars(&mut out, name);
    string_of(out.as_slice())
}

} // verus!
