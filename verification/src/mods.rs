//! The mod index of an instance and the removal of mods from it: deleting
//! the requested mods, then repeatedly dropping dependents that no longer
//! exist and the dependencies that nothing needs any more.
use vstd::prelude::*;

use crate::text::{chars_of, push_str_chars, string_of};



verus! {

/// One downloaded file of a mod.
pub struct ModFile {
    pub url: String,
    pub filename: String,
    pub primary: bool,
}

/// What the index records about one installed mod.
pub struct ModConfig {
    pub name: String,
    pub manually_installed: bool,
    pub installed_version: String,
    pub enabled: bool,
    pub project_source: String,
    pub project_id: String,
    pub files: Vec<ModFile>,
    /// Ids of the mods this mod needs.
    pub dependencies: Vec<String>,
    /// Ids of the mods that need this mod.
    pub dependents: Vec<String>,
}

/// The mods of an instance, by id (each id at most once: `unique_keys`).
pub struct ModIndex {
    pub mods: Vec<(String, ModConfig)>,
}

pub ghost struct ModFileView {
    pub url: Seq<char>,
    pub filename: Seq<char>,
    pub primary: bool,
}

pub ghost struct ModView {
    pub name: Seq<char>,
    pub manual: bool,
    pub version: Seq<char>,
    pub enabled: bool,
    pub source: Seq<char>,
    pub project_id: Seq<char>,
    pub files: Seq<ModFileView>,
    pub dependencies: Seq<Seq<char>>,
    pub dependents: Seq<Seq<char>>,
}

pub type Entry = (Seq<char>, ModView);

pub open spec fn strs(v: Seq<String>) -> Seq<Seq<char>> {
    v.map_values(|s: String| s@)
}

impl View for ModFile {
    type V = ModFileView;

    open spec fn view(&self) -> ModFileView {
        ModFileView { url: self.url@, filename: self.filename@, primary: self.primary }
    }
}

impl View for ModConfig {
    type V = ModView;

    open spec fn view(&self) -> ModView {
        ModView {
            name: self.name@,
            manual: self.manually_installed,
            version: self.installed_version@,
            enabled: self.enabled,
            source: self.project_source@,
            project_id: self.project_id@,
            files: self.files@.map_values(|f: ModFile| f@),
            dependencies: strs(self.dependencies@),
            dependents: strs(self.dependents@),
        }
    }
}

pub open spec fn entry_view(e: (String, ModConfig)) -> Entry {
    (e.0@, e.1@)
}

impl View for ModIndex {
    type V = Seq<Entry>;

    open spec fn view(&self) -> Seq<Entry> {
        self.mods@.map_values(|e: (String, ModConfig)| entry_view(e))
    }
}

pub open spec fn keys(s: Seq<Entry>) -> Seq<Seq<char>> {
    s.map_values(|e: Entry| e.0)
}

/// The dependents in `ds` that are still ids in `ks`, in order.
pub open spec fn live(ds: Seq<Seq<char>>, ks: Seq<Seq<char>>) -> Seq<Seq<char>>
    decreases ds.len(),
{
    if ds.len() == 0 {
        ds
    } else {
        live(ds.drop_last(), ks) + (if ks.contains(ds.last()) { seq![ds.last()] } else { seq![] })
    }
}

/// A mod installed only as a dependency drops the dependents missing from `ks`.
pub open spec fn prune_entry(e: Entry, ks: Seq<Seq<char>>) -> Entry {
    if e.1.manual {
        e
    } else {
        (e.0, ModView { dependents: live(e.1.dependents, ks), ..e.1 })
    }
}

pub open spec fn prune_all(s: Seq<Entry>, ks: Seq<Seq<char>>) -> Seq<Entry> {
    s.map_values(|e: Entry| prune_entry(e, ks))
}

/// Installed only as a dependency, and needed by nothing.
pub open spec fn is_orphan(e: Entry) -> bool {
    !e.1.manual && e.1.dependents.len() == 0
}

pub open spec fn drop_orphans(s: Seq<Entry>) -> Seq<Entry>
    decreases s.len(),
{
    if s.len() == 0 {
        s
    } else {
        drop_orphans(s.drop_last()) + (if is_orphan(s.last()) { seq![] } else { seq![s.last()] })
    }
}

/// Some mod installed as a dependency names a dependent that is gone.
pub open spec fn has_dangling(s: Seq<Entry>) -> bool {
    exists|i: int, j: int|
        0 <= i < s.len() && !s[i].1.manual && 0 <= j < s[i].1.dependents.len()
            && !keys(s).contains(#[trigger] s[i].1.dependents[j])
}

pub open spec fn has_orphan(s: Seq<Entry>) -> bool {
    exists|i: int| 0 <= i < s.len() && is_orphan(#[trigger] s[i])
}

/// One round of the clean-up: prune dangling dependents, then remove orphans.
pub open spec fn step(s: Seq<Entry>) -> Seq<Entry> {
    drop_orphans(prune_all(s, keys(s)))
}

/// Whether a round removes anything.
pub open spec fn changes(s: Seq<Entry>) -> bool {
    has_dangling(s) || has_orphan(prune_all(s, keys(s)))
}

pub open spec fn sum_deps(s: Seq<Entry>) -> nat
    decreases s.len(),
{
    if s.len() == 0 {
        0
    } else {
        sum_deps(s.drop_last()) + s.last().1.dependents.len()
    }
}

pub open spec fn measure(s: Seq<Entry>) -> nat {
    s.len() + sum_deps(s)
}

/// Rounds of clean-up until one removes nothing.
pub open spec fn cascade(s: Seq<Entry>) -> Seq<Entry>
    decreases measure(s),
{
    if changes(s) {
        proof {
            lemma_step_decreases(s);
        }
        cascade(step(s))
    } else {
        s
    }
}

/// The names of the files that belong to a mod, as they lie on disk
/// (a disabled mod's files carry a `.disabled` suffix).
pub open spec fn file_names(e: Entry) -> Seq<Seq<char>> {
    e.1.files.map_values(
        |f: ModFileView| if e.1.enabled { f.filename } else { f.filename + ".disabled"@ },
    )
}

/// The files of the orphans of `s`, in index order.
pub open spec fn orphan_files(s: Seq<Entry>) -> Seq<Seq<char>>
    decreases s.len(),
{
    if s.len() == 0 {
        seq![]
    } else {
        orphan_files(s.drop_last()) + (if is_orphan(s.last()) { file_names(s.last()) } else { seq![] })
    }
}

/// The files that the clean-up rounds remove, round by round.
pub open spec fn cascade_files(s: Seq<Entry>) -> Seq<Seq<char>>
    decreases measure(s),
{
    if changes(s) {
        proof {
            lemma_step_decreases(s);
        }
        orphan_files(prune_all(s, keys(s))) + cascade_files(step(s))
    } else {
        seq![]
    }
}

/// `s` without the entries whose id is `k`.
pub open spec fn without(s: Seq<Entry>, k: Seq<char>) -> Seq<Entry>
    decreases s.len(),
{
    if s.len() == 0 {
        s
    } else {
        without(s.drop_last(), k) + (if s.last().0 == k { seq![] } else { seq![s.last()] })
    }
}

/// The files of the entries whose id is `k`.
pub open spec fn files_of(s: Seq<Entry>, k: Seq<char>) -> Seq<Seq<char>>
    decreases s.len(),
{
    if s.len() == 0 {
        seq![]
    } else {
        files_of(s.drop_last(), k) + (if s.last().0 == k { file_names(s.last()) } else { seq![] })
    }
}

/// The index after deleting the ids in order.
pub open spec fn without_all(s: Seq<Entry>, ids: Seq<Seq<char>>) -> Seq<Entry>
    decreases ids.len(),
{
    if ids.len() == 0 {
        s
    } else {
        without(without_all(s, ids.drop_last()), ids.last())
    }
}

/// The files removed by deleting the ids in order.
pub open spec fn files_of_all(s: Seq<Entry>, ids: Seq<Seq<char>>) -> Seq<Seq<char>>
    decreases ids.len(),
{
    if ids.len() == 0 {
        seq![]
    } else {
        files_of_all(s, ids.drop_last()) + files_of(without_all(s, ids.drop_last()), ids.last())
    }
}

/// No id occurs twice in an index (what a map by id guarantees).
pub open spec fn unique_keys(s: Seq<Entry>) -> bool {
    forall|i: int, j: int| 0 <= i < j < s.len() ==> #[trigger] s[i].0 != #[trigger] s[j].0
}

// ---------------------------------------------------------------- lemmas

proof fn lemma_live_len(ds: Seq<Seq<char>>, ks: Seq<Seq<char>>)
    ensures
        live(ds, ks).len() <= ds.len(),
        (exists|j: int| 0 <= j < ds.len() && !ks.contains(#[trigger] ds[j])) ==> live(ds, ks).len()
            < ds.len(),
    decreases ds.len(),
{
    if ds.len() > 0 {
        lemma_live_len(ds.drop_last(), ks);
        if exists|j: int| 0 <= j < ds.len() && !ks.contains(#[trigger] ds[j]) {
            let j = choose|j: int| 0 <= j < ds.len() && !ks.contains(#[trigger] ds[j]);
            if j < ds.len() - 1 {
                assert(ds.drop_last()[j] == ds[j]);
            }
        }
    }
}

proof fn lemma_sum_deps_pointwise(s: Seq<Entry>, t: Seq<Entry>)
    requires
        s.len() == t.len(),
        forall|i: int| 0 <= i < s.len() ==> t[i].1.dependents.len() <= s[i].1.dependents.len(),
    ensures
        sum_deps(t) <= sum_deps(s),
        (exists|i: int| 0 <= i < s.len() && t[i].1.dependents.len() < s[i].1.dependents.len())
            ==> sum_deps(t) < sum_deps(s),
    decreases s.len(),
{
    if s.len() > 0 {
        lemma_sum_deps_pointwise(s.drop_last(), t.drop_last());
        if exists|i: int| 0 <= i < s.len() && t[i].1.dependents.len() < s[i].1.dependents.len() {
            let i = choose|i: int|
                0 <= i < s.len() && t[i].1.dependents.len() < s[i].1.dependents.len();
            if i < s.len() - 1 {
                assert(t.drop_last()[i] == t[i] && s.drop_last()[i] == s[i]);
            }
        }
    }
}

proof fn lemma_drop_orphans(s: Seq<Entry>)
    ensures
        drop_orphans(s).len() <= s.len(),
        sum_deps(drop_orphans(s)) <= sum_deps(s),
        has_orphan(s) ==> drop_orphans(s).len() < s.len(),
    decreases s.len(),
{
    if s.len() > 0 {
        lemma_drop_orphans(s.drop_last());
        let d = drop_orphans(s.drop_last());
        if !is_orphan(s.last()) {
            let r = d + seq![s.last()];
            assert(r.drop_last() =~= d);
        }
        if has_orphan(s) {
            let i = choose|i: int| 0 <= i < s.len() && is_orphan(#[trigger] s[i]);
            if i < s.len() - 1 {
                assert(is_orphan(s.drop_last()[i]));
            }
        }
    }
}

pub proof fn lemma_step_decreases(s: Seq<Entry>)
    requires
        changes(s),
    ensures
        measure(step(s)) < measure(s),
{
    let ks = keys(s);
    let p = prune_all(s, ks);
    assert forall|i: int| 0 <= i < s.len() implies p[i].1.dependents.len()
        <= s[i].1.dependents.len() by {
        lemma_live_len(s[i].1.dependents, ks);
    }
    if has_dangling(s) {
        let (i, j) = choose|i: int, j: int|
            0 <= i < s.len() && !s[i].1.manual && 0 <= j < s[i].1.dependents.len()
                && !keys(s).contains(#[trigger] s[i].1.dependents[j]);
        lemma_live_len(s[i].1.dependents, ks);
        assert(p[i].1.dependents.len() < s[i].1.dependents.len());
    }
    lemma_sum_deps_pointwise(s, p);
    lemma_drop_orphans(p);
}

/// Mapping distributes over appending one element.
pub proof fn lemma_map_push<A, B>(s: Seq<A>, x: A, f: spec_fn(A) -> B)
    ensures
        s.push(x).map_values(f) == s.map_values(f).push(f(x)),
{
    assert(s.push(x).map_values(f) =~= s.map_values(f).push(f(x)));
}

/// A prefix one longer is the shorter prefix and the next element.
pub proof fn lemma_take_succ<A>(s: Seq<A>, i: int)
    requires
        0 <= i < s.len(),
    ensures
        s.take(i + 1) == s.take(i).push(s[i]),
{
    assert(s.take(i + 1) =~= s.take(i).push(s[i]));
}

// ------------------------------------------------------------ executable

/// A copy of a list of strings.
pub fn clone_strings(v: &Vec<String>) -> (res: Vec<String>)
    ensures
        strs(res@) == strs(v@),
{
    let mut out: Vec<String> = Vec::new();
    let mut i: usize = 0;
    while i < v.len()
        invariant
            i <= v@.len(),
            strs(out@) == strs(v@.take(i as int)),
        decreases v@.len() - i,
    {
        let ghost prev = out@;
        out.push(v[i].clone());
        proof {
            lemma_map_push(prev, v@[i as int], |s: String| s@);
            lemma_take_succ(v@, i as int);
            lemma_map_push(v@.take(i as int), v@[i as int], |s: String| s@);
        }
        i = i + 1;
    }
    assert(v@.take(v@.len() as int) =~= v@);
    out
}

impl ModFile {
    pub fn copy(&self) -> (res: ModFile)
        ensures
            res@ == self@,
    {
        ModFile { url: self.url.clone(), filename: self.filename.clone(), primary: self.primary }
    }
}

pub fn clone_files(v: &Vec<ModFile>) -> (res: Vec<ModFile>)
    ensures
        res@.map_values(|f: ModFile| f@) == v@.map_values(|f: ModFile| f@),
{
    let mut out: Vec<ModFile> = Vec::new();
    let mut i: usize = 0;
    while i < v.len()
        invariant
            i <= v@.len(),
            out@.map_values(|f: ModFile| f@) == v@.take(i as int).map_values(|f: ModFile| f@),
        decreases v@.len() - i,
    {
        let ghost prev = out@;
        let c = v[i].copy();
        out.push(c);
        proof {
            lemma_map_push(prev, c, |f: ModFile| f@);
            lemma_take_succ(v@, i as int);
            lemma_map_push(v@.take(i as int), v@[i as int], |f: ModFile| f@);
        }
        i = i + 1;
    }
    assert(v@.take(v@.len() as int) =~= v@);
    out
}

impl ModConfig {
    /// A copy of this record with another list of dependents.
    pub fn with_dependents(&self, dependents: Vec<String>) -> (res: ModConfig)
        ensures
            res@ == (ModView { dependents: strs(dependents@), ..self@ }),
    {
        ModConfig {
            name: self.name.clone(),
            manually_installed: self.manually_installed,
            installed_version: self.installed_version.clone(),
            enabled: self.enabled,
            project_source: self.project_source.clone(),
            project_id: self.project_id.clone(),
            files: clone_files(&self.files),
            dependencies: clone_strings(&self.dependencies),
            dependents,
        }
    }

    pub fn copy(&self) -> (res: ModConfig)
        ensures
            res@ == self@,
    {
        self.with_dependents(clone_strings(&self.dependents))
    }
}

/// Whether `k` is an id of the index.
pub fn has_key(mods: &Vec<(String, ModConfig)>, k: &String) -> (b: bool)
    ensures
        b == keys(mods@.map_values(|e: (String, ModConfig)| entry_view(e))).contains(k@),
{
    let ghost s = mods@.map_values(|e: (String, ModConfig)| entry_view(e));
    let mut i: usize = 0;
    while i < mods.len()
        invariant
            i <= mods@.len(),
            s == mods@.map_values(|e: (String, ModConfig)| entry_view(e)),
            forall|j: int| 0 <= j < i ==> keys(s)[j] != k@,
        decreases mods@.len() - i,
    {
        if mods[i].0 == *k {
            assert(keys(s)[i as int] == k@);
            return true;
        }
        i = i + 1;
    }
    false
}

/// The dependents that are still ids of the index, and whether any was dropped.
fn live_exec(ds: &Vec<String>, mods: &Vec<(String, ModConfig)>) -> (r: (Vec<String>, bool))
    ensures
        strs(r.0@) == live(strs(ds@), keys(mods@.map_values(|e: (String, ModConfig)| entry_view(e)))),
        r.1 == exists|j: int|
            0 <= j < ds@.len() && !keys(mods@.map_values(|e: (String, ModConfig)| entry_view(e))).contains(
                #[trigger] strs(ds@)[j],
            ),
{
    let ghost ks = keys(mods@.map_values(|e: (String, ModConfig)| entry_view(e)));
    let mut out: Vec<String> = Vec::new();
    let mut dropped = false;
    let mut i: usize = 0;
    while i < ds.len()
        invariant
            i <= ds@.len(),
            ks == keys(mods@.map_values(|e: (String, ModConfig)| entry_view(e))),
            strs(out@) == live(strs(ds@).take(i as int), ks),
            dropped == exists|j: int| 0 <= j < i && !ks.contains(#[trigger] strs(ds@)[j]),
        decreases ds@.len() - i,
    {
        let ghost t = strs(ds@).take(i as int + 1);
        assert(t.drop_last() =~= strs(ds@).take(i as int));
        if has_key(mods, &ds[i]) {
            out.push(ds[i].clone());
            assert(strs(out@) =~= live(t, ks));
        } else {
            dropped = true;
            assert(strs(out@) =~= live(t, ks));
        }
        i = i + 1;
    }
    assert(strs(ds@).take(ds@.len() as int) =~= strs(ds@));
    (out, dropped)
}

/// One pruning pass: every mod installed as a dependency keeps only the
/// dependents that are still ids; also tells whether anything was dropped.
fn prune_pass(mods: &Vec<(String, ModConfig)>) -> (r: (Vec<(String, ModConfig)>, bool))
    ensures
        r.0@.map_values(|e: (String, ModConfig)| entry_view(e)) == prune_all(
            mods@.map_values(|e: (String, ModConfig)| entry_view(e)),
            keys(mods@.map_values(|e: (String, ModConfig)| entry_view(e))),
        ),
        r.1 == has_dangling(mods@.map_values(|e: (String, ModConfig)| entry_view(e))),
{
    let ghost s = mods@.map_values(|e: (String, ModConfig)| entry_view(e));
    let ghost ks = keys(s);
    let mut out: Vec<(String, ModConfig)> = Vec::new();
    let mut dangling = false;
    let mut i: usize = 0;
    while i < mods.len()
        invariant
            i <= mods@.len(),
            s == mods@.map_values(|e: (String, ModConfig)| entry_view(e)),
            ks == keys(s),
            out@.map_values(|e: (String, ModConfig)| entry_view(e)) == prune_all(s.take(i as int), ks),
            dangling == exists|a: int, j: int|
                0 <= a < i && !s[a].1.manual && 0 <= j < s[a].1.dependents.len()
                    && !ks.contains(#[trigger] s[a].1.dependents[j]),
        decreases mods@.len() - i,
    {
        let cfg = &mods[i].1;
        let ghost before = out@;
        assert(s[i as int] == entry_view(mods@[i as int]));
        let key = mods[i].0.clone();
        let ghost dangling_before = dangling;
        let newcfg = if cfg.manually_installed {
            cfg.copy()
        } else {
            let (deps, dropped) = live_exec(&cfg.dependents, mods);
            if dropped {
                dangling = true;
            }
            cfg.with_dependents(deps)
        };
        let ghost item = (key, newcfg);
        assert(entry_view(item) == prune_entry(s[i as int], ks));
        out.push((key, newcfg));
        proof {
            lemma_map_push(before, item, |e: (String, ModConfig)| entry_view(e));
            lemma_take_succ(s, i as int);
            lemma_map_push(s.take(i as int), s[i as int], |e: Entry| prune_entry(e, ks));
            if dangling {
                if !dangling_before {
                    let j = choose|j: int|
                        0 <= j < cfg.dependents@.len() && !ks.contains(
                            #[trigger] strs(cfg.dependents@)[j],
                        );
                    assert(!ks.contains(s[i as int].1.dependents[j]));
                }
            } else {
                assert forall|a: int, j: int|
                    0 <= a < i + 1 && !s[a].1.manual && 0 <= j < s[a].1.dependents.len() implies ks.contains(
                    #[trigger] s[a].1.dependents[j]) by {
                    if a == i as int {
                        assert(strs(cfg.dependents@)[j] == s[a].1.dependents[j]);
                    }
                }
            }
        }
        i = i + 1;
    }
    assert(s.take(mods@.len() as int) =~= s);
    (out, dangling)
}

/// The names of a mod's files as they lie on disk.
pub fn mod_file_names(cfg: &ModConfig, out: &mut Vec<String>)
    ensures
        strs(final(out)@) == strs(old(out)@) + file_names((arbitrary(), cfg@)),
{
    let ghost e: Entry = (arbitrary(), cfg@);
    let mut i: usize = 0;
    while i < cfg.files.len()
        invariant
            i <= cfg.files@.len(),
            e == (arbitrary::<Seq<char>>(), cfg@),
            strs(out@) == strs(old(out)@) + file_names(e).take(i as int),
        decreases cfg.files@.len() - i,
    {
        let name = if cfg.enabled {
            cfg.files[i].filename.clone()
        } else {
            let mut v = chars_of(cfg.files[i].filename.as_str());
            push_str_chars(&mut v, ".disabled");
            string_of(v.as_slice())
        };
        let ghost prev = out@;
        out.push(name);
        proof {
            lemma_map_push(prev, name, |s: String| s@);
            lemma_take_succ(file_names(e), i as int);
            assert(strs(out@) =~= strs(old(out)@) + file_names(e).take(i as int + 1));
        }
        i = i + 1;
    }
    assert(file_names(e).take(cfg.files@.len() as int) =~= file_names(e));
}

/// One orphan-removal pass: the entries that stay, the files of the
/// entries that go (appended to `files`), and whether any went.
fn drop_orphans_pass(mods: &Vec<(String, ModConfig)>, files: &mut Vec<String>) -> (r: (
    Vec<(String, ModConfig)>,
    bool,
))
    ensures
        r.0@.map_values(|e: (String, ModConfig)| entry_view(e)) == drop_orphans(
            mods@.map_values(|e: (String, ModConfig)| entry_view(e)),
        ),
        strs(final(files)@) == strs(old(files)@) + orphan_files(
            mods@.map_values(|e: (String, ModConfig)| entry_view(e)),
        ),
        r.1 == has_orphan(mods@.map_values(|e: (String, ModConfig)| entry_view(e))),
{
    let ghost s = mods@.map_values(|e: (String, ModConfig)| entry_view(e));
    let mut out: Vec<(String, ModConfig)> = Vec::new();
    let mut found = false;
    let mut i: usize = 0;
    while i < mods.len()
        invariant
            i <= mods@.len(),
            s == mods@.map_values(|e: (String, ModConfig)| entry_view(e)),
            out@.map_values(|e: (String, ModConfig)| entry_view(e)) == drop_orphans(s.take(i as int)),
            strs(files@) == strs(old(files)@) + orphan_files(s.take(i as int)),
            found == exists|a: int| 0 <= a < i && is_orphan(#[trigger] s[a]),
        decreases mods@.len() - i,
    {
        let cfg = &mods[i].1;
        assert(s[i as int] == entry_view(mods@[i as int]));
        let ghost before = out@;
        let ghost fbefore = files@;
        proof {
            lemma_take_succ(s, i as int);
            assert(s.take(i as int + 1).drop_last() =~= s.take(i as int));
        }
        if !cfg.manually_installed && cfg.dependents.len() == 0 {
            mod_file_names(cfg, files);
            found = true;
            assert(file_names((arbitrary(), cfg@)) == file_names(s[i as int]));
            assert(strs(files@) =~= strs(old(files)@) + orphan_files(s.take(i as int + 1)));
            assert(out@.map_values(|e: (String, ModConfig)| entry_view(e)) =~= drop_orphans(
                s.take(i as int + 1),
            ));
        } else {
            let item = (mods[i].0.clone(), cfg.copy());
            let ghost it = item;
            out.push(item);
            proof {
                lemma_map_push(before, it, |e: (String, ModConfig)| entry_view(e));
                assert(entry_view(it) == s[i as int]);
                assert(out@.map_values(|e: (String, ModConfig)| entry_view(e)) =~= drop_orphans(
                    s.take(i as int + 1),
                ));
                assert(strs(files@) =~= strs(old(files)@) + orphan_files(s.take(i as int + 1)));
            }
        }
        i = i + 1;
    }
    assert(s.take(mods@.len() as int) =~= s);
    (out, found)
}

/// Removes the mod `id` from the index (as `delete_mod` does), appending
/// the names of its files, as they lie on disk, to `files`.
fn delete_mod(index: &mut ModIndex, id: &String, files: &mut Vec<String>)
    ensures
        final(index)@ == without(old(index)@, id@),
        strs(final(files)@) == strs(old(files)@) + files_of(old(index)@, id@),
{
    let ghost s = index@;
    let mut out: Vec<(String, ModConfig)> = Vec::new();
    let mut i: usize = 0;
    while i < index.mods.len()
        invariant
            i <= index.mods@.len(),
            s == index@,
            out@.map_values(|e: (String, ModConfig)| entry_view(e)) == without(s.take(i as int), id@),
            strs(files@) == strs(old(files)@) + files_of(s.take(i as int), id@),
        decreases index.mods@.len() - i,
    {
        assert(s[i as int] == entry_view(index.mods@[i as int]));
        let ghost before = out@;
        proof {
            lemma_take_succ(s, i as int);
            assert(s.take(i as int + 1).drop_last() =~= s.take(i as int));
        }
        if index.mods[i].0 == *id {
            mod_file_names(&index.mods[i].1, files);
            assert(file_names((arbitrary(), index.mods@[i as int].1@)) == file_names(s[i as int]));
            assert(strs(files@) =~= strs(old(files)@) + files_of(s.take(i as int + 1), id@));
            assert(out@.map_values(|e: (String, ModConfig)| entry_view(e)) =~= without(
                s.take(i as int + 1),
                id@,
            ));
        } else {
            let item = (index.mods[i].0.clone(), index.mods[i].1.copy());
            let ghost it = item;
            out.push(item);
            proof {
                lemma_map_push(before, it, |e: (String, ModConfig)| entry_view(e));
                assert(out@.map_values(|e: (String, ModConfig)| entry_view(e)) =~= without(
                    s.take(i as int + 1),
                    id@,
                ));
                assert(strs(files@) =~= strs(old(files)@) + files_of(s.take(i as int + 1), id@));
            }
        }
        i = i + 1;
    }
    assert(s.take(s.len() as int) =~= s);
    index.mods = out;
}

/// Deletes the mods `ids` from the index, then runs clean-up rounds until
/// one removes nothing: each round drops, from every mod installed as a
/// dependency, the dependents that no longer exist, then removes every mod
/// installed as a dependency that no mod needs any more.
///
/// Gives back the names of the files to delete from the mods folder, as
/// they lie on disk (`.disabled` appended for disabled mods): first those of
/// the requested mods, in the order of `ids`, then those of each round.
pub fn delete_mods(index: &mut ModIndex, ids: &[String]) -> (files: Vec<String>)
    ensures
        final(index)@ == cascade(without_all(old(index)@, strs(ids@))),
        strs(files@) == files_of_all(old(index)@, strs(ids@)) + cascade_files(
            without_all(old(index)@, strs(ids@)),
        ),
        unique_keys(old(index)@) ==> unique_keys(final(index)@),
{
    let ghost s0 = index@;
    let mut files: Vec<String> = Vec::new();
    let mut i: usize = 0;
    while i < ids.len()
        invariant
            i <= ids@.len(),
            index@ == without_all(s0, strs(ids@).take(i as int)),
            strs(files@) == files_of_all(s0, strs(ids@).take(i as int)),
        decreases ids@.len() - i,
    {
        proof {
            lemma_take_succ(strs(ids@), i as int);
            assert(strs(ids@).take(i as int + 1).drop_last() =~= strs(ids@).take(i as int));
        }
        delete_mod(index, &ids[i], &mut files);
        i = i + 1;
    }
    assert(strs(ids@).take(ids@.len() as int) =~= strs(ids@));
    let ghost t0 = index@;
    let ghost base = strs(files@);
    assert(base + cascade_files(t0) =~= strs(files@) + cascade_files(index@));
    let mut done = false;
    while !done
        invariant
            !done ==> cascade(index@) == cascade(t0) && strs(files@) + cascade_files(index@) == base
                + cascade_files(t0),
            done ==> index@ == cascade(t0) && strs(files@) == base + cascade_files(t0),
        decreases measure(index@) + (if done { 0nat } else { 1nat }),
    {
        let ghost cur = index@;
        let (pruned, dangling) = prune_pass(&index.mods);
        let mut round_files: Vec<String> = Vec::new();
        let (kept, orphaned) = drop_orphans_pass(&pruned, &mut round_files);
        if dangling || orphaned {
            proof {
                lemma_step_decreases(cur);
            }
            let ghost fprev = strs(files@);
            let mut k: usize = 0;
            while k < round_files.len()
                invariant
                    k <= round_files@.len(),
                    strs(files@) == fprev + strs(round_files@).take(k as int),
                decreases round_files@.len() - k,
            {
                let ghost prev = files@;
                files.push(round_files[k].clone());
                proof {
                    lemma_map_push(prev, round_files@[k as int], |s: String| s@);
                    lemma_take_succ(strs(round_files@), k as int);
                    assert(strs(files@) =~= fprev + strs(round_files@).take(k as int + 1));
                }
                k = k + 1;
            }
            assert(strs(round_files@).take(round_files@.len() as int) =~= strs(round_files@));
            index.mods = kept;
            assert(fprev + strs(round_files@) + cascade_files(index@) =~= fprev + cascade_files(cur));
        } else {
            done = true;
            assert(strs(files@) + cascade_files(cur) =~= strs(files@));
        }
    }
    proof {
        if unique_keys(s0) {
            lemma_delete_keeps_ids_unique(s0, strs(ids@));
        }
    }
    files
}


// ---------------------------------------------------------------- laws

proof fn lemma_without_has(s: Seq<Entry>, k: Seq<char>, e: Entry)
    ensures
        without(s, k).contains(e) <==> (s.contains(e) && e.0 != k),
    decreases s.len(),
{
    if s.len() > 0 {
        let p = s.drop_last();
        lemma_without_has(p, k, e);
        let tail: Seq<Entry> = if s.last().0 == k { seq![] } else { seq![s.last()] };
        vstd::seq_lib::lemma_seq_concat_contains_all_elements(without(p, k), tail, e);
        vstd::seq_lib::lemma_seq_concat_contains_all_elements(p, seq![s.last()], e);
        assert(s =~= p + seq![s.last()]);
        assert(seq![s.last()].contains(e) <==> e == s.last()) by {
            if e == s.last() {
                assert(seq![s.last()][0] == e);
            }
        }
    }
}

proof fn lemma_drop_orphans_has(s: Seq<Entry>, e: Entry)
    ensures
        drop_orphans(s).contains(e) <==> (s.contains(e) && !is_orphan(e)),
    decreases s.len(),
{
    if s.len() > 0 {
        let p = s.drop_last();
        lemma_drop_orphans_has(p, e);
        let tail: Seq<Entry> = if is_orphan(s.last()) { seq![] } else { seq![s.last()] };
        vstd::seq_lib::lemma_seq_concat_contains_all_elements(drop_orphans(p), tail, e);
        vstd::seq_lib::lemma_seq_concat_contains_all_elements(p, seq![s.last()], e);
        assert(s =~= p + seq![s.last()]);
        assert(seq![s.last()].contains(e) <==> e == s.last()) by {
            if e == s.last() {
                assert(seq![s.last()][0] == e);
            }
        }
    }
}

/// The keys of a sequence of entries are the first components of its members.
proof fn lemma_keys_has(s: Seq<Entry>, k: Seq<char>)
    ensures
        keys(s).contains(k) <==> exists|e: Entry| s.contains(e) && e.0 == k,
{
    if keys(s).contains(k) {
        let i = choose|i: int| 0 <= i < keys(s).len() && keys(s)[i] == k;
        assert(s.contains(s[i]));
    }
    if exists|e: Entry| s.contains(e) && e.0 == k {
        let e = choose|e: Entry| s.contains(e) && e.0 == k;
        let i = choose|i: int| 0 <= i < s.len() && s[i] == e;
        assert(keys(s)[i] == k);
    }
}

/// A round of clean-up keeps every entry that is not an orphan after pruning,
/// and brings in no new id.
proof fn lemma_step_has(s: Seq<Entry>, e: Entry)
    ensures
        s.contains(e) && e.1.manual ==> step(s).contains(e),
        step(s).contains(e) ==> exists|f: Entry| s.contains(f) && f.0 == e.0,
{
    let q = prune_all(s, keys(s));
    lemma_drop_orphans_has(q, e);
    if s.contains(e) && e.1.manual {
        let i = choose|i: int| 0 <= i < s.len() && s[i] == e;
        assert(q[i] == e);
    }
    if step(s).contains(e) {
        let i = choose|i: int| 0 <= i < q.len() && q[i] == e;
        assert(s.contains(s[i]));
    }
}

proof fn lemma_cascade_has(s: Seq<Entry>, e: Entry)
    ensures
        s.contains(e) && e.1.manual ==> cascade(s).contains(e),
        cascade(s).contains(e) ==> exists|f: Entry| s.contains(f) && f.0 == e.0,
    decreases measure(s),
{
    if changes(s) {
        lemma_step_decreases(s);
        lemma_cascade_has(step(s), e);
        lemma_step_has(s, e);
        if cascade(s).contains(e) {
            let f = choose|f: Entry| step(s).contains(f) && f.0 == e.0;
            lemma_step_has(s, f);
        }
    }
}

proof fn lemma_without_all_has(s: Seq<Entry>, ids: Seq<Seq<char>>, e: Entry)
    ensures
        without_all(s, ids).contains(e) <==> (s.contains(e) && !ids.contains(e.0)),
    decreases ids.len(),
{
    if ids.len() > 0 {
        let p = ids.drop_last();
        lemma_without_all_has(s, p, e);
        lemma_without_has(without_all(s, p), ids.last(), e);
        vstd::seq_lib::lemma_seq_concat_contains_all_elements(p, seq![ids.last()], e.0);
        assert(ids =~= p + seq![ids.last()]);
        assert(seq![ids.last()].contains(e.0) <==> e.0 == ids.last()) by {
            if e.0 == ids.last() {
                assert(seq![ids.last()][0] == e.0);
            }
        }
    }
}

/// Every id of `a` is an id of `b`.
spec fn keys_from(a: Seq<Entry>, b: Seq<Entry>) -> bool {
    forall|i: int| #![trigger a[i]] 0 <= i < a.len() ==> exists|j: int| #![trigger b[j]] 0 <= j < b.len() && b[j].0 == a[i].0
}

proof fn lemma_without_unique(s: Seq<Entry>, k: Seq<char>)
    ensures
        keys_from(without(s, k), s),
        unique_keys(s) ==> unique_keys(without(s, k)),
    decreases s.len(),
{
    if s.len() > 0 {
        let d = s.drop_last();
        lemma_without_unique(d, k);
        let w = without(d, k);
        let r = without(s, k);
        assert forall|i: int| #![trigger r[i]] 0 <= i < r.len() implies exists|j: int| #![trigger s[j]] 0 <= j < s.len() && s[j].0 == r[i].0 by {
            if i < w.len() {
                assert(r[i] == w[i]);
                let j = choose|j: int| #![trigger d[j]] 0 <= j < d.len() && d[j].0 == w[i].0;
                assert(s[j] == d[j]);
            } else {
                assert(r[i] == s[s.len() - 1]);
            }
        }
        if unique_keys(s) {
            assert forall|i: int, j: int| 0 <= i < j < r.len() implies #[trigger] r[i].0 != #[trigger] r[j].0 by {
                if j < w.len() {
                    assert(r[i] == w[i] && r[j] == w[j]);
                } else {
                    assert(r[i] == w[i]);
                    assert(r[j] == s[s.len() - 1]);
                    let m = choose|m: int| #![trigger d[m]] 0 <= m < d.len() && d[m].0 == w[i].0;
                    assert(s[m] == d[m]);
                }
            }
        }
    }
}

proof fn lemma_drop_orphans_unique(s: Seq<Entry>)
    ensures
        unique_keys(s) ==> unique_keys(drop_orphans(s)),
    decreases s.len(),
{
    if s.len() > 0 {
        let d = s.drop_last();
        lemma_drop_orphans_unique(d);
        lemma_drop_orphans_from(d);
        let w = drop_orphans(d);
        let r = drop_orphans(s);
        if unique_keys(s) {
            assert forall|i: int, j: int| 0 <= i < j < r.len() implies #[trigger] r[i].0 != #[trigger] r[j].0 by {
                if j < w.len() {
                    assert(r[i] == w[i] && r[j] == w[j]);
                } else {
                    assert(r[i] == w[i]);
                    assert(r[j] == s[s.len() - 1]);
                    let m = choose|m: int| #![trigger d[m]] 0 <= m < d.len() && d[m].0 == w[i].0;
                    assert(s[m] == d[m]);
                }
            }
        }
    }
}

proof fn lemma_drop_orphans_from(s: Seq<Entry>)
    ensures
        keys_from(drop_orphans(s), s),
    decreases s.len(),
{
    if s.len() > 0 {
        let d = s.drop_last();
        lemma_drop_orphans_from(d);
        let w = drop_orphans(d);
        let r = drop_orphans(s);
        assert forall|i: int| #![trigger r[i]] 0 <= i < r.len() implies exists|j: int| #![trigger s[j]] 0 <= j < s.len() && s[j].0 == r[i].0 by {
            if i < w.len() {
                assert(r[i] == w[i]);
                let j = choose|j: int| #![trigger d[j]] 0 <= j < d.len() && d[j].0 == w[i].0;
                assert(s[j] == d[j]);
            } else {
                assert(r[i] == s[s.len() - 1]);
            }
        }
    }
}

proof fn lemma_step_unique(s: Seq<Entry>)
    requires
        unique_keys(s),
    ensures
        unique_keys(step(s)),
{
    let p = prune_all(s, keys(s));
    assert forall|i: int, j: int| 0 <= i < j < p.len() implies #[trigger] p[i].0 != #[trigger] p[j].0 by {
        assert(p[i].0 == s[i].0 && p[j].0 == s[j].0);
    }
    lemma_drop_orphans_unique(p);
}

proof fn lemma_cascade_unique(s: Seq<Entry>)
    requires
        unique_keys(s),
    ensures
        unique_keys(cascade(s)),
    decreases measure(s),
{
    if changes(s) {
        lemma_step_decreases(s);
        lemma_step_unique(s);
        lemma_cascade_unique(step(s));
    }
}

proof fn lemma_without_all_unique(s: Seq<Entry>, ids: Seq<Seq<char>>)
    requires
        unique_keys(s),
    ensures
        unique_keys(without_all(s, ids)),
    decreases ids.len(),
{
    if ids.len() > 0 {
        lemma_without_all_unique(s, ids.drop_last());
        lemma_without_unique(without_all(s, ids.drop_last()), ids.last());
    }
}

/// Deleting mods keeps an index a map by id: when no id occurred twice
/// before, none does after the deletions and the clean-up rounds.
pub proof fn lemma_delete_keeps_ids_unique(s: Seq<Entry>, ids: Seq<Seq<char>>)
    requires
        unique_keys(s),
    ensures
        unique_keys(cascade(without_all(s, ids))),
{
    lemma_without_all_unique(s, ids);
    lemma_cascade_unique(without_all(s, ids));
}

proof fn lemma_live_has(ds: Seq<Seq<char>>, ks: Seq<Seq<char>>, x: Seq<char>)
    ensures
        live(ds, ks).contains(x) <==> (ds.contains(x) && ks.contains(x)),
    decreases ds.len(),
{
    if ds.len() > 0 {
        let p = ds.drop_last();
        lemma_live_has(p, ks, x);
        let tail: Seq<Seq<char>> = if ks.contains(ds.last()) { seq![ds.last()] } else { seq![] };
        vstd::seq_lib::lemma_seq_concat_contains_all_elements(live(p, ks), tail, x);
        vstd::seq_lib::lemma_seq_concat_contains_all_elements(p, seq![ds.last()], x);
        assert(ds =~= p + seq![ds.last()]);
        assert(seq![ds.last()].contains(x) <==> x == ds.last()) by {
            if x == ds.last() {
                assert(seq![ds.last()][0] == x);
            }
        }
    }
}

/// The ids left after the clean-up rounds were there before them.
proof fn lemma_cascade_keys(s: Seq<Entry>, k: Seq<char>)
    ensures
        keys(cascade(s)).contains(k) ==> keys(s).contains(k),
{
    lemma_keys_has(cascade(s), k);
    lemma_keys_has(s, k);
    if keys(cascade(s)).contains(k) {
        let e = choose|e: Entry| cascade(s).contains(e) && e.0 == k;
        lemma_cascade_has(s, e);
    }
}

/// A mod that names a dependent still present at the end survives the
/// clean-up rounds, still naming it.
proof fn lemma_cascade_keeps_needed(s: Seq<Entry>, f: Entry, d: Seq<char>)
    requires
        s.contains(f),
        f.1.dependents.contains(d),
        keys(cascade(s)).contains(d),
    ensures
        exists|g: Entry| cascade(s).contains(g) && g.0 == f.0 && g.1.dependents.contains(d),
    decreases measure(s),
{
    if !changes(s) {
        assert(cascade(s).contains(f) && f.0 == f.0 && f.1.dependents.contains(d));
    } else {
        lemma_step_decreases(s);
        let ks = keys(s);
        let q = prune_all(s, ks);
        let t = step(s);
        lemma_cascade_keys(t, d);
        lemma_keys_has(t, d);
        let h = choose|h: Entry| t.contains(h) && h.0 == d;
        lemma_step_has(s, h);
        let h0 = choose|h0: Entry| s.contains(h0) && h0.0 == h.0;
        lemma_keys_has(s, d);
        assert(ks.contains(d));
        let i = choose|i: int| 0 <= i < s.len() && s[i] == f;
        let f2 = prune_entry(f, ks);
        assert(q[i] == f2);
        lemma_live_has(f.1.dependents, ks, d);
        assert(f2.1.dependents.contains(d));
        assert(f2.1.dependents.len() > 0);
        lemma_drop_orphans_has(q, f2);
        assert(t.contains(f2));
        lemma_cascade_keeps_needed(t, f2, d);
    }
}

/// What the clean-up rounds keep of a mod installed as a dependency names
/// only dependents that the mod named before.
proof fn lemma_cascade_deps_from(s: Seq<Entry>, g: Entry)
    requires
        cascade(s).contains(g),
    ensures
        exists|f: Entry| s.contains(f) && f.0 == g.0 && f.1.manual == g.1.manual
            && forall|x: Seq<char>| g.1.dependents.contains(x) ==> f.1.dependents.contains(x),
    decreases measure(s),
{
    if !changes(s) {
        assert(s.contains(g) && g.0 == g.0);
    } else {
        lemma_step_decreases(s);
        let ks = keys(s);
        let q = prune_all(s, ks);
        let t = step(s);
        lemma_cascade_deps_from(t, g);
        let f1 = choose|f1: Entry| t.contains(f1) && f1.0 == g.0 && f1.1.manual == g.1.manual
            && forall|x: Seq<char>| g.1.dependents.contains(x) ==> f1.1.dependents.contains(x);
        lemma_drop_orphans_has(q, f1);
        let i = choose|i: int| 0 <= i < q.len() && q[i] == f1;
        let f0 = s[i];
        assert(f1 == prune_entry(f0, ks));
        assert forall|x: Seq<char>| g.1.dependents.contains(x) implies f0.1.dependents.contains(x) by {
            if !f0.1.manual {
                lemma_live_has(f0.1.dependents, ks, x);
            }
        }
        assert(s.contains(f0));
    }
}

/// Deleting mods never removes a mod that a remaining mod still needs:
/// when a mod that was not asked for names a dependent that is still in
/// the index afterwards, the mod is still there and still names it (its
/// files stay). Only dependents that are gone are taken from a mod.
pub proof fn lemma_delete_keeps_needed(s: Seq<Entry>, ids: Seq<Seq<char>>, f: Entry, d: Seq<char>)
    requires
        s.contains(f),
        !ids.contains(f.0),
        f.1.dependents.contains(d),
        keys(cascade(without_all(s, ids))).contains(d),
    ensures
        exists|g: Entry| cascade(without_all(s, ids)).contains(g) && g.0 == f.0 && g.1.dependents.contains(d),
{
    lemma_without_all_has(s, ids, f);
    lemma_cascade_keeps_needed(without_all(s, ids), f, d);
}

/// After deleting mods, a mod installed as a dependency names only
/// dependents that are still in the index, each of which it named before.
pub proof fn lemma_delete_prunes_gone(s: Seq<Entry>, ids: Seq<Seq<char>>, g: Entry)
    requires
        cascade(without_all(s, ids)).contains(g),
        !g.1.manual,
    ensures
        forall|j: int| 0 <= j < g.1.dependents.len()
            ==> keys(cascade(without_all(s, ids))).contains(#[trigger] g.1.dependents[j]),
        exists|f: Entry| s.contains(f) && f.0 == g.0
            && forall|x: Seq<char>| g.1.dependents.contains(x) ==> f.1.dependents.contains(x),
{
    let w = without_all(s, ids);
    let c = cascade(w);
    lemma_cascade_settled(w);
    let i = choose|i: int| 0 <= i < c.len() && c[i] == g;
    assert forall|j: int| 0 <= j < g.1.dependents.len() implies keys(c).contains(#[trigger] g.1.dependents[j]) by {
        if !keys(c).contains(g.1.dependents[j]) {
            assert(has_dangling(c));
        }
    }
    lemma_cascade_deps_from(w, g);
    let f = choose|f: Entry| w.contains(f) && f.0 == g.0 && f.1.manual == g.1.manual
        && forall|x: Seq<char>| g.1.dependents.contains(x) ==> f.1.dependents.contains(x);
    lemma_without_all_has(s, ids, f);
}

/// After the clean-up rounds there is nothing left to clean up: no mod
/// installed as a dependency names a dependent that is gone, and none is
/// needed by nothing; running the rounds again changes nothing.
pub proof fn lemma_cascade_settled(s: Seq<Entry>)
    ensures
        !changes(cascade(s)),
        cascade(cascade(s)) == cascade(s),
    decreases measure(s),
{
    if changes(s) {
        lemma_step_decreases(s);
        lemma_cascade_settled(step(s));
    }
}

/// Deleting mods leaves none of the requested ids in the index, and brings
/// in no id that was not there before.
pub proof fn lemma_delete_removes_requested(s: Seq<Entry>, ids: Seq<Seq<char>>, k: Seq<char>)
    ensures
        ids.contains(k) ==> !keys(cascade(without_all(s, ids))).contains(k),
        keys(cascade(without_all(s, ids))).contains(k) ==> keys(s).contains(k),
{
    let w = without_all(s, ids);
    let c = cascade(w);
    lemma_keys_has(c, k);
    lemma_keys_has(s, k);
    if keys(c).contains(k) {
        let e = choose|e: Entry| c.contains(e) && e.0 == k;
        lemma_cascade_has(w, e);
        let f = choose|f: Entry| w.contains(f) && f.0 == e.0;
        lemma_without_all_has(s, ids, f);
        assert(s.contains(f) && f.0 == k);
    }
}

/// Deleting mods never removes a mod the user installed by hand unless it
/// was asked for: such an entry stays in the index unchanged.
pub proof fn lemma_delete_keeps_manual(s: Seq<Entry>, ids: Seq<Seq<char>>, e: Entry)
    requires
        s.contains(e),
        e.1.manual,
        !ids.contains(e.0),
    ensures
        cascade(without_all(s, ids)).contains(e),
{
    lemma_without_all_has(s, ids, e);
    lemma_cascade_has(without_all(s, ids), e);
}

} // verus!
