//! What goes into a mod preset: every selected downloaded mod together with
//! everything it depends on (as far as the index knows the dependencies),
//! and the selected local files that no indexed mod already provides.
use vstd::prelude::*;

use crate::mods::{
    entry_view, keys, lemma_map_push, lemma_take_succ, strs, Entry, ModConfig, ModIndex,
};
use crate::text::str_eq;

verus! {

/// A mod picked in the mod list: one from the store (by id) or a file
/// that was put into the mods folder by hand.
pub enum SelectedMod {
    Downloaded { name: String, id: String },
    Local { file_name: String },
}

pub ghost enum SelectedModView {
    Downloaded { name: Seq<char>, id: Seq<char> },
    Local { file_name: Seq<char> },
}

impl View for SelectedMod {
    type V = SelectedModView;

    open spec fn view(&self) -> SelectedModView {
        match self {
            SelectedMod::Downloaded { name, id } => SelectedModView::Downloaded {
                name: name@,
                id: id@,
            },
            SelectedMod::Local { file_name } => SelectedModView::Local { file_name: file_name@ },
        }
    }
}

impl SelectedMod {
    pub fn copy(&self) -> (res: SelectedMod)
        ensures
            res@ == self@,
    {
        match self {
            SelectedMod::Downloaded { name, id } => SelectedMod::Downloaded {
                name: name.clone(),
                id: id.clone(),
            },
            SelectedMod::Local { file_name } => SelectedMod::Local { file_name: file_name.clone() },
        }
    }
}

/// The ids of the downloaded mods among the selection.
pub open spec fn downloaded_ids(sel: Seq<SelectedModView>) -> Set<Seq<char>> {
    Set::new(|k: Seq<char>| exists|i: int| 0 <= i < sel.len() && sel[i] == (SelectedModView::Downloaded { name: sel[i]->Downloaded_name, id: k }))
}

/// Every dependency that the index knows, of every mod in `c`, is in `c`.
pub open spec fn closed(s: Seq<Entry>, c: Set<Seq<char>>) -> bool {
    forall|k: Seq<char>, j: int|
        c.contains(k) && keys(s).contains(k) && 0 <= j < lookup(s, k).1.dependencies.len() && keys(
            s,
        ).contains(#[trigger] lookup(s, k).1.dependencies[j]) ==> c.contains(
            lookup(s, k).1.dependencies[j],
        )
}

/// `r` is the smallest set of ids of the index that holds the roots the
/// index knows and is closed under dependencies.
pub open spec fn is_dependency_closure(s: Seq<Entry>, roots: Set<Seq<char>>, r: Set<Seq<char>>) -> bool {
    &&& forall|k: Seq<char>| r.contains(k) ==> keys(s).contains(k)
    &&& forall|k: Seq<char>| roots.contains(k) && keys(s).contains(k) ==> r.contains(k)
    &&& closed(s, r)
    &&& forall|c: Set<Seq<char>>|
        (closed(s, c) && forall|k: Seq<char>| roots.contains(k) && keys(s).contains(k) ==> c.contains(k))
            ==> r.subset_of(c)
}

/// The first entry of the index with id `k`.
pub open spec fn lookup(s: Seq<Entry>, k: Seq<char>) -> Entry
    decreases s.len(),
{
    if s.len() == 0 {
        arbitrary()
    } else if s[0].0 == k {
        s[0]
    } else {
        lookup(s.drop_first(), k)
    }
}

/// Whether some file of some indexed mod has the name `f`.
pub open spec fn covered(s: Seq<Entry>, f: Seq<char>) -> bool {
    exists|i: int, j: int| 0 <= i < s.len() && 0 <= j < s[i].1.files.len() && #[trigger] s[i].1.files[j].filename == f
}

/// The local files of the selection that no indexed mod provides, in order.
pub open spec fn local_files(s: Seq<Entry>, sel: Seq<SelectedModView>) -> Seq<Seq<char>>
    decreases sel.len(),
{
    if sel.len() == 0 {
        seq![]
    } else {
        local_files(s, sel.drop_last()) + match sel.last() {
            SelectedModView::Local { file_name } => if covered(s, file_name) {
                seq![]
            } else {
                seq![file_name]
            },
            SelectedModView::Downloaded { .. } => seq![],
        }
    }
}

/// Whether some indexed mod already provides the file `mod_name`, so that
/// a preset need not carry it.
pub fn is_already_covered(index: &ModIndex, mod_name: &String) -> (b: bool)
    ensures
        b == covered(index@, mod_name@),
{
    let ghost s = index@;
    let mut i: usize = 0;
    while i < index.mods.len()
        invariant
            i <= index.mods@.len(),
            s == index@,
            forall|a: int, j: int| 0 <= a < i && 0 <= j < s[a].1.files.len() ==> #[trigger] s[a].1.files[j].filename != mod_name@,
        decreases index.mods@.len() - i,
    {
        let files = &index.mods[i].1.files;
        assert(s[i as int] == entry_view(index.mods@[i as int]));
        let mut j: usize = 0;
        while j < files.len()
            invariant
                j <= files@.len(),
                i < index.mods@.len(),
                s == index@,
                files@ == index.mods@[i as int].1.files@,
                s[i as int] == entry_view(index.mods@[i as int]),
                forall|b: int| 0 <= b < j ==> #[trigger] s[i as int].1.files[b].filename != mod_name@,
            decreases files@.len() - j,
        {
            if files[j].filename == *mod_name {
                assert(s[i as int].1.files[j as int] == files@[j as int]@);
                assert(s[i as int].1.files[j as int].filename == mod_name@);
                return true;
            }
            j = j + 1;
        }
        i = i + 1;
    }
    false
}

fn find_entry(index: &ModIndex, k: &String) -> (r: Option<usize>)
    ensures
        match r {
            Some(i) => i < index@.len() && index@[i as int] == lookup(index@, k@) && index@[i as int].0 == k@,
            None => !keys(index@).contains(k@),
        },
{
    let ghost s = index@;
    let mut i: usize = 0;
    assert(s.skip(0) =~= s);
    while i < index.mods.len()
        invariant
            i <= index.mods@.len(),
            s == index@,
            forall|a: int| 0 <= a < i ==> s[a].0 != k@,
            lookup(s, k@) == lookup(s.skip(i as int), k@),
        decreases index.mods@.len() - i,
    {
        assert(s[i as int] == entry_view(index.mods@[i as int]));
        if index.mods[i].0 == *k {
            return Some(i);
        }
        assert(s.skip(i as int).drop_first() =~= s.skip(i as int + 1));
        assert(s.skip(i as int)[0] == s[i as int]);
        i = i + 1;
    }
    proof {
        if keys(s).contains(k@) {
            let a = choose|a: int| 0 <= a < keys(s).len() && keys(s)[a] == k@;
            assert(s[a].0 == k@);
        }
    }
    None
}

fn out_has(out: &Vec<(String, ModConfig)>, k: &String) -> (b: bool)
    ensures
        b == keys(out@.map_values(|e: (String, ModConfig)| entry_view(e))).contains(k@),
{
    crate::mods::has_key(out, k)
}

pub open spec fn out_view(out: Seq<(String, ModConfig)>) -> Seq<Entry> {
    out.map_values(|e: (String, ModConfig)| entry_view(e))
}

spec fn missing(s: Seq<Entry>, ks: Seq<Seq<char>>) -> nat
    decreases s.len(),
{
    if s.len() == 0 {
        0
    } else {
        missing(s.drop_last(), ks) + (if ks.contains(s.last().0) { 0nat } else { 1nat })
    }
}

proof fn lemma_missing_decreases(s: Seq<Entry>, ks: Seq<Seq<char>>, k: Seq<char>)
    requires
        keys(s).contains(k),
        !ks.contains(k),
    ensures
        missing(s, ks.push(k)) < missing(s, ks),
    decreases s.len(),
{
    lemma_missing_le(s.drop_last(), ks, k);
    lemma_contains_push(ks, k, s.last().0);
    if s.last().0 != k {
        let a = choose|a: int| 0 <= a < keys(s).len() && keys(s)[a] == k;
        assert(keys(s.drop_last())[a] == k);
        lemma_missing_decreases(s.drop_last(), ks, k);
    }
}

proof fn lemma_missing_le(s: Seq<Entry>, ks: Seq<Seq<char>>, k: Seq<char>)
    ensures
        missing(s, ks.push(k)) <= missing(s, ks),
    decreases s.len(),
{
    if s.len() > 0 {
        lemma_missing_le(s.drop_last(), ks, k);
        lemma_contains_push(ks, k, s.last().0);
    }
}

proof fn lemma_contains_push(s: Seq<Seq<char>>, x: Seq<char>, y: Seq<char>)
    ensures
        s.push(x).contains(y) == (s.contains(y) || x == y),
{
    if s.push(x).contains(y) {
        let a = choose|a: int| 0 <= a < s.push(x).len() && s.push(x)[a] == y;
        if a < s.len() {
            assert(s[a] == y);
        }
    }
    if s.contains(y) {
        let a = choose|a: int| 0 <= a < s.len() && s[a] == y;
        assert(s.push(x)[a] == y);
    }
    if x == y {
        assert(s.push(x)[s.len() as int] == y);
    }
}

proof fn lemma_contains_concat(s: Seq<Seq<char>>, t: Seq<Seq<char>>, y: Seq<char>)
    ensures
        (s + t).contains(y) == (s.contains(y) || t.contains(y)),
{
    if (s + t).contains(y) {
        let a = choose|a: int| 0 <= a < (s + t).len() && (s + t)[a] == y;
        if a < s.len() {
            assert(s[a] == y);
        } else {
            assert(t[a - s.len()] == y);
        }
    }
    if s.contains(y) {
        let a = choose|a: int| 0 <= a < s.len() && s[a] == y;
        assert((s + t)[a] == y);
    }
    if t.contains(y) {
        let a = choose|a: int| 0 <= a < t.len() && t[a] == y;
        assert((s + t)[a + s.len()] == y);
    }
}

proof fn lemma_lookup(s: Seq<Entry>, k: Seq<char>) -> (i: int)
    requires
        keys(s).contains(k),
    ensures
        0 <= i < s.len(),
        s[i] == lookup(s, k),
        s[i].0 == k,
    decreases s.len(),
{
    if s[0].0 == k {
        0
    } else {
        let a = choose|a: int| 0 <= a < keys(s).len() && keys(s)[a] == k;
        assert(keys(s.drop_first())[a - 1] == k);
        let j = lemma_lookup(s.drop_first(), k);
        j + 1
    }
}

/// Appends copies of the strings of `v` to `out`.
fn append_strings(out: &mut Vec<String>, v: &Vec<String>)
    ensures
        strs(final(out)@) == strs(old(out)@) + strs(v@),
{
    let mut k: usize = 0;
    while k < v.len()
        invariant
            k <= v@.len(),
            strs(out@) == strs(old(out)@) + strs(v@).take(k as int),
        decreases v@.len() - k,
    {
        let ghost prev = out@;
        out.push(v[k].clone());
        proof {
            lemma_map_push(prev, v@[k as int], |x: String| x@);
            lemma_take_succ(strs(v@), k as int);
            assert(strs(out@) =~= strs(old(out)@) + strs(v@).take(k as int + 1));
        }
        k = k + 1;
    }
    assert(strs(v@).take(v@.len() as int) =~= strs(v@));
}

/// The downloaded mods of the selection and everything they depend on, as
/// far as the index knows them, each with its index record; and the local
/// files of the selection that no indexed mod provides, in order.
pub fn plan_preset(index: &ModIndex, selected: &[SelectedMod]) -> (r: (
    Vec<(String, ModConfig)>,
    Vec<String>,
))
    ensures
        is_dependency_closure(
            index@,
            downloaded_ids(selected@.map_values(|m: SelectedMod| m@)),
            keys(out_view(r.0@)).to_set(),
        ),
        forall|a: int| 0 <= a < r.0@.len() ==> #[trigger] out_view(r.0@)[a] == lookup(index@, out_view(r.0@)[a].0),
        forall|a: int, b: int| 0 <= a < b < r.0@.len() ==> out_view(r.0@)[a].0 != out_view(r.0@)[b].0,
        strs(r.1@) == local_files(index@, selected@.map_values(|m: SelectedMod| m@)),
{
    let ghost s = index@;
    let ghost sel = selected@.map_values(|m: SelectedMod| m@);
    let ghost roots = downloaded_ids(sel);
    let mut pending: Vec<String> = Vec::new();
    let mut locals: Vec<String> = Vec::new();
    let mut i: usize = 0;
    while i < selected.len()
        invariant
            i <= selected@.len(),
            sel == selected@.map_values(|m: SelectedMod| m@),
            s == index@,
            roots == downloaded_ids(sel),
            forall|k: Seq<char>| strs(pending@).contains(k) ==> roots.contains(k),
            forall|a: int| 0 <= a < i ==> ((#[trigger] sel[a]) matches SelectedModView::Downloaded { id, .. } ==> strs(pending@).contains(id)),
            strs(locals@) == local_files(s, sel.take(i as int)),
        decreases selected@.len() - i,
    {
        proof {
            lemma_take_succ(sel, i as int);
            assert(sel.take(i as int + 1).drop_last() =~= sel.take(i as int));
        }
        match &selected[i] {
            SelectedMod::Downloaded { name, id } => {
                let ghost prev = pending@;
                pending.push(id.clone());
                proof {
                    lemma_map_push(prev, pending@.last(), |x: String| x@);
                    assert(sel[i as int] == (SelectedModView::Downloaded { name: sel[i as int]->Downloaded_name, id: id@ }));
                    assert(strs(pending@)[prev.len() as int] == id@);
                    assert forall|k: Seq<char>| strs(pending@).contains(k) implies roots.contains(k) by {
                        let a = choose|a: int| 0 <= a < strs(pending@).len() && strs(pending@)[a] == k;
                        if a < prev.len() {
                            assert(strs(prev)[a] == k);
                        }
                    }
                    assert forall|a: int| 0 <= a < i + 1 implies ((#[trigger] sel[a]) matches SelectedModView::Downloaded { id, .. } ==> strs(pending@).contains(id)) by {
                        if let SelectedModView::Downloaded { id: x, .. } = sel[a] {
                            if a < i {
                                let b = choose|b: int| 0 <= b < strs(prev).len() && strs(prev)[b] == x;
                                assert(strs(pending@)[b] == x);
                            }
                        }
                    }
                }
                assert(strs(locals@) =~= local_files(s, sel.take(i as int + 1)));
            },
            SelectedMod::Local { file_name } => {
                if !is_already_covered(index, file_name) {
                    let ghost prev = locals@;
                    locals.push(file_name.clone());
                    proof {
                        lemma_map_push(prev, locals@.last(), |x: String| x@);
                    }
                }
                assert(strs(locals@) =~= local_files(s, sel.take(i as int + 1)));
            },
        }
        i = i + 1;
    }
    assert(sel.take(selected@.len() as int) =~= sel);
    let mut out: Vec<(String, ModConfig)> = Vec::new();
    while pending.len() > 0
        invariant
            s == index@,
            roots == downloaded_ids(sel),
            // soundness: every id met so far comes from a root or a dependency of a kept mod
            forall|k: Seq<char>| strs(pending@).contains(k) ==> roots.contains(k) || exists|a: int, j: int|
                0 <= a < out_view(out@).len() && 0 <= j < out_view(out@)[a].1.dependencies.len()
                    && out_view(out@)[a].1.dependencies[j] == k,
            forall|c: Set<Seq<char>>|
                (closed(s, c) && forall|k: Seq<char>| roots.contains(k) && keys(s).contains(k) ==> c.contains(k))
                    ==> keys(out_view(out@)).to_set().subset_of(c),
            // completeness: every root and every known dependency of a kept mod is kept or pending
            forall|k: Seq<char>| roots.contains(k) && keys(s).contains(k) ==> strs(pending@).contains(k) || keys(out_view(out@)).contains(k),
            forall|a: int, j: int|
                0 <= a < out_view(out@).len() && 0 <= j < out_view(out@)[a].1.dependencies.len()
                    && keys(s).contains(#[trigger] out_view(out@)[a].1.dependencies[j]) ==> strs(pending@).contains(out_view(out@)[a].1.dependencies[j])
                    || keys(out_view(out@)).contains(out_view(out@)[a].1.dependencies[j]),
            // shape of the kept records
            forall|a: int| 0 <= a < out@.len() ==> #[trigger] out_view(out@)[a] == lookup(s, out_view(out@)[a].0) && keys(s).contains(out_view(out@)[a].0),
            forall|a: int, b: int| 0 <= a < b < out@.len() ==> out_view(out@)[a].0 != out_view(out@)[b].0,
        decreases missing(s, keys(out_view(out@))), pending@.len(),
    {
        let ghost prev_out = out@;
        let ghost pv = strs(pending@);
        let id = pending.pop().unwrap();
        let ghost pp = strs(pending@);
        proof {
            assert(pv =~= pp.push(id@));
        }
        if out_has(&out, &id) {
            proof {
                assert forall|k: Seq<char>| pv.contains(k) implies pp.contains(k) || keys(out_view(out@)).contains(k) by {
                    lemma_contains_push(pp, id@, k);
                }
                assert forall|k: Seq<char>| pp.contains(k) implies pv.contains(k) by {
                    lemma_contains_push(pp, id@, k);
                }
            }
        } else {
            match find_entry(index, &id) {
                None => {
                    proof {
                        assert forall|k: Seq<char>| pv.contains(k) && keys(s).contains(k) implies pp.contains(k) by {
                            lemma_contains_push(pp, id@, k);
                        }
                        assert forall|k: Seq<char>| pp.contains(k) implies pv.contains(k) by {
                            lemma_contains_push(pp, id@, k);
                        }
                    }
                },
                Some(k) => {
                    let cfg = index.mods[k].1.copy();
                    assert(s[k as int] == entry_view(index.mods@[k as int]));
                    append_strings(&mut pending, &cfg.dependencies);
                    let ghost item = (id, cfg);
                    let ghost ov = out_view(prev_out);
                    let ghost deps = s[k as int].1.dependencies;
                    out.push((id, cfg));
                    proof {
                        lemma_map_push(prev_out, item, |e: (String, ModConfig)| entry_view(e));
                        let nv = out_view(out@);
                        assert(nv == ov.push(s[k as int]));
                        assert(keys(nv) =~= keys(ov).push(id@));
                        let np = strs(pending@);
                        assert(np == pp + deps);
                        assert(keys(s)[k as int] == id@);
                        lemma_missing_decreases(s, keys(ov), id@);
                        // soundness of the pending list
                        assert forall|q: Seq<char>| np.contains(q) implies roots.contains(q) || exists|a: int, j: int|
                            0 <= a < nv.len() && 0 <= j < nv[a].1.dependencies.len()
                                && nv[a].1.dependencies[j] == q by {
                            lemma_contains_concat(pp, deps, q);
                            lemma_contains_push(pp, id@, q);
                            if pp.contains(q) {
                                if !roots.contains(q) {
                                    let (a, j) = choose|a: int, j: int|
                                        0 <= a < ov.len() && 0 <= j < ov[a].1.dependencies.len()
                                            && ov[a].1.dependencies[j] == q;
                                    assert(nv[a] == ov[a]);
                                }
                            } else {
                                let j = choose|j: int| 0 <= j < deps.len() && deps[j] == q;
                                assert(nv[ov.len() as int].1.dependencies[j] == q);
                            }
                        }
                        // the kept ids lie in every closed set that holds the roots
                        assert forall|c: Set<Seq<char>>|
                            (closed(s, c) && forall|r: Seq<char>| roots.contains(r) && keys(s).contains(r) ==> c.contains(r))
                                implies keys(nv).to_set().subset_of(c) by {
                            assert(keys(ov).to_set().subset_of(c));
                            lemma_contains_push(pp, id@, id@);
                            if !roots.contains(id@) {
                                let (a, j) = choose|a: int, j: int|
                                    0 <= a < ov.len() && 0 <= j < ov[a].1.dependencies.len()
                                        && ov[a].1.dependencies[j] == id@;
                                let y = ov[a].0;
                                assert(keys(ov)[a] == y);
                                assert(keys(ov).to_set().contains(y));
                                assert(ov[a] == lookup(s, y));
                                assert(lookup(s, y).1.dependencies[j] == id@);
                            }
                            assert forall|x: Seq<char>| keys(nv).to_set().contains(x) implies c.contains(x) by {
                                assert(keys(nv).contains(x));
                                lemma_contains_push(keys(ov), id@, x);
                                if x != id@ {
                                    assert(keys(ov).to_set().contains(x));
                                }
                            }
                        }
                        // completeness: roots
                        assert forall|r: Seq<char>| roots.contains(r) && keys(s).contains(r) implies np.contains(r) || keys(nv).contains(r) by {
                            lemma_contains_push(pp, id@, r);
                            lemma_contains_concat(pp, deps, r);
                            lemma_contains_push(keys(ov), id@, r);
                        }
                        // completeness: dependencies of kept mods
                        assert forall|a: int, j: int|
                            0 <= a < nv.len() && 0 <= j < nv[a].1.dependencies.len()
                                && keys(s).contains(#[trigger] nv[a].1.dependencies[j]) implies np.contains(nv[a].1.dependencies[j])
                                || keys(nv).contains(nv[a].1.dependencies[j]) by {
                            let d = nv[a].1.dependencies[j];
                            lemma_contains_push(pp, id@, d);
                            lemma_contains_concat(pp, deps, d);
                            lemma_contains_push(keys(ov), id@, d);
                            if a == ov.len() {
                                assert(deps[j] == d);
                            } else {
                                assert(nv[a] == ov[a]);
                            }
                        }
                        assert forall|a: int| 0 <= a < out@.len() implies #[trigger] out_view(out@)[a] == lookup(s, out_view(out@)[a].0) && keys(s).contains(out_view(out@)[a].0) by {
                            if a == ov.len() {
                                assert(keys(s)[k as int] == id@);
                            } else {
                                assert(nv[a] == ov[a]);
                            }
                        }
                        assert forall|a: int, b: int| 0 <= a < b < out@.len() implies out_view(out@)[a].0 != out_view(out@)[b].0 by {
                            if b == ov.len() {
                                assert(keys(ov)[a] == ov[a].0);
                            } else {
                                assert(nv[a] == ov[a] && nv[b] == ov[b]);
                            }
                        }
                    }
                },
            }
        }
    }
    proof {
        let ov = out_view(out@);
        assert forall|k: Seq<char>| keys(ov).to_set().contains(k) implies keys(s).contains(k) by {
            let a = choose|a: int| 0 <= a < keys(ov).len() && keys(ov)[a] == k;
        }
        assert forall|k: Seq<char>| roots.contains(k) && keys(s).contains(k) implies keys(ov).to_set().contains(k) by {
            if strs(pending@).contains(k) {
                let a = choose|a: int| 0 <= a < strs(pending@).len() && strs(pending@)[a] == k;
            }
        }
        assert forall|k: Seq<char>, j: int|
            keys(ov).to_set().contains(k) && keys(s).contains(k) && 0 <= j < lookup(s, k).1.dependencies.len()
                && keys(s).contains(#[trigger] lookup(s, k).1.dependencies[j]) implies keys(ov).to_set().contains(
            lookup(s, k).1.dependencies[j]) by {
            let a = choose|a: int| 0 <= a < keys(ov).len() && keys(ov)[a] == k;
            assert(ov[a] == lookup(s, k));
            let d = ov[a].1.dependencies[j];
            if strs(pending@).contains(d) {
                let q = choose|q: int| 0 <= q < strs(pending@).len() && strs(pending@)[q] == d;
            }
            assert(keys(ov).contains(d));
        }
    }
    (out, locals)
}

} // verus!
