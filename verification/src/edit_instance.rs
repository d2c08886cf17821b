//! Editing an instance's settings: its argument lists, its window size, its
//! name and its custom game jar.
use vstd::prelude::*;

use crate::instance_config::CustomJarConfig;
use crate::mods::strs;
use crate::text::{
    all_digits, chars_of, digits_u64, digits_value, is_whitespace, lemma_trim_idempotent,
    lemma_trim_shape, str_eq, string_of, trim, trim_bounds,
};

verus! {

/// `s` with the entries at `i` and `j` exchanged.
pub open spec fn swapped<A>(s: Seq<A>, i: int, j: int) -> Seq<A> {
    s.update(i, s[j]).update(j, s[i])
}

/// Moves the argument at `idx` one place up (towards the front); the
/// first stays where it is.
pub fn list_shift_up(idx: usize, args: &mut Vec<String>)
    requires
        idx > 0 ==> idx < old(args)@.len(),
    ensures
        idx == 0 ==> final(args)@ == old(args)@,
        idx > 0 ==> final(args)@ == swapped(old(args)@, idx as int, idx - 1),
{
    if idx > 0 {
        let a = args[idx].clone();
        let b = args[idx - 1].clone();
        args.set(idx, b);
        args.set(idx - 1, a);
    }
}

/// Moves the argument at `idx` one place down (towards the back); the
/// last stays where it is.
pub fn list_shift_down(idx: usize, args: &mut Vec<String>)
    requires
        idx < usize::MAX,
    ensures
        idx + 1 >= old(args)@.len() ==> final(args)@ == old(args)@,
        idx + 1 < old(args)@.len() ==> final(args)@ == swapped(old(args)@, idx as int, idx + 1),
{
    if idx + 1 < args.len() {
        let a = args[idx].clone();
        let b = args[idx + 1].clone();
        args.set(idx, b);
        args.set(idx + 1, a);
    }
}

/// Adds an empty argument at the end.
pub fn list_add(args: &mut Vec<String>)
    ensures
        final(args)@.len() == old(args)@.len() + 1,
        final(args)@.drop_last() == old(args)@,
        final(args)@.last()@ == Seq::<char>::empty(),
{
    args.push(String::new());
    assert(args@.drop_last() =~= old(args)@);
}

/// Removes the argument at `idx`.
pub fn list_delete(args: &mut Vec<String>, idx: usize)
    requires
        idx < old(args)@.len(),
    ensures
        final(args)@ == old(args)@.remove(idx as int),
{
    args.remove(idx);
}

/// What `str::parse::<u32>` gives back: an optional `+`, then one or more
/// decimal digits, with a value that fits.
pub open spec fn u32_value(s: Seq<char>) -> Option<nat> {
    let d = if s.len() > 0 && s[0] == '+' { s.drop_first() } else { s };
    if all_digits(d) && digits_value(d) <= u32::MAX {
        Some(digits_value(d))
    } else {
        None
    }
}

/// `str::parse::<u32>`.
pub fn parse_u32(s: &str) -> (r: Option<u32>)
    ensures
        match r {
            Some(v) => u32_value(s@) == Some(v as nat),
            None => u32_value(s@) is None,
        },
{
    let v = chars_of(s);
    let start: usize = if v.len() > 0 && v[0] == '+' { 1 } else { 0 };
    proof {
        assert(v@.skip(0) =~= v@);
        assert(v@.skip(1) =~= v@.drop_first());
    }
    if start == v.len() {
        return None;
    }
    match digits_u64(v.as_slice(), start) {
        Some(m) => {
            if m <= 4294967295 {
                Some(m as u32)
            } else {
                None
            }
        },
        None => None,
    }
}

/// A window dimension typed into the settings: nothing when the field is
/// empty, else the number when it is one (anything else counts as nothing).
pub fn parse_window_dimension(text: &str) -> (r: Option<u32>)
    ensures
        text@.len() == 0 ==> r is None,
        text@.len() > 0 ==> match r {
            Some(v) => u32_value(text@) == Some(v as nat),
            None => u32_value(text@) is None,
        },
{
    let v = chars_of(text);
    if v.len() == 0 {
        None
    } else {
        parse_u32(text)
    }
}

/// The characters that an instance name may not hold: path separators and
/// the characters that file systems refuse, and control characters.
pub open spec fn disallowed(c: char) -> bool {
    let u = c as u32;
    c == '/' || c == '\\' || c == ':' || c == '*' || c == '?' || c == '"' || c == '<' || c == '>'
        || c == '|' || c == '\'' || u == 0 || u == 0x7f || (1 <= u && u <= 0x1f)
}

/// `s` without its disallowed characters.
pub open spec fn without_disallowed(s: Seq<char>) -> Seq<char>
    decreases s.len(),
{
    if s.len() == 0 {
        seq![]
    } else if disallowed(s.last()) {
        without_disallowed(s.drop_last())
    } else {
        without_disallowed(s.drop_last()).push(s.last())
    }
}

/// An instance name made safe for the file system: its disallowed
/// characters removed, then trimmed.
pub fn sanitize_instance_name(name: &str) -> (res: String)
    ensures
        res@ == trim(without_disallowed(name@)),
{
    let v = chars_of(name);
    let mut kept: Vec<char> = Vec::new();
    let mut i: usize = 0;
    while i < v.len()
        invariant
            i <= v@.len(),
            v@ == name@,
            kept@ == without_disallowed(v@.take(i as int)),
        decreases v@.len() - i,
    {
        assert(v@.take(i + 1).drop_last() =~= v@.take(i as int));
        let c = v[i];
        let u = c as u32;
        let bad = c == '/' || c == '\\' || c == ':' || c == '*' || c == '?' || c == '"' || c == '<'
            || c == '>' || c == '|' || c == '\'' || u == 0 || u == 0x7f || (1 <= u && u <= 0x1f);
        if !bad {
            kept.push(c);
        }
        i = i + 1;
    }
    assert(v@.take(v@.len() as int) =~= v@);
    let (a, b) = trim_bounds(kept.as_slice());
    string_of(&kept.as_slice()[a..b])
}

proof fn lemma_without_disallowed_clean(s: Seq<char>)
    ensures
        forall|k: int| 0 <= k < without_disallowed(s).len() ==> !disallowed(#[trigger] without_disallowed(s)[k]),
        (forall|k: int| 0 <= k < s.len() ==> !disallowed(#[trigger] s[k])) ==> without_disallowed(s) == s,
    decreases s.len(),
{
    if s.len() > 0 {
        lemma_without_disallowed_clean(s.drop_last());
        let p = without_disallowed(s.drop_last());
        if !disallowed(s.last()) {
            let w = without_disallowed(s);
            assert forall|k: int| 0 <= k < w.len() implies !disallowed(#[trigger] w[k]) by {
                if k < p.len() {
                    assert(w[k] == p[k]);
                }
            }
        }
        if forall|k: int| 0 <= k < s.len() ==> !disallowed(#[trigger] s[k]) {
            assert forall|k: int| 0 <= k < s.drop_last().len() implies !disallowed(#[trigger] s.drop_last()[k]) by {
                assert(s.drop_last()[k] == s[k]);
            }
            assert(!disallowed(s[s.len() - 1]));
            assert(s.drop_last().push(s.last()) =~= s);
        }
    }
}

/// A sanitized name is its own sanitized form: sanitizing twice is
/// sanitizing once.
pub proof fn lemma_sanitize_idempotent(s: Seq<char>)
    ensures
        trim(without_disallowed(trim(without_disallowed(s)))) == trim(without_disallowed(s)),
{
    let w = without_disallowed(s);
    let t = trim(w);
    lemma_without_disallowed_clean(s);
    lemma_trim_shape(w);
    assert forall|k: int| 0 <= k < t.len() implies !disallowed(#[trigger] t[k]) by {
        let i = choose|i: int| 0 <= i < w.len() && w[i] == t[k];
        assert(!disallowed(w[i]));
    }
    lemma_without_disallowed_clean(t);
    lemma_trim_idempotent(w);
}

/// Moving an argument up and then back down restores the list.
pub proof fn lemma_shift_up_then_down<A>(s: Seq<A>, idx: int)
    requires
        0 < idx < s.len(),
    ensures
        swapped(swapped(s, idx, idx - 1), idx - 1, idx) == s,
{
    assert(swapped(swapped(s, idx, idx - 1), idx - 1, idx) =~= s);
}

/// Adding an empty argument and deleting it again restores the list.
pub proof fn lemma_add_then_delete(s: Seq<String>, t: Seq<String>)
    requires
        t.len() == s.len() + 1,
        t.drop_last() == s,
    ensures
        t.remove(s.len() as int) == s,
{
    assert(t.remove(s.len() as int) =~= t.drop_last());
}

/// What renaming an instance comes to.
pub enum RenameAction {
    /// The new name has nothing usable in it.
    Invalid,
    /// The name did not change.
    Unchanged,
    /// The instance's folder is renamed to the name typed.
    Rename(String),
}

/// What to do when the user applies a new instance name: nothing for a name
/// that sanitizes to nothing or that did not change, else rename the
/// folder to the name as typed.
pub fn rename_action(new_name: &str, old_name: &str) -> (r: RenameAction)
    ensures
        trim(without_disallowed(new_name@)).len() == 0 ==> r is Invalid,
        trim(without_disallowed(new_name@)).len() > 0 && new_name@ == old_name@ ==> r is Unchanged,
        trim(without_disallowed(new_name@)).len() > 0 && new_name@ != old_name@ ==> (r matches RenameAction::Rename(n) && n@ == new_name@),
{
    let clean = sanitize_instance_name(new_name);
    if clean.as_str().unicode_len() == 0 {
        RenameAction::Invalid
    } else if str_eq(new_name, old_name) {
        RenameAction::Unchanged
    } else {
        RenameAction::Rename(new_name.to_owned())
    }
}

/// The entry of the custom-jar list that adds a jar.
pub open spec fn add_jar_name() -> Seq<char> {
    "+ Add JAR"@
}

/// The entry of the custom-jar list that removes the selected jar.
pub open spec fn remove_jar_name() -> Seq<char> {
    "- Remove Selected"@
}

/// The entry of the custom-jar list for the game's own jar.
pub open spec fn none_jar_name() -> Seq<char> {
    "(None)"@
}

/// The custom-jar list: no custom jar first, then the jars found, then the
/// entries that add and remove one.
pub fn custom_jar_choices(found: Vec<String>) -> (r: Vec<String>)
    ensures
        strs(r@) == seq![none_jar_name()] + strs(found@) + seq![add_jar_name(), remove_jar_name()],
{
    let mut out: Vec<String> = Vec::new();
    out.push("(None)".to_owned());
    let mut rest = found;
    let ghost f = rest@;
    out.append(&mut rest);
    out.push("+ Add JAR".to_owned());
    out.push("- Remove Selected".to_owned());
    assert(strs(out@) =~= seq![none_jar_name()] + strs(f) + seq![add_jar_name(), remove_jar_name()]);
    out
}

/// What picking an entry of the custom-jar list does.
pub enum JarChoice {
    /// The file dialog to add a jar is to be opened.
    AddNew,
    /// The selected jar was taken off the list; its file is to be deleted.
    Removed(String),
    /// Nothing changed on disk.
    Done,
}

/// The list without the entries equal to `name`.
pub open spec fn without_name(list: Seq<Seq<char>>, name: Seq<char>) -> Seq<Seq<char>>
    decreases list.len(),
{
    if list.len() == 0 {
        seq![]
    } else if list.last() == name {
        without_name(list.drop_last(), name)
    } else {
        without_name(list.drop_last(), name).push(list.last())
    }
}

fn retain_other(list: &mut Vec<String>, name: &String)
    ensures
        strs(final(list)@) == without_name(strs(old(list)@), name@),
{
    let mut out: Vec<String> = Vec::new();
    let mut i: usize = 0;
    while i < list.len()
        invariant
            i <= list@.len(),
            list@ == old(list)@,
            strs(out@) == without_name(strs(list@).take(i as int), name@),
        decreases list@.len() - i,
    {
        let ghost t = strs(list@);
        assert(t.take(i + 1).drop_last() =~= t.take(i as int));
        assert(t.take(i + 1).last() == list@[i as int]@);
        if !str_eq(list[i].as_str(), name.as_str()) {
            let ghost prev = out@;
            let x = list[i].clone();
            let ghost xv = x;
            out.push(x);
            proof {
                crate::mods::lemma_map_push(prev, xv, |s: String| s@);
            }
        }
        i = i + 1;
    }
    assert(strs(list@).take(list@.len() as int) =~= strs(list@));
    *list = out;
}

/// Applies the entry `path` picked from the custom-jar list: adding asks
/// for a file; removing takes the selected jar off the list and out of the
/// configuration (when both exist); "(None)" clears the choice; any other
/// entry becomes the instance's jar.
pub fn choose_custom_jar(path: &str, custom_jar: &mut Option<CustomJarConfig>, choices: &mut Option<Vec<String>>) -> (r: JarChoice)
    ensures
        path@ == add_jar_name() ==> r is AddNew && *final(custom_jar) == *old(custom_jar) && *final(choices) == *old(choices),
        path@ == remove_jar_name() ==> match (*old(custom_jar), *old(choices)) {
            (Some(jar), Some(list)) => (r matches JarChoice::Removed(n) && n@ == jar.name@) && *final(custom_jar) is None
                && (*final(choices) matches Some(l) && strs(l@) == without_name(strs(list@), jar.name@)),
            _ => r is Done && *final(custom_jar) == *old(custom_jar) && *final(choices) == *old(choices),
        },
        path@ == none_jar_name() ==> r is Done && *final(custom_jar) is None && *final(choices) == *old(choices),
        path@ != add_jar_name() && path@ != remove_jar_name() && path@ != none_jar_name() ==> r is Done
            && (*final(custom_jar) matches Some(j) && j.name@ == path@) && *final(choices) == *old(choices),
{
    proof {
        reveal_strlit("+ Add JAR");
        reveal_strlit("- Remove Selected");
        reveal_strlit("(None)");
        assert(add_jar_name()[0] != remove_jar_name()[0]);
        assert(add_jar_name()[0] != none_jar_name()[0]);
        assert(remove_jar_name()[0] != none_jar_name()[0]);
    }
    if str_eq(path, "+ Add JAR") {
        return JarChoice::AddNew;
    }
    if str_eq(path, "- Remove Selected") {
        match (&*custom_jar, &mut *choices) {
            (Some(jar), Some(list)) => {
                let name = jar.name.clone();
                retain_other(list, &name);
                *custom_jar = None;
                return JarChoice::Removed(name);
            },
            _ => {
                return JarChoice::Done;
            },
        }
    }
    if str_eq(path, "(None)") {
        *custom_jar = None;
    } else {
        *custom_jar = Some(CustomJarConfig { name: path.to_owned() });
    }
    JarChoice::Done
}

/// Records a jar that the user added: it joins the list (second, after
/// "(None)") unless it is there already, and becomes the instance's jar.
pub fn add_custom_jar(choices: &mut Vec<String>, custom_jar: &mut Option<CustomJarConfig>, file_name: String)
    requires
        old(choices)@.len() >= 1,
    ensures
        strs(old(choices)@).contains(file_name@) ==> final(choices)@ == old(choices)@,
        !strs(old(choices)@).contains(file_name@) ==> strs(final(choices)@) == strs(old(choices)@).insert(1, file_name@),
        *final(custom_jar) matches Some(j) && j.name@ == file_name@,
{
    let mut present = false;
    let mut i: usize = 0;
    while i < choices.len()
        invariant
            i <= choices@.len(),
            present <==> exists|k: int| 0 <= k < i && (#[trigger] choices@[k])@ == file_name@,
        decreases choices@.len() - i,
    {
        if str_eq(choices[i].as_str(), file_name.as_str()) {
            present = true;
        }
        i = i + 1;
    }
    proof {
        if present {
            let k = choose|k: int| 0 <= k < choices@.len() && (#[trigger] choices@[k])@ == file_name@;
            assert(strs(choices@)[k] == file_name@);
        } else {
            assert forall|k: int| 0 <= k < strs(choices@).len() implies strs(choices@)[k] != file_name@ by {
                assert(strs(choices@)[k] == choices@[k]@);
            }
        }
    }
    if !present {
        let ghost before = choices@;
        let ghost fv = file_name;
        choices.insert(1, file_name.clone());
        assert(strs(choices@) =~= strs(before).insert(1, fv@));
    }
    *custom_jar = Some(CustomJarConfig { name: file_name });
}

} // verus!
