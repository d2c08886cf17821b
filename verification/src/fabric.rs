//! The loader profile that Fabric-like meta servers hand out, and where each
//! of its libraries lies in the maven layout.
use vstd::prelude::*;

use crate::text::{
    chars_of, contains_exec, contains_seq, count_char, field, field_bounds, push_all, push_str_chars,
    replace_char, replace_char_exec, str_eq, string_of,
};

verus! {

/// A rule that allows or forbids a library, on every system or on one.
pub struct LibraryRule {
    /// `"allow"` or `"disallow"`.
    pub action: String,
    /// The system the rule is limited to, by name (`"linux"`, `"osx"`, ...).
    pub os: Option<String>,
}

/// The loader profile of a Fabric-like loader.
#[allow(non_snake_case)]
pub struct FabricJSON {
    pub mainClassServer: Option<String>,
    pub mainClass: String,
    pub arguments: Option<Arguments>,
    pub libraries: Vec<Library>,
}

pub struct Arguments {
    pub jvm: Option<Vec<String>>,
    pub game: Option<Vec<String>>,
}

/// A library of the profile, by maven coordinate `group:artifact:version`.
pub struct Library {
    pub name: String,
    pub url: Option<String>,
    pub rules: Option<Vec<LibraryRule>>,
}

/// `<group with '.' as sep>/<artifact>/<version>/<artifact>-<version>/<group with ' ' as '_'>.jar`
pub open spec fn library_path(n: Seq<char>, sep: char) -> Seq<char> {
    let g = field(n, ':', 0);
    let a = field(n, ':', 1);
    let v = field(n, ':', 2);
    replace_char(g, '.', seq![sep]) + seq![sep] + a + seq![sep] + v + seq![sep] + a + "-"@ + v
        + seq![sep] + replace_char(g, ' ', "_"@) + ".jar"@
}

/// `<base><group with '.' as '/'>/<artifact>/<version>/<artifact>-<version>.jar`
pub open spec fn library_url(base: Seq<char>, n: Seq<char>) -> Seq<char> {
    let g = field(n, ':', 0);
    let a = field(n, ':', 1);
    let v = field(n, ':', 2);
    base + replace_char(g, '.', "/"@) + "/"@ + a + "/"@ + v + "/"@ + a + "-"@ + v + ".jar"@
}

pub open spec fn rule_applies(r: (Seq<char>, Option<Seq<char>>), os: Seq<char>) -> bool {
    match r.1 {
        Some(name) => name == os,
        None => true,
    }
}

/// The verdict of a rule list: the last rule that applies decides, and a
/// list in which none applies forbids.
pub open spec fn rules_allow(rs: Seq<(Seq<char>, Option<Seq<char>>)>, os: Seq<char>) -> bool
    decreases rs.len(),
{
    if rs.len() == 0 {
        false
    } else if rule_applies(rs.last(), os) {
        rs.last().0 == "allow"@
    } else {
        rules_allow(rs.drop_last(), os)
    }
}

pub open spec fn rule_view(r: LibraryRule) -> (Seq<char>, Option<Seq<char>>) {
    (r.action@, match r.os { Some(o) => Some(o@), None => None })
}

/// The platform's path separator, `std::path::MAIN_SEPARATOR`: `\` on
/// Windows and `/` elsewhere.
#[verifier::external_body]
pub(crate) fn main_separator() -> (c: char)
    ensures
        c == '/' || c == '\\',
{
    std::path::MAIN_SEPARATOR
}

fn push_char(out: &mut Vec<char>, c: char)
    ensures
        final(out)@ == old(out)@.push(c),
{
    out.push(c);
}

impl Library {
    /// The library's path below the libraries folder, with `sep` between
    /// the parts.
    pub fn get_path_with_separator(&self, sep: char) -> (res: String)
        requires
            count_char(self.name@, ':') >= 2,
        ensures
            res@ == library_path(self.name@, sep),
    {
        let n = chars_of(self.name.as_str());
        let (g0, g1) = field_bounds(n.as_slice(), ':', 0);
        let (a0, a1) = field_bounds(n.as_slice(), ':', 1);
        let (v0, v1) = field_bounds(n.as_slice(), ':', 2);
        let g = &n.as_slice()[g0..g1];
        let a = &n.as_slice()[a0..a1];
        let v = &n.as_slice()[v0..v1];
        let sep_s = vec![sep];
        let under = vec!['_'];
        let mut out = replace_char_exec(g, '.', sep_s.as_slice());
        push_char(&mut out, sep);
        push_all(&mut out, a);
        push_char(&mut out, sep);
        push_all(&mut out, v);
        push_char(&mut out, sep);
        push_all(&mut out, a);
        push_str_chars(&mut out, "-");
        push_all(&mut out, v);
        push_char(&mut out, sep);
        let tail = replace_char_exec(g, ' ', under.as_slice());
        push_all(&mut out, tail.as_slice());
        push_str_chars(&mut out, ".jar");
        proof {
            assert(sep_s@ =~= seq![sep]);
            assert(under@ =~= seq!['_']);
            reveal_strlit("_");
            assert("_"@ =~= seq!['_']);
            assert(out@ =~= library_path(self.name@, sep));
        }
        string_of(out.as_slice())
    }

    /// The library's path below the libraries folder, with the platform's
    /// path separator between the parts.
    pub fn get_path(&self) -> (res: String)
        requires
            count_char(self.name@, ':') >= 2,
        ensures
            res@ == library_path(self.name@, '/') || res@ == library_path(self.name@, '\\'),
    {
        let sep = main_separator();
        self.get_path_with_separator(sep)
    }

    /// Where to download the library from, when the profile names a
    /// repository for it.
    pub fn get_url(&self) -> (res: Option<String>)
        requires
            self.url is Some ==> count_char(self.name@, ':') >= 2,
        ensures
            match self.url {
                None => res is None,
                Some(base) => res is Some && res->0@ == library_url(base@, self.name@),
            },
    {
        match &self.url {
            None => None,
            Some(base) => {
                let n = chars_of(self.name.as_str());
                let (g0, g1) = field_bounds(n.as_slice(), ':', 0);
                let (a0, a1) = field_bounds(n.as_slice(), ':', 1);
                let (v0, v1) = field_bounds(n.as_slice(), ':', 2);
                let g = &n.as_slice()[g0..g1];
                let a = &n.as_slice()[a0..a1];
                let v = &n.as_slice()[v0..v1];
                let slash = vec!['/'];
                let mut out = chars_of(base.as_str());
                let gs = replace_char_exec(g, '.', slash.as_slice());
                push_all(&mut out, gs.as_slice());
                push_str_chars(&mut out, "/");
                push_all(&mut out, a);
                push_str_chars(&mut out, "/");
                push_all(&mut out, v);
                push_str_chars(&mut out, "/");
                push_all(&mut out, a);
                push_str_chars(&mut out, "-");
                push_all(&mut out, v);
                push_str_chars(&mut out, ".jar");
                proof {
                    reveal_strlit("/");
                    assert(slash@ =~= "/"@);
                    assert(out@ =~= library_url(base@, self.name@));
                }
                Some(string_of(out.as_slice()))
            },
        }
    }

    /// Whether the rules of the library let it be used on the system named
    /// `os_name` (no rules: always).
    pub fn is_allowed(&self, os_name: &str) -> (b: bool)
        ensures
            match self.rules {
                None => b,
                Some(rs) => b == rules_allow(rs@.map_values(|r: LibraryRule| rule_view(r)), os_name@),
            },
    {
        match &self.rules {
            None => true,
            Some(rules) => {
                let ghost rs = rules@.map_values(|r: LibraryRule| rule_view(r));
                let mut allowed = false;
                let mut i: usize = 0;
                while i < rules.len()
                    invariant
                        i <= rules@.len(),
                        rs == rules@.map_values(|r: LibraryRule| rule_view(r)),
                        allowed == rules_allow(rs.take(i as int), os_name@),
                    decreases rules@.len() - i,
                {
                    let rule = &rules[i];
                    assert(rs.take(i as int + 1).drop_last() =~= rs.take(i as int));
                    assert(rs.take(i as int + 1).last() == rule_view(*rule));
                    let applies = match &rule.os {
                        Some(name) => str_eq(name.as_str(), os_name),
                        None => true,
                    };
                    if applies {
                        allowed = str_eq(rule.action.as_str(), "allow");
                    }
                    i = i + 1;
                }
                assert(rs.take(rules@.len() as int) =~= rs);
                allowed
            },
        }
    }

    /// Whether this is a LWJGL 2 library.
    pub fn is_lwjgl2(&self) -> (b: bool)
        ensures
            b == (contains_seq(self.name@, "org.lwjgl.lwjgl:"@) && contains_seq(self.name@, ":2."@)),
    {
        let n = chars_of(self.name.as_str());
        let p1 = chars_of("org.lwjgl.lwjgl:");
        let p2 = chars_of(":2.");
        contains_exec(n.as_slice(), p1.as_slice()) && contains_exec(n.as_slice(), p2.as_slice())
    }
}

} // verus!
