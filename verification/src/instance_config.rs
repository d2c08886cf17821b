//! The launcher's per-instance configuration and how its Java arguments,
//! window size and launch prefix combine with the global defaults.
use vstd::prelude::*;

use crate::mods::{lemma_map_push, lemma_take_succ, strs};
use crate::text::{
    chars_of, decimal, is_blank, lemma_trim_idempotent, push_decimal, push_str_chars, string_of,
    trim, trimmed,
};

verus! {

/// A custom game jar, by file name in the launcher's jar folder.
pub struct CustomJarConfig {
    pub name: String,
}

/// How an instance's Java arguments combine with the global ones.
#[derive(PartialEq, Eq, Structural, Clone, Copy)]
pub enum JavaArgsMode {
    /// Global arguments only when the instance has none.
    Fallback,
    /// Instance arguments only.
    Disable,
    /// Global arguments, then the instance's.
    Combine,
}

impl Default for JavaArgsMode {
    fn default() -> (r: Self)
        ensures
            r == JavaArgsMode::Combine,
    {
        JavaArgsMode::Combine
    }
}

impl JavaArgsMode {
    /// The modes in the order the settings list shows them.
    pub fn all() -> (r: Vec<JavaArgsMode>)
        ensures
            r@ == seq![JavaArgsMode::Combine, JavaArgsMode::Disable, JavaArgsMode::Fallback],
    {
        vec![JavaArgsMode::Combine, JavaArgsMode::Disable, JavaArgsMode::Fallback]
    }

    pub fn get_description(self) -> (res: &'static str)
        ensures
            self == JavaArgsMode::Fallback ==> res@ == "Use global arguments only when instance has no arguments"@,
            self == JavaArgsMode::Disable ==> res@ == "No global arguments are applied"@,
            self == JavaArgsMode::Combine ==> res@ == "Global arguments are combined with instance arguments (default)"@,
    {
        match self {
            JavaArgsMode::Fallback => "Use global arguments only when instance has no arguments",
            JavaArgsMode::Disable => "No global arguments are applied",
            JavaArgsMode::Combine => "Global arguments are combined with instance arguments (default)",
        }
    }

    /// The name the mode is shown under.
    pub fn label(self) -> (res: &'static str)
        ensures
            self == JavaArgsMode::Fallback ==> res@ == "Fallback"@,
            self == JavaArgsMode::Disable ==> res@ == "Disable"@,
            self == JavaArgsMode::Combine ==> res@ == "Combine (default)"@,
    {
        match self {
            JavaArgsMode::Fallback => "Fallback",
            JavaArgsMode::Disable => "Disable",
            JavaArgsMode::Combine => "Combine (default)",
        }
    }
}

/// How an instance's pre-launch prefix combines with the global one.
#[derive(PartialEq, Eq, Structural, Clone, Copy)]
pub enum PreLaunchPrefixMode {
    /// The global prefix only when the instance has none.
    Fallback,
    /// The instance prefix only.
    Disable,
    /// The global prefix, then the instance's.
    CombineGlobalLocal,
    /// The instance prefix, then the global one.
    CombineLocalGlobal,
}

impl Default for PreLaunchPrefixMode {
    fn default() -> (r: Self)
        ensures
            r == PreLaunchPrefixMode::CombineGlobalLocal,
    {
        PreLaunchPrefixMode::CombineGlobalLocal
    }
}

impl PreLaunchPrefixMode {
    /// The modes in the order the settings list shows them.
    pub fn all() -> (r: Vec<PreLaunchPrefixMode>)
        ensures
            r@ == seq![
                PreLaunchPrefixMode::CombineGlobalLocal,
                PreLaunchPrefixMode::CombineLocalGlobal,
                PreLaunchPrefixMode::Disable,
                PreLaunchPrefixMode::Fallback,
            ],
    {
        vec![
            PreLaunchPrefixMode::CombineGlobalLocal,
            PreLaunchPrefixMode::CombineLocalGlobal,
            PreLaunchPrefixMode::Disable,
            PreLaunchPrefixMode::Fallback,
        ]
    }

    pub fn get_description(self) -> (res: &'static str)
        ensures
            self == PreLaunchPrefixMode::Fallback ==> res@ == "Use global prefix only when instance has no prefix"@,
            self == PreLaunchPrefixMode::Disable ==> res@ == "Use only instance prefix, ignore global prefix"@,
            self == PreLaunchPrefixMode::CombineGlobalLocal ==> res@ == "Combine global + instance prefix (global first, then instance)"@,
            self == PreLaunchPrefixMode::CombineLocalGlobal ==> res@ == "Combine instance + global prefix (instance first, then global)"@,
    {
        match self {
            PreLaunchPrefixMode::Fallback => "Use global prefix only when instance has no prefix",
            PreLaunchPrefixMode::Disable => "Use only instance prefix, ignore global prefix",
            PreLaunchPrefixMode::CombineGlobalLocal => "Combine global + instance prefix (global first, then instance)",
            PreLaunchPrefixMode::CombineLocalGlobal => "Combine instance + global prefix (instance first, then global)",
        }
    }

    /// The name the mode is shown under.
    pub fn label(self) -> (res: &'static str)
        ensures
            self == PreLaunchPrefixMode::Fallback ==> res@ == "Fallback"@,
            self == PreLaunchPrefixMode::Disable ==> res@ == "Disable"@,
            self == PreLaunchPrefixMode::CombineGlobalLocal ==> res@ == "Combine Global+Local (default)"@,
            self == PreLaunchPrefixMode::CombineLocalGlobal ==> res@ == "Combine Local+Global"@,
    {
        match self {
            PreLaunchPrefixMode::Fallback => "Fallback",
            PreLaunchPrefixMode::Disable => "Disable",
            PreLaunchPrefixMode::CombineGlobalLocal => "Combine Global+Local (default)",
            PreLaunchPrefixMode::CombineLocalGlobal => "Combine Local+Global",
        }
    }
}

/// Settings that an instance may set and the launcher may default.
pub struct GlobalSettings {
    pub window_width: Option<u32>,
    pub window_height: Option<u32>,
    /// Commands put in front of the launch command (such as `prime-run`).
    pub pre_launch_prefix: Option<Vec<String>>,
}

impl Default for GlobalSettings {
    fn default() -> (r: Self)
        ensures
            r.window_width is None,
            r.window_height is None,
            r.pre_launch_prefix is None,
    {
        GlobalSettings { window_width: None, window_height: None, pre_launch_prefix: None }
    }
}

/// The configuration of one instance (`config.json` in its folder).
pub struct InstanceConfigJson {
    /// `"Vanilla"`, `"Fabric"`, `"Forge"`, `"OptiFine"`, `"Quilt"` or `"NeoForge"`.
    pub mod_type: String,
    pub java_override: Option<String>,
    pub ram_in_mb: usize,
    pub enable_logger: Option<bool>,
    pub java_args: Option<Vec<String>>,
    pub game_args: Option<Vec<String>>,
    /// A field of old versions, kept as its JSON text.
    pub omniarchive: Option<String>,
    pub is_classic_server: Option<bool>,
    pub is_server: Option<bool>,
    pub do_gc_tuning: Option<bool>,
    pub close_on_start: Option<bool>,
    pub global_settings: Option<GlobalSettings>,
    pub java_args_mode: Option<JavaArgsMode>,
    pub pre_launch_prefix_mode: Option<PreLaunchPrefixMode>,
    pub custom_jar: Option<CustomJarConfig>,
}

/// Whether some argument is more than whitespace.
pub open spec fn meaningful(args: Seq<Seq<char>>) -> bool {
    exists|i: int| 0 <= i < args.len() && trim(#[trigger] args[i]).len() > 0
}

/// The arguments that are more than whitespace, unchanged, in order.
pub open spec fn nonblank(args: Seq<Seq<char>>) -> Seq<Seq<char>>
    decreases args.len(),
{
    if args.len() == 0 {
        args
    } else {
        nonblank(args.drop_last()) + (if trim(args.last()).len() > 0 { seq![args.last()] } else { seq![] })
    }
}

/// The arguments trimmed, without the ones that trim to nothing, in order.
pub open spec fn cleaned(args: Seq<Seq<char>>) -> Seq<Seq<char>>
    decreases args.len(),
{
    if args.len() == 0 {
        args
    } else {
        cleaned(args.drop_last()) + (if trim(args.last()).len() > 0 { seq![trim(args.last())] } else { seq![] })
    }
}

pub open spec fn opt_strs(v: Option<Vec<String>>) -> Option<Seq<Seq<char>>> {
    match v {
        Some(a) => Some(strs(a@)),
        None => None,
    }
}

/// The Java arguments to launch with, given the mode, the instance's
/// arguments and the global ones.
pub open spec fn java_args_for(
    mode: JavaArgsMode,
    instance: Option<Seq<Seq<char>>>,
    global: Seq<Seq<char>>,
) -> Seq<Seq<char>> {
    let has = instance is Some && meaningful(instance->0);
    match mode {
        JavaArgsMode::Fallback => if has { instance->0 } else { global },
        JavaArgsMode::Disable => if has { instance->0 } else { seq![] },
        JavaArgsMode::Combine => nonblank(global) + (if has { instance->0 } else { seq![] }),
    }
}

/// The arguments kept by `nonblank` are exactly the arguments that are
/// more than whitespace.
pub proof fn lemma_nonblank_members(args: Seq<Seq<char>>, x: Seq<char>)
    ensures
        nonblank(args).contains(x) <==> (args.contains(x) && trim(x).len() > 0),
    decreases args.len(),
{
    if args.len() > 0 {
        let p = args.drop_last();
        lemma_nonblank_members(p, x);
        let tail: Seq<Seq<char>> = if trim(args.last()).len() > 0 { seq![args.last()] } else { seq![] };
        vstd::seq_lib::lemma_seq_concat_contains_all_elements(nonblank(p), tail, x);
        vstd::seq_lib::lemma_seq_concat_contains_all_elements(p, seq![args.last()], x);
        assert(args =~= p + seq![args.last()]);
        assert(seq![args.last()].contains(x) <==> x == args.last()) by {
            if x == args.last() {
                assert(seq![args.last()][0] == x);
            }
        }
    }
}

/// In the combining mode (the default) the global Java arguments that are
/// more than whitespace always come first, in order, whatever the instance
/// has; the instance's own arguments follow them exactly when one of them
/// is more than whitespace, and otherwise nothing follows.
pub proof fn lemma_combine_keeps_global(instance: Option<Seq<Seq<char>>>, global: Seq<Seq<char>>)
    ensures
        java_args_for(JavaArgsMode::Combine, instance, global).len() >= nonblank(global).len(),
        java_args_for(JavaArgsMode::Combine, instance, global).take(nonblank(global).len() as int) == nonblank(global),
        java_args_for(JavaArgsMode::Combine, instance, global) == java_args_for(JavaArgsMode::Combine, None, global)
            + match instance {
                Some(a) => if meaningful(a) { a } else { seq![] },
                None => seq![],
            },
        java_args_for(JavaArgsMode::Combine, None, global) == nonblank(global),
{
    let r = java_args_for(JavaArgsMode::Combine, instance, global);
    assert(r.take(nonblank(global).len() as int) =~= nonblank(global));
    assert(java_args_for(JavaArgsMode::Combine, None, global) =~= nonblank(global));
}

/// The launch prefix, given the mode, the instance's and the global one
/// (both already cleaned).
pub open spec fn prefix_for(mode: PreLaunchPrefixMode, instance: Seq<Seq<char>>, global: Seq<Seq<char>>) -> Seq<Seq<char>> {
    match mode {
        PreLaunchPrefixMode::Fallback => if instance.len() == 0 { global } else { instance },
        PreLaunchPrefixMode::Disable => instance,
        PreLaunchPrefixMode::CombineGlobalLocal => global + instance,
        PreLaunchPrefixMode::CombineLocalGlobal => instance + global,
    }
}

pub open spec fn or_else(a: Option<u32>, b: Option<u32>) -> Option<u32> {
    match a {
        Some(x) => Some(x),
        None => b,
    }
}

/// Copies of the strings, with the blank ones left out.
pub fn nonblank_exec(v: &[String]) -> (res: Vec<String>)
    ensures
        strs(res@) == nonblank(strs(v@)),
{
    let mut out: Vec<String> = Vec::new();
    let mut i: usize = 0;
    while i < v.len()
        invariant
            i <= v@.len(),
            strs(out@) == nonblank(strs(v@).take(i as int)),
        decreases v@.len() - i,
    {
        proof {
            lemma_take_succ(strs(v@), i as int);
            assert(strs(v@).take(i as int + 1).drop_last() =~= strs(v@).take(i as int));
        }
        if !is_blank(v[i].as_str()) {
            let ghost prev = out@;
            out.push(v[i].clone());
            proof {
                lemma_map_push(prev, v@[i as int], |s: String| s@);
            }
        }
        assert(strs(out@) =~= nonblank(strs(v@).take(i as int + 1)));
        i = i + 1;
    }
    assert(strs(v@).take(v@.len() as int) =~= strs(v@));
    out
}

/// The strings trimmed, with the ones that trim to nothing left out.
pub fn cleaned_exec(v: &[String]) -> (res: Vec<String>)
    ensures
        strs(res@) == cleaned(strs(v@)),
{
    let mut out: Vec<String> = Vec::new();
    let mut i: usize = 0;
    while i < v.len()
        invariant
            i <= v@.len(),
            strs(out@) == cleaned(strs(v@).take(i as int)),
        decreases v@.len() - i,
    {
        proof {
            lemma_take_succ(strs(v@), i as int);
            assert(strs(v@).take(i as int + 1).drop_last() =~= strs(v@).take(i as int));
        }
        let t = trimmed(v[i].as_str());
        if t.as_str().unicode_len() > 0 {
            let ghost prev = out@;
            let ghost tv = t;
            out.push(t);
            proof {
                lemma_map_push(prev, tv, |s: String| s@);
            }
        }
        assert(strs(out@) =~= cleaned(strs(v@).take(i as int + 1)));
        i = i + 1;
    }
    assert(strs(v@).take(v@.len() as int) =~= strs(v@));
    out
}

/// Whether some string is more than whitespace.
pub fn any_meaningful(v: &[String]) -> (b: bool)
    ensures
        b == meaningful(strs(v@)),
{
    let mut i: usize = 0;
    while i < v.len()
        invariant
            i <= v@.len(),
            forall|k: int| 0 <= k < i ==> trim(#[trigger] strs(v@)[k]).len() == 0,
        decreases v@.len() - i,
    {
        if !is_blank(v[i].as_str()) {
            assert(trim(strs(v@)[i as int]).len() > 0);
            return true;
        }
        i = i + 1;
    }
    false
}

fn copy_strings(v: &[String]) -> (res: Vec<String>)
    ensures
        strs(res@) == strs(v@),
{
    let mut out: Vec<String> = Vec::new();
    let mut i: usize = 0;
    while i < v.len()
        invariant
            i <= v@.len(),
            strs(out@) == strs(v@).take(i as int),
        decreases v@.len() - i,
    {
        let ghost prev = out@;
        out.push(v[i].clone());
        proof {
            lemma_map_push(prev, v@[i as int], |s: String| s@);
            lemma_take_succ(strs(v@), i as int);
        }
        i = i + 1;
    }
    assert(strs(v@).take(v@.len() as int) =~= strs(v@));
    out
}

fn concat_strings(a: Vec<String>, b: Vec<String>) -> (res: Vec<String>)
    ensures
        strs(res@) == strs(a@) + strs(b@),
{
    let mut out = a;
    let mut b = b;
    let ghost a0 = out@;
    let ghost b0 = b@;
    out.append(&mut b);
    assert(strs(out@) =~= strs(a0) + strs(b0));
    out
}

/// The instance's own launch prefix list (empty when it has none).
pub open spec fn stored_prefix(c: InstanceConfigJson) -> Seq<String> {
    match c.global_settings {
        Some(g) => match g.pre_launch_prefix {
            Some(p) => p@,
            None => seq![],
        },
        None => seq![],
    }
}

/// A configuration with `p` as the instance's launch prefix list: its
/// settings created (no window size) when missing, everything else kept.
pub open spec fn with_prefix(c: InstanceConfigJson, p: Vec<String>) -> InstanceConfigJson {
    InstanceConfigJson {
        global_settings: Some(GlobalSettings {
            window_width: match c.global_settings {
                Some(g) => g.window_width,
                None => None,
            },
            window_height: match c.global_settings {
                Some(g) => g.window_height,
                None => None,
            },
            pre_launch_prefix: Some(p),
        }),
        ..c
    }
}

impl InstanceConfigJson {
    /// The Java argument that sets the heap size: `-Xmx<ram_in_mb>M`.
    pub fn get_ram_argument(&self) -> (res: String)
        ensures
            res@ == "-Xmx"@ + decimal(self.ram_in_mb as nat) + "M"@,
    {
        let mut out = chars_of("-Xmx");
        push_decimal(&mut out, self.ram_in_mb as u64);
        push_str_chars(&mut out, "M");
        string_of(out.as_slice())
    }

    /// The window size to launch with: the instance's setting, else the
    /// global one, per dimension.
    pub fn get_window_size(&self, global: Option<&GlobalSettings>) -> (r: (Option<u32>, Option<u32>))
        ensures
            r.0 == or_else(
                match self.global_settings { Some(g) => g.window_width, None => None },
                match global { Some(g) => g.window_width, None => None },
            ),
            r.1 == or_else(
                match self.global_settings { Some(g) => g.window_height, None => None },
                match global { Some(g) => g.window_height, None => None },
            ),
    {
        let lw = match &self.global_settings { Some(g) => g.window_width, None => None };
        let lh = match &self.global_settings { Some(g) => g.window_height, None => None };
        let gw = match global { Some(g) => g.window_width, None => None };
        let gh = match global { Some(g) => g.window_height, None => None };
        (match lw { Some(x) => Some(x), None => gw }, match lh { Some(x) => Some(x), None => gh })
    }

    /// The Java arguments to launch with (see [`JavaArgsMode`]); the
    /// instance's count only when one of them is more than whitespace.
    pub fn get_java_args(&self, global_args: &[String]) -> (res: Vec<String>)
        ensures
            strs(res@) == java_args_for(
                match self.java_args_mode { Some(m) => m, None => JavaArgsMode::Combine },
                opt_strs(self.java_args),
                strs(global_args@),
            ),
    {
        let mode = match self.java_args_mode { Some(m) => m, None => JavaArgsMode::Combine };
        let has = match &self.java_args { Some(a) => any_meaningful(a.as_slice()), None => false };
        match mode {
            JavaArgsMode::Fallback => {
                if has {
                    match &self.java_args { Some(a) => copy_strings(a.as_slice()), None => Vec::new() }
                } else {
                    copy_strings(global_args)
                }
            },
            JavaArgsMode::Disable => {
                if has {
                    match &self.java_args { Some(a) => copy_strings(a.as_slice()), None => Vec::new() }
                } else {
                    let r: Vec<String> = Vec::new();
                    assert(strs(r@) =~= seq![]);
                    r
                }
            },
            JavaArgsMode::Combine => {
                let g = nonblank_exec(global_args);
                let inst = if has {
                    match &self.java_args { Some(a) => copy_strings(a.as_slice()), None => Vec::new() }
                } else {
                    let r: Vec<String> = Vec::new();
                    assert(strs(r@) =~= seq![]);
                    r
                };
                concat_strings(g, inst)
            },
        }
    }

    /// The instance's own launch prefix list, created empty (together with
    /// the instance's settings) when missing.
    pub fn get_launch_prefix(&mut self) -> (res: &mut Vec<String>)
        ensures
            res@ == stored_prefix(*old(self)),
            *final(self) == with_prefix(*old(self), *final(res)),
    {
        if self.global_settings.is_none() {
            self.global_settings = Some(GlobalSettings::default());
        }
        match &mut self.global_settings {
            Some(g) => {
                if g.pre_launch_prefix.is_none() {
                    g.pre_launch_prefix = Some(Vec::new());
                }
                match &mut g.pre_launch_prefix {
                    Some(p) => p,
                    None => vstd::pervasive::unreached(),
                }
            },
            None => vstd::pervasive::unreached(),
        }
    }

    /// The launch prefix to use (see [`PreLaunchPrefixMode`]): both lists
    /// trimmed and without empty entries, then combined by the mode. Makes
    /// sure the instance has a (possibly empty) prefix list.
    pub fn setup_launch_prefix(&mut self, global_prefix: &[String]) -> (res: Vec<String>)
        ensures
            strs(res@) == prefix_for(
                match old(self).pre_launch_prefix_mode { Some(m) => m, None => PreLaunchPrefixMode::CombineGlobalLocal },
                cleaned(strs(match old(self).global_settings {
                    Some(g) => match g.pre_launch_prefix { Some(p) => p@, None => seq![] },
                    None => seq![],
                })),
                cleaned(strs(global_prefix@)),
            ),
            final(self).global_settings is Some,
            final(self).global_settings->0.pre_launch_prefix is Some,
            *final(self) == with_prefix(*old(self), final(self).global_settings->0.pre_launch_prefix->0),
            final(self).global_settings->0.pre_launch_prefix->0@ == stored_prefix(*old(self)),
    {
        let mode = match self.pre_launch_prefix_mode {
            Some(m) => m,
            None => PreLaunchPrefixMode::CombineGlobalLocal,
        };
        let prefix = self.get_launch_prefix();
        let instance_prefix = cleaned_exec(prefix.as_slice());
        let global = cleaned_exec(global_prefix);
        match mode {
            PreLaunchPrefixMode::Fallback => {
                if instance_prefix.len() == 0 {
                    global
                } else {
                    instance_prefix
                }
            },
            PreLaunchPrefixMode::Disable => instance_prefix,
            PreLaunchPrefixMode::CombineGlobalLocal => concat_strings(global, instance_prefix),
            PreLaunchPrefixMode::CombineLocalGlobal => concat_strings(instance_prefix, global),
        }
    }
}

/// Every entry of a cleaned list is trimmed and not empty.
proof fn lemma_cleaned_entries(args: Seq<Seq<char>>)
    ensures
        forall|k: int| 0 <= k < cleaned(args).len()
            ==> trim(#[trigger] cleaned(args)[k]).len() > 0 && trim(cleaned(args)[k]) == cleaned(args)[k],
    decreases args.len(),
{
    if args.len() > 0 {
        lemma_cleaned_entries(args.drop_last());
        let p = cleaned(args.drop_last());
        let c = cleaned(args);
        lemma_trim_idempotent(args.last());
        assert forall|k: int| 0 <= k < c.len() implies trim(#[trigger] c[k]).len() > 0 && trim(c[k]) == c[k] by {
            if k < p.len() {
                assert(c[k] == p[k]);
            }
        }
    }
}

/// A launch prefix holds no empty or whitespace-only command, and each of
/// its commands is trimmed, whatever the mode and the lists it combines.
pub proof fn lemma_prefix_commands_clean(mode: PreLaunchPrefixMode, instance: Seq<Seq<char>>, global: Seq<Seq<char>>)
    ensures
        forall|k: int| 0 <= k < prefix_for(mode, cleaned(instance), cleaned(global)).len() ==> ({
            let c = #[trigger] prefix_for(mode, cleaned(instance), cleaned(global))[k];
            trim(c).len() > 0 && trim(c) == c
        }),
{
    lemma_cleaned_entries(instance);
    lemma_cleaned_entries(global);
    let a = cleaned(instance);
    let b = cleaned(global);
    let r = prefix_for(mode, a, b);
    assert forall|k: int| 0 <= k < r.len() implies trim(#[trigger] r[k]).len() > 0 && trim(r[k]) == r[k] by {
        match mode {
            PreLaunchPrefixMode::CombineGlobalLocal => {
                if k < b.len() {
                    assert(r[k] == b[k]);
                } else {
                    assert(r[k] == a[k - b.len()]);
                }
            },
            PreLaunchPrefixMode::CombineLocalGlobal => {
                if k < a.len() {
                    assert(r[k] == a[k]);
                } else {
                    assert(r[k] == b[k - a.len()]);
                }
            },
            _ => {},
        }
    }
}

} // verus!
