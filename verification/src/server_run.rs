//! How a server is started: the Java version it needs, the arguments of
//! its Java process, and whether the launcher reads its output.
use vstd::prelude::*;

use crate::instance_config::InstanceConfigJson;
use crate::java::JavaVersion;
use crate::mods::{lemma_map_push, strs};
use crate::text::decimal;

verus! {

/// The Java version a server needs: the one its version details name,
/// else Java 8.
pub fn server_java_version(named: Option<JavaVersion>) -> (v: JavaVersion)
    ensures
        v == match named {
            Some(n) => n,
            None => JavaVersion::Java8,
        },
{
    match named {
        Some(n) => n,
        None => JavaVersion::Java8,
    }
}

/// Whether the launcher reads the server's output (and can send it
/// commands): unless the configuration turns the logger off.
pub fn pipes_output(enable_logger: Option<bool>) -> (b: bool)
    ensures
        b == match enable_logger {
            Some(x) => x,
            None => true,
        },
{
    match enable_logger {
        Some(x) => x,
        None => true,
    }
}

pub open spec fn or_empty(v: Option<Vec<String>>) -> Seq<Seq<char>> {
    match v {
        Some(a) => strs(a@),
        None => seq![],
    }
}

/// The arguments of a server's Java process: its Java arguments, the heap
/// size, `-jar` and the server jar, then its game arguments and `nogui`.
pub open spec fn server_args(config: InstanceConfigJson, jar_path: Seq<char>) -> Seq<Seq<char>> {
    or_empty(config.java_args) + seq!["-Xmx"@ + decimal(config.ram_in_mb as nat) + "M"@, "-jar"@, jar_path]
        + or_empty(config.game_args) + seq!["nogui"@]
}

fn push_copies(out: &mut Vec<String>, v: &Option<Vec<String>>)
    ensures
        strs(final(out)@) == strs(old(out)@) + or_empty(*v),
{
    if let Some(a) = v {
        let mut i: usize = 0;
        while i < a.len()
            invariant
                i <= a@.len(),
                strs(out@) == strs(old(out)@) + strs(a@).take(i as int),
            decreases a@.len() - i,
        {
            let ghost before = out@;
            out.push(a[i].clone());
            proof {
                lemma_map_push(before, a@[i as int], |s: String| s@);
                assert(strs(a@).take(i + 1) =~= strs(a@).take(i as int).push(a@[i as int]@));
                assert(strs(out@) =~= strs(old(out)@) + strs(a@).take(i + 1));
            }
            i = i + 1;
        }
        assert(strs(a@).take(a@.len() as int) =~= strs(a@));
    } else {
        assert(strs(out@) =~= strs(old(out)@) + seq![]);
    }
}

fn push_one(out: &mut Vec<String>, s: String)
    ensures
        strs(final(out)@) == strs(old(out)@).push(s@),
{
    let ghost before = out@;
    out.push(s);
    proof {
        lemma_map_push(before, s, |x: String| x@);
    }
}

/// The arguments to start a server's Java process with.
pub fn server_command_args(config: &InstanceConfigJson, jar_path: &str) -> (r: Vec<String>)
    ensures
        strs(r@) == server_args(*config, jar_path@),
{
    let mut out: Vec<String> = Vec::new();
    push_copies(&mut out, &config.java_args);
    let ram = config.get_ram_argument();
    push_one(&mut out, ram);
    push_one(&mut out, "-jar".to_owned());
    push_one(&mut out, jar_path.to_owned());
    push_copies(&mut out, &config.game_args);
    push_one(&mut out, "nogui".to_owned());
    assert(strs(out@) =~= server_args(*config, jar_path@));
    out
}

} // verus!
