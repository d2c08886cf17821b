//! Keeping the launcher's folders small: which files of a folder over its
//! size limit are removed (the oldest first), and which cached assets no
//! installed instance uses any more.
use vstd::prelude::*;

use crate::mods::strs;
use crate::text::str_eq;

verus! {

/// The size limit of a cleaned folder: 100 MiB.
pub const SIZE_LIMIT_BYTES: u64 = 104857600;

/// The total size of the files among the first `n` that are not marked
/// gone. A file is `(size, age key)`; a smaller key is older.
pub open spec fn kept_size(files: Seq<(u64, u64)>, gone: Seq<bool>, n: int) -> nat
    decreases n,
{
    if n <= 0 {
        0
    } else {
        kept_size(files, gone, n - 1) + if gone[n - 1] { 0nat } else { files[n - 1].0 as nat }
    }
}

/// The files marked gone by a removal order.
pub open spec fn gone_by(order: Seq<usize>, n: nat) -> Seq<bool> {
    Seq::new(n, |i: int| order.contains(i as usize))
}

/// The total size of all files.
pub open spec fn total_size(files: Seq<(u64, u64)>) -> nat {
    kept_size(files, gone_by(seq![], files.len()), files.len() as int)
}

/// The total size of the files that a removal order leaves.
pub open spec fn left_after(files: Seq<(u64, u64)>, order: Seq<usize>) -> nat {
    kept_size(files, gone_by(order, files.len()), files.len() as int)
}

proof fn lemma_kept_update(files: Seq<(u64, u64)>, gone: Seq<bool>, j: int, n: int)
    requires
        0 <= j < n <= gone.len(),
        n <= files.len(),
        !gone[j],
    ensures
        kept_size(files, gone.update(j, true), n) + files[j].0 == kept_size(files, gone, n),
    decreases n,
{
    if n - 1 > j {
        lemma_kept_update(files, gone, j, n - 1);
    } else {
        lemma_kept_same(files, gone, gone.update(j, true), n - 1);
    }
}

proof fn lemma_kept_same(files: Seq<(u64, u64)>, a: Seq<bool>, b: Seq<bool>, n: int)
    requires
        n <= a.len(),
        n <= b.len(),
        forall|i: int| 0 <= i < n ==> a[i] == b[i],
    ensures
        kept_size(files, a, n) == kept_size(files, b, n),
    decreases n,
{
    if n > 0 {
        lemma_kept_same(files, a, b, n - 1);
    }
}

proof fn lemma_kept_all_gone(files: Seq<(u64, u64)>, gone: Seq<bool>, n: int)
    requires
        n <= gone.len(),
        forall|i: int| 0 <= i < n ==> gone[i],
    ensures
        kept_size(files, gone, n) == 0,
    decreases n,
{
    if n > 0 {
        lemma_kept_all_gone(files, gone, n - 1);
    }
}

/// Which files of a folder to remove so that what is left fits within
/// `limit`: nothing when the folder already fits, else the oldest files
/// (by age key), oldest first, and no more than needed.
pub fn cleanup_plan(files: &[(u64, u64)], limit: u64) -> (order: Vec<usize>)
    requires
        total_size(files@) <= u64::MAX,
    ensures
        forall|a: int| 0 <= a < order@.len() ==> (#[trigger] order@[a]) < files@.len(),
        forall|a: int, b: int| 0 <= a < b < order@.len() ==> order@[a] != order@[b],
        forall|a: int, b: int| 0 <= a < b < order@.len() ==> files@[order@[a] as int].1 <= files@[order@[b] as int].1,
        forall|a: int, j: int| 0 <= a < order@.len() && 0 <= j < files@.len() && !order@.contains(j as usize)
            ==> files@[#[trigger] order@[a] as int].1 <= #[trigger] files@[j].1,
        total_size(files@) <= limit ==> order@.len() == 0,
        total_size(files@) > limit ==> ({
            &&& left_after(files@, order@) <= limit
            &&& order@.len() > 0
            &&& left_after(files@, order@.drop_last()) > limit
        }),
{
    let n = files.len();
    let ghost none = gone_by(seq![], n as nat);
    let mut total: u64 = 0;
    let mut i: usize = 0;
    while i < n
        invariant
            i <= n,
            n == files@.len(),
            none == gone_by(seq![], n as nat),
            total == kept_size(files@, none, i as int),
            total_size(files@) <= u64::MAX,
        decreases n - i,
    {
        proof {
            lemma_kept_prefix_le(files@, none, i as int + 1, n as int);
            assert(!none[i as int]);
        }
        total = total + files[i].0;
        i = i + 1;
    }
    let mut order: Vec<usize> = Vec::new();
    if total <= limit {
        return order;
    }
    let mut gone: Vec<bool> = Vec::new();
    let mut k: usize = 0;
    while k < n
        invariant
            k <= n,
            gone@.len() == k,
            forall|m: int| 0 <= m < k ==> !gone@[m],
        decreases n - k,
    {
        gone.push(false);
        k = k + 1;
    }
    proof {
        lemma_kept_same(files@, gone@, none, n as int);
        assert(gone@ =~= gone_by(order@, n as nat));
    }
    let mut left: u64 = total;
    let ghost mut before: u64 = total;
    while left > limit
        invariant
            n == files@.len(),
            gone@.len() == n,
            gone@ == gone_by(order@, n as nat),
            left == kept_size(files@, gone@, n as int),
            total == total_size(files@),
            total > limit,
            order@.len() == 0 ==> left == total,
            order@.len() > 0 ==> before == left_after(files@, order@.drop_last()) && before > limit,
            forall|a: int| 0 <= a < order@.len() ==> (#[trigger] order@[a]) < n,
            forall|a: int, b: int| 0 <= a < b < order@.len() ==> order@[a] != order@[b],
            forall|a: int, b: int| 0 <= a < b < order@.len() ==> files@[order@[a] as int].1 <= files@[order@[b] as int].1,
            forall|a: int, j: int| 0 <= a < order@.len() && 0 <= j < n && !gone@[j]
                ==> files@[#[trigger] order@[a] as int].1 <= #[trigger] files@[j].1,
        decreases n - order@.len(),
    {
        let mut best: Option<usize> = None;
        let mut m: usize = 0;
        while m < n
            invariant
                m <= n,
                n == files@.len(),
                gone@.len() == n,
                match best {
                    Some(b) => b < n && !gone@[b as int] && forall|x: int| 0 <= x < m && !gone@[x] ==> files@[b as int].1 <= #[trigger] files@[x].1,
                    None => forall|x: int| 0 <= x < m ==> #[trigger] gone@[x],
                },
            decreases n - m,
        {
            if !gone[m] {
                match best {
                    Some(b) => {
                        if files[m].1 < files[b].1 {
                            best = Some(m);
                        }
                    },
                    None => {
                        best = Some(m);
                    },
                }
            }
            m = m + 1;
        }
        let j = match best {
            Some(b) => b,
            None => {
                proof {
                    lemma_kept_all_gone(files@, gone@, n as int);
                }
                return order;
            },
        };
        proof {
            lemma_kept_update(files@, gone@, j as int, n as int);
        }
        let ghost old_gone = gone@;
        let ghost old_order = order@;
        proof {
            before = left;
        }
        gone.set(j, true);
        order.push(j);
        left = left - files[j].0;
        proof {
            assert(!old_order.contains(j));
            assert forall|a: int, b: int| 0 <= a < b < order@.len() implies order@[a] != order@[b] by {
                if b == order@.len() - 1 {
                    assert(old_order[a] == order@[a]);
                }
            }
            lemma_gone_count(order@, n as nat);
            assert(order@.drop_last() =~= old_order);
            assert forall|x: int| 0 <= x < n implies gone@[x] == gone_by(order@, n as nat)[x] by {
                if old_order.contains(x as usize) {
                    let a = choose|a: int| 0 <= a < old_order.len() && old_order[a] == x as usize;
                    assert(order@[a] == x as usize);
                }
                if x == j as int {
                    assert(order@[order@.len() - 1] == j);
                }
                if order@.contains(x as usize) {
                    let a = choose|a: int| 0 <= a < order@.len() && order@[a] == x as usize;
                    if a < old_order.len() {
                        assert(old_order[a] == order@[a]);
                    }
                }
                assert(order@.contains(x as usize) <==> (old_order.contains(x as usize) || x == j));
            }
            assert(gone@ =~= gone_by(order@, n as nat));
        }
    }
    order
}

proof fn lemma_kept_prefix_le(files: Seq<(u64, u64)>, gone: Seq<bool>, i: int, n: int)
    requires
        0 <= i <= n <= gone.len(),
        n <= files.len(),
    ensures
        kept_size(files, gone, i) <= kept_size(files, gone, n),
    decreases n - i,
{
    if i < n {
        lemma_kept_prefix_le(files, gone, i, n - 1);
    }
}

/// Distinct positions below `n` are at most `n` many.
proof fn lemma_gone_count(order: Seq<usize>, n: nat)
    requires
        forall|a: int| 0 <= a < order.len() ==> (#[trigger] order[a]) < n,
        forall|a: int, b: int| 0 <= a < b < order.len() ==> order[a] != order[b],
    ensures
        order.len() <= n,
{
    let s = order.map_values(|x: usize| x as int);
    assert(s.no_duplicates());
    s.unique_seq_to_set();
    vstd::set_lib::lemma_int_range(0, n as int);
    assert forall|x: int| s.to_set().contains(x) implies vstd::set_lib::set_int_range(0, n as int).contains(x) by {
        let a = choose|a: int| 0 <= a < s.len() && s[a] == x;
        assert(order[a] < n);
    }
    vstd::set_lib::lemma_len_subset(s.to_set(), vstd::set_lib::set_int_range(0, n as int));
}

/// The names in `names` that `used` does not hold, by position.
pub open spec fn unused_positions(names: Seq<Seq<char>>, used: Seq<Seq<char>>, n: int) -> Seq<usize>
    decreases n,
{
    if n <= 0 {
        seq![]
    } else if used.contains(names[n - 1]) {
        unused_positions(names, used, n - 1)
    } else {
        unused_positions(names, used, n - 1).push((n - 1) as usize)
    }
}

fn holds(used: &[String], name: &String) -> (b: bool)
    ensures
        b == strs(used@).contains(name@),
{
    let mut i: usize = 0;
    while i < used.len()
        invariant
            i <= used@.len(),
            forall|k: int| 0 <= k < i ==> (#[trigger] used@[k])@ != name@,
        decreases used@.len() - i,
    {
        if str_eq(used[i].as_str(), name.as_str()) {
            assert(strs(used@)[i as int] == name@);
            return true;
        }
        i = i + 1;
    }
    assert forall|k: int| 0 <= k < strs(used@).len() implies strs(used@)[k] != name@ by {
        assert(strs(used@)[k] == used@[k]@);
    }
    false
}

/// Which of the cached files `names` to delete: those that nothing in
/// `used` names (asset indexes no instance uses, objects no index lists).
pub fn unused_files(names: &[String], used: &[String]) -> (res: Vec<usize>)
    ensures
        res@ == unused_positions(strs(names@), strs(used@), names@.len() as int),
{
    let mut out: Vec<usize> = Vec::new();
    let mut i: usize = 0;
    while i < names.len()
        invariant
            i <= names@.len(),
            out@ == unused_positions(strs(names@), strs(used@), i as int),
        decreases names@.len() - i,
    {
        assert(strs(names@)[i as int] == names@[i as int]@);
        if !holds(used, &names[i]) {
            out.push(i);
        }
        i = i + 1;
    }
    out
}

/// Whether a folder of cached objects stays: when some object in it is
/// still used (a folder left with nothing used is removed whole).
pub fn folder_still_used(names: &[String], used: &[String]) -> (b: bool)
    ensures
        b == exists|i: int| 0 <= i < names@.len() && strs(used@).contains(#[trigger] names@[i]@),
{
    let mut i: usize = 0;
    while i < names.len()
        invariant
            i <= names@.len(),
            forall|k: int| 0 <= k < i ==> !strs(used@).contains(#[trigger] names@[k]@),
        decreases names@.len() - i,
    {
        if holds(used, &names[i]) {
            return true;
        }
        i = i + 1;
    }
    false
}

/// The asset index file that an instance uses: `<id>.json`.
pub fn index_file_name(asset_index_id: &str) -> (res: String)
    ensures
        res@ == asset_index_id@ + ".json"@,
{
    let mut out = crate::text::chars_of(asset_index_id);
    crate::text::push_str_chars(&mut out, ".json");
    crate::text::string_of(out.as_slice())
}

} // verus!
