//! Text primitives shared by the launcher's logic: whitespace, trimming,
//! prefix tests, splitting on a separator, substring replacement and
//! decimal rendering, each with a mathematical model over `Seq<char>`.
use vstd::prelude::*;

verus! {

/// Unicode `White_Space`, the set that `char::is_whitespace` tests.
pub open spec fn is_ws(c: char) -> bool {
    let u = c as u32;
    (0x9 <= u && u <= 0xd) || u == 0x20 || u == 0x85 || u == 0xa0 || u == 0x1680
        || (0x2000 <= u && u <= 0x200a) || u == 0x2028 || u == 0x2029 || u == 0x202f
        || u == 0x205f || u == 0x3000
}

/// `s` with its leading whitespace removed.
pub open spec fn trim_start(s: Seq<char>) -> Seq<char>
    decreases s.len(),
{
    if s.len() > 0 && is_ws(s[0]) {
        trim_start(s.drop_first())
    } else {
        s
    }
}

/// `s` with its trailing whitespace removed.
pub open spec fn trim_end(s: Seq<char>) -> Seq<char>
    decreases s.len(),
{
    if s.len() > 0 && is_ws(s.last()) {
        trim_end(s.drop_last())
    } else {
        s
    }
}

/// What `str::trim` gives back.
pub open spec fn trim(s: Seq<char>) -> Seq<char> {
    trim_end(trim_start(s))
}

/// Whether `s` holds only whitespace (the empty sequence included).
pub open spec fn all_ws(s: Seq<char>) -> bool {
    forall|i: int| 0 <= i < s.len() ==> is_ws(#[trigger] s[i])
}

pub open spec fn starts_with(s: Seq<char>, p: Seq<char>) -> bool {
    p.len() <= s.len() && s.subrange(0, p.len() as int) == p
}

pub open spec fn ends_with(s: Seq<char>, p: Seq<char>) -> bool {
    p.len() <= s.len() && s.subrange(s.len() - p.len(), s.len() as int) == p
}

/// Whether `p` occurs in `s` as a contiguous run starting at `i`.
pub open spec fn occurs_at(s: Seq<char>, p: Seq<char>, i: int) -> bool {
    0 <= i && i + p.len() <= s.len() && s.subrange(i, i + p.len()) == p
}

/// Whether `p` occurs anywhere in `s` (what `str::contains` tests).
pub open spec fn contains_seq(s: Seq<char>, p: Seq<char>) -> bool {
    exists|i: int| occurs_at(s, p, i)
}

/// What `str::replace(from, to)` gives back: the leftmost occurrences of a
/// non-empty `from`, taken without overlap from left to right, are replaced.
pub open spec fn replace_all(s: Seq<char>, from: Seq<char>, to: Seq<char>) -> Seq<char>
    decreases s.len(),
{
    if from.len() == 0 || s.len() == 0 {
        s
    } else if starts_with(s, from) {
        to + replace_all(s.skip(from.len() as int), from, to)
    } else {
        seq![s[0]] + replace_all(s.drop_first(), from, to)
    }
}

/// Every `c` in `s` replaced by the sequence `to`.
pub open spec fn replace_char(s: Seq<char>, c: char, to: Seq<char>) -> Seq<char>
    decreases s.len(),
{
    if s.len() == 0 {
        s
    } else if s[0] == c {
        to + replace_char(s.drop_first(), c, to)
    } else {
        seq![s[0]] + replace_char(s.drop_first(), c, to)
    }
}

/// Number of occurrences of `c` in `s`.
pub open spec fn count_char(s: Seq<char>, c: char) -> nat
    decreases s.len(),
{
    if s.len() == 0 {
        0
    } else {
        (if s[0] == c { 1nat } else { 0nat }) + count_char(s.drop_first(), c)
    }
}

/// Index of the first `c` in `s`, or `s.len()` when there is none.
pub open spec fn first_index(s: Seq<char>, c: char) -> int
    decreases s.len(),
{
    if s.len() == 0 {
        0
    } else if s[0] == c {
        0
    } else {
        1 + first_index(s.drop_first(), c)
    }
}

/// The `k`-th piece of `s` split at `sep` (what `str::split(sep).nth(k)`
/// gives back when it exists).
pub open spec fn field(s: Seq<char>, sep: char, k: nat) -> Seq<char>
    decreases k,
{
    let i = first_index(s, sep);
    if k == 0 {
        s.take(i)
    } else {
        field(s.skip(i + 1), sep, (k - 1) as nat)
    }
}

/// Decimal digits of `n`, as `Display` renders an unsigned integer.
pub open spec fn decimal(n: nat) -> Seq<char>
    decreases n,
{
    if n < 10 {
        seq![digit_char(n)]
    } else {
        decimal(n / 10) + seq![digit_char(n % 10)]
    }
}

pub open spec fn digit_char(d: nat) -> char {
    if d == 0 { '0' }
    else if d == 1 { '1' }
    else if d == 2 { '2' }
    else if d == 3 { '3' }
    else if d == 4 { '4' }
    else if d == 5 { '5' }
    else if d == 6 { '6' }
    else if d == 7 { '7' }
    else if d == 8 { '8' }
    else { '9' }
}

/// The characters of a string slice, in order.
pub fn chars_of(s: &str) -> (res: Vec<char>)
    ensures
        res@ == s@,
{
    broadcast use vstd::string::group_string_axioms;

    let mut it = s.chars();
    let mut out: Vec<char> = Vec::new();
    loop
        invariant
            out@ + vstd::std_specs::iter::IteratorSpec::remaining(&it) == s@,
            vstd::std_specs::iter::IteratorSpec::obeys_prophetic_iter_laws(&it),
            vstd::std_specs::iter::IteratorSpec::decrease(&it) is Some,
        ensures
            out@ == s@,
        decreases vstd::std_specs::iter::IteratorSpec::decrease(&it)->0,
    {
        match it.next() {
            Some(c) => {
                out.push(c);
            },
            None => {
                break;
            },
        }
    }
    out
}

/// A `String` made of the given characters, in order: std's
/// `FromIterator<&char>` for `String`, which appends each character.
#[verifier::external_body]
pub(crate) fn string_of(v: &[char]) -> (res: String)
    ensures
        res@ == v@,
{
    v.iter().collect()
}

/// Whitespace test, with the same answer as `char::is_whitespace`.
pub fn is_whitespace(c: char) -> (b: bool)
    ensures
        b == is_ws(c),
{
    let u = c as u32;
    (0x9 <= u && u <= 0xd) || u == 0x20 || u == 0x85 || u == 0xa0 || u == 0x1680
        || (0x2000 <= u && u <= 0x200a) || u == 0x2028 || u == 0x2029 || u == 0x202f
        || u == 0x205f || u == 0x3000
}

proof fn lemma_trim_start_skip(s: Seq<char>, i: int)
    requires
        0 <= i <= s.len(),
        forall|j: int| 0 <= j < i ==> is_ws(#[trigger] s[j]),
    ensures
        trim_start(s) == trim_start(s.skip(i)),
    decreases i,
{
    if i > 0 {
        assert(s.drop_first().skip(i - 1) =~= s.skip(i));
        lemma_trim_start_skip(s.drop_first(), i - 1);
    } else {
        assert(s.skip(0) =~= s);
    }
}

proof fn lemma_trim_end_take(s: Seq<char>, j: int)
    requires
        0 <= j <= s.len(),
        forall|k: int| j <= k < s.len() ==> is_ws(#[trigger] s[k]),
    ensures
        trim_end(s) == trim_end(s.take(j)),
    decreases s.len() - j,
{
    if j < s.len() {
        assert(s.drop_last().take(j) =~= s.take(j));
        lemma_trim_end_take(s.drop_last(), j);
    } else {
        assert(s.take(j) =~= s);
    }
}

/// The model of `trim` as a subrange: the bounds are the first and one
/// past the last non-whitespace character.
pub proof fn lemma_trim_bounds(s: Seq<char>, i: int, j: int)
    requires
        0 <= i <= j <= s.len(),
        forall|k: int| 0 <= k < i ==> is_ws(#[trigger] s[k]),
        forall|k: int| j <= k < s.len() ==> is_ws(#[trigger] s[k]),
        i < j ==> !is_ws(s[i]) && !is_ws(s[j - 1]),
        i == j ==> j == s.len(),
    ensures
        trim(s) == s.subrange(i, j),
{
    lemma_trim_start_skip(s, i);
    if i < j {
        assert(trim_start(s.skip(i)) == s.skip(i));
    } else {
        assert(s.skip(i).len() == 0);
    }
    let t = s.skip(i);
    lemma_trim_end_take(t, j - i);
    let u = t.take(j - i);
    assert(u =~= s.subrange(i, j));
    if i < j {
        assert(u.last() == s[j - 1]);
    }
}

proof fn lemma_trim_start_shape(s: Seq<char>)
    ensures
        trim_start(s).len() == 0 || !is_ws(trim_start(s)[0]),
        forall|k: int| 0 <= k < trim_start(s).len() ==> s.contains(#[trigger] trim_start(s)[k]),
    decreases s.len(),
{
    if s.len() > 0 && is_ws(s[0]) {
        lemma_trim_start_shape(s.drop_first());
        let t = trim_start(s);
        assert forall|k: int| 0 <= k < t.len() implies s.contains(#[trigger] t[k]) by {
            let i = choose|i: int| 0 <= i < s.drop_first().len() && s.drop_first()[i] == t[k];
            assert(s[i + 1] == t[k]);
        }
    } else {
        assert forall|k: int| 0 <= k < s.len() implies s.contains(#[trigger] s[k]) by {}
    }
}

proof fn lemma_trim_end_shape(s: Seq<char>)
    ensures
        trim_end(s).len() == 0 || !is_ws(trim_end(s).last()),
        s.len() > 0 && !is_ws(s[0]) ==> trim_end(s).len() > 0 && trim_end(s)[0] == s[0],
        forall|k: int| 0 <= k < trim_end(s).len() ==> s.contains(#[trigger] trim_end(s)[k]),
    decreases s.len(),
{
    if s.len() > 0 && is_ws(s.last()) {
        lemma_trim_end_shape(s.drop_last());
        let t = trim_end(s);
        assert forall|k: int| 0 <= k < t.len() implies s.contains(#[trigger] t[k]) by {
            let i = choose|i: int| 0 <= i < s.drop_last().len() && s.drop_last()[i] == t[k];
            assert(s[i] == t[k]);
        }
    } else {
        assert forall|k: int| 0 <= k < s.len() implies s.contains(#[trigger] s[k]) by {}
    }
}

/// Trimmed text is either empty or starts and ends with a character that
/// is not whitespace, and holds only characters of the untrimmed text.
pub proof fn lemma_trim_shape(s: Seq<char>)
    ensures
        trim(s).len() == 0 || (!is_ws(trim(s)[0]) && !is_ws(trim(s).last())),
        forall|k: int| 0 <= k < trim(s).len() ==> s.contains(#[trigger] trim(s)[k]),
{
    let a = trim_start(s);
    lemma_trim_start_shape(s);
    lemma_trim_end_shape(a);
    let t = trim(s);
    assert forall|k: int| 0 <= k < t.len() implies s.contains(#[trigger] t[k]) by {
        let i = choose|i: int| 0 <= i < a.len() && a[i] == t[k];
        assert(a.contains(a[i]));
    }
}

/// Trimming twice is trimming once.
pub proof fn lemma_trim_idempotent(s: Seq<char>)
    ensures
        trim(trim(s)) == trim(s),
{
    lemma_trim_shape(s);
    let t = trim(s);
    assert(trim_start(t) == t);
    assert(trim_end(t) == t);
}

/// `trim` on a character sequence: the trimmed range, as bounds.
pub fn trim_bounds(v: &[char]) -> (r: (usize, usize))
    ensures
        r.0 <= r.1 <= v@.len(),
        trim(v@) == v@.subrange(r.0 as int, r.1 as int),
{
    let n = v.len();
    let mut i: usize = 0;
    while i < n && is_whitespace(v[i])
        invariant
            i <= n,
            n == v@.len(),
            forall|k: int| 0 <= k < i ==> is_ws(#[trigger] v@[k]),
        decreases n - i,
    {
        i = i + 1;
    }
    let mut j: usize = n;
    while j > i && is_whitespace(v[j - 1])
        invariant
            i <= j <= n,
            n == v@.len(),
            forall|k: int| j <= k < n ==> is_ws(#[trigger] v@[k]),
            i < n ==> !is_ws(v@[i as int]),
        decreases j,
    {
        j = j - 1;
    }
    proof {
        lemma_trim_bounds(v@, i as int, j as int);
    }
    (i, j)
}

/// `str::trim`, as a new `String`.
pub fn trimmed(s: &str) -> (res: String)
    ensures
        res@ == trim(s@),
{
    let v = chars_of(s);
    let (i, j) = trim_bounds(v.as_slice());
    string_of(&v.as_slice()[i..j])
}

/// Whether `str::trim` would leave `s` empty.
pub fn is_blank(s: &str) -> (b: bool)
    ensures
        b == (trim(s@).len() == 0),
{
    let v = chars_of(s);
    let (i, j) = trim_bounds(v.as_slice());
    i == j
}


/// Whether `p` occurs in `v` starting at position `i`.
pub fn occurs_at_exec(v: &[char], p: &[char], i: usize) -> (b: bool)
    requires
        i <= v@.len(),
    ensures
        b == occurs_at(v@, p@, i as int),
{
    if p.len() > v.len() - i {
        return false;
    }
    let mut k: usize = 0;
    while k < p.len()
        invariant
            k <= p@.len(),
            i <= v@.len(),
            v@.len() <= usize::MAX,
            i + p@.len() <= v@.len(),
            forall|m: int| 0 <= m < k ==> v@[i + m] == p@[m],
        decreases p@.len() - k,
    {
        if v[i + k] != p[k] {
            assert(v@.subrange(i as int, i + p@.len())[k as int] != p@[k as int]);
            return false;
        }
        k = k + 1;
    }
    assert(v@.subrange(i as int, i + p@.len()) =~= p@);
    true
}

/// `str::starts_with` on character slices.
pub fn starts_with_exec(v: &[char], p: &[char]) -> (b: bool)
    ensures
        b == starts_with(v@, p@),
{
    occurs_at_exec(v, p, 0)
}

/// `str::ends_with` on character slices.
pub fn ends_with_exec(v: &[char], p: &[char]) -> (b: bool)
    ensures
        b == ends_with(v@, p@),
{
    if p.len() > v.len() {
        false
    } else {
        occurs_at_exec(v, p, v.len() - p.len())
    }
}

/// `str::contains` on character slices.
pub fn contains_exec(v: &[char], p: &[char]) -> (b: bool)
    ensures
        b == contains_seq(v@, p@),
{
    if p.len() > v.len() {
        assert forall|i: int| !occurs_at(v@, p@, i) by {}
        return false;
    }
    let last = v.len() - p.len();
    let mut i: usize = 0;
    while i < last
        invariant
            p@.len() <= v@.len(),
            last == v@.len() - p@.len(),
            i <= last,
            forall|j: int| 0 <= j < i ==> !occurs_at(v@, p@, j),
        decreases last - i,
    {
        if occurs_at_exec(v, p, i) {
            return true;
        }
        i = i + 1;
    }
    if occurs_at_exec(v, p, last) {
        return true;
    }
    assert forall|j: int| !occurs_at(v@, p@, j) by {
        if j > last as int {
            assert(j + p@.len() > v@.len());
        }
    }
    false
}

proof fn lemma_starts_with_skip(s: Seq<char>, p: Seq<char>, i: int)
    requires
        0 <= i <= s.len(),
    ensures
        starts_with(s.skip(i), p) == occurs_at(s, p, i),
{
    if p.len() <= s.len() - i {
        assert(s.skip(i).subrange(0, p.len() as int) =~= s.subrange(i, i + p.len()));
    }
}

/// `str::replace` on character slices.
pub fn replace_all_exec(v: &[char], from: &[char], to: &[char]) -> (res: Vec<char>)
    ensures
        res@ == replace_all(v@, from@, to@),
{
    let mut out: Vec<char> = Vec::new();
    if from.len() == 0 {
        let mut k: usize = 0;
        while k < v.len()
            invariant
                k <= v@.len(),
                out@ == v@.take(k as int),
            decreases v@.len() - k,
        {
            out.push(v[k]);
            k = k + 1;
            assert(out@ =~= v@.take(k as int));
        }
        assert(v@.take(v@.len() as int) =~= v@);
        return out;
    }
    let mut i: usize = 0;
    assert(v@.skip(0) =~= v@);
    while i < v.len()
        invariant
            i <= v@.len(),
            from@.len() > 0,
            replace_all(v@, from@, to@) == out@ + replace_all(v@.skip(i as int), from@, to@),
        decreases v@.len() - i,
    {
        let ghost rest = v@.skip(i as int);
        proof {
            lemma_starts_with_skip(v@, from@, i as int);
        }
        if occurs_at_exec(v, from, i) {
            let mut k: usize = 0;
            let ghost before = out@;
            while k < to.len()
                invariant
                    k <= to@.len(),
                    out@ == before + to@.take(k as int),
                decreases to@.len() - k,
            {
                out.push(to[k]);
                k = k + 1;
                assert(out@ =~= before + to@.take(k as int));
            }
            assert(to@.take(to@.len() as int) =~= to@);
            assert(rest.skip(from@.len() as int) =~= v@.skip(i + from@.len()));
            assert(before + (to@ + replace_all(v@.skip(i + from@.len()), from@, to@))
                =~= out@ + replace_all(v@.skip(i + from@.len()), from@, to@));
            i = i + from.len();
        } else {
            let ghost before = out@;
            out.push(v[i]);
            assert(rest.drop_first() =~= v@.skip(i + 1));
            assert(before + (seq![rest[0]] + replace_all(v@.skip(i + 1), from@, to@))
                =~= out@ + replace_all(v@.skip(i + 1), from@, to@));
            i = i + 1;
        }
    }
    assert(out@ + replace_all(v@.skip(i as int), from@, to@) =~= out@);
    out
}

/// Every occurrence of `c` replaced by `to`.
pub fn replace_char_exec(v: &[char], c: char, to: &[char]) -> (res: Vec<char>)
    ensures
        res@ == replace_char(v@, c, to@),
{
    let mut out: Vec<char> = Vec::new();
    let mut i: usize = 0;
    assert(v@.skip(0) =~= v@);
    while i < v.len()
        invariant
            i <= v@.len(),
            replace_char(v@, c, to@) == out@ + replace_char(v@.skip(i as int), c, to@),
        decreases v@.len() - i,
    {
        let ghost rest = v@.skip(i as int);
        let ghost before = out@;
        assert(rest.drop_first() =~= v@.skip(i + 1));
        if v[i] == c {
            let mut k: usize = 0;
            while k < to.len()
                invariant
                    k <= to@.len(),
                    out@ == before + to@.take(k as int),
                decreases to@.len() - k,
            {
                out.push(to[k]);
                k = k + 1;
                assert(out@ =~= before + to@.take(k as int));
            }
            assert(to@.take(to@.len() as int) =~= to@);
            assert(before + (to@ + replace_char(v@.skip(i + 1), c, to@))
                =~= out@ + replace_char(v@.skip(i + 1), c, to@));
        } else {
            out.push(v[i]);
            assert(before + (seq![rest[0]] + replace_char(v@.skip(i + 1), c, to@))
                =~= out@ + replace_char(v@.skip(i + 1), c, to@));
        }
        i = i + 1;
    }
    assert(out@ + replace_char(v@.skip(i as int), c, to@) =~= out@);
    out
}

proof fn lemma_first_index(s: Seq<char>, c: char, o: int, j: int)
    requires
        0 <= o <= j <= s.len(),
        forall|m: int| o <= m < j ==> s[m] != c,
        j == s.len() || s[j] == c,
    ensures
        first_index(s.skip(o), c) == j - o,
    decreases j - o,
{
    if o < j {
        assert(s.skip(o).drop_first() =~= s.skip(o + 1));
        lemma_first_index(s, c, o + 1, j);
    }
}

/// Index of the first `c` at or after `o`, or the length when there is none.
pub fn find_char_from(v: &[char], c: char, o: usize) -> (j: usize)
    requires
        o <= v@.len(),
    ensures
        o <= j <= v@.len(),
        first_index(v@.skip(o as int), c) == j - o,
        forall|m: int| o <= m < j ==> v@[m] != c,
        j == v@.len() || v@[j as int] == c,
{
    let mut j = o;
    while j < v.len() && v[j] != c
        invariant
            o <= j <= v@.len(),
            forall|m: int| o <= m < j ==> v@[m] != c,
        decreases v@.len() - j,
    {
        j = j + 1;
    }
    proof {
        lemma_first_index(v@, c, o as int, j as int);
    }
    j
}

proof fn lemma_count_skip(s: Seq<char>, c: char, o: int, j: int)
    requires
        0 <= o <= j < s.len(),
        forall|m: int| o <= m < j ==> s[m] != c,
        s[j] == c,
    ensures
        count_char(s.skip(o), c) == 1 + count_char(s.skip(j + 1), c),
    decreases j - o,
{
    assert(s.skip(o).drop_first() =~= s.skip(o + 1));
    if o < j {
        lemma_count_skip(s, c, o + 1, j);
    }
}

/// Bounds of the `k`-th piece of `v` split at `sep`.
pub fn field_bounds(v: &[char], sep: char, k: usize) -> (r: (usize, usize))
    requires
        count_char(v@, sep) >= k,
    ensures
        r.0 <= r.1 <= v@.len(),
        field(v@, sep, k as nat) == v@.subrange(r.0 as int, r.1 as int),
{
    let mut o: usize = 0;
    let mut left: usize = k;
    assert(v@.skip(0) =~= v@);
    while left > 0
        invariant
            o <= v@.len(),
            left <= k,
            count_char(v@.skip(o as int), sep) >= left,
            field(v@, sep, k as nat) == field(v@.skip(o as int), sep, left as nat),
        decreases left,
    {
        let j = find_char_from(v, sep, o);
        if j == v.len() {
            proof {
                lemma_no_sep_count(v@.skip(o as int), sep);
            }
        }
        proof {
            lemma_count_skip(v@, sep, o as int, j as int);
            assert(v@.skip(o as int).skip(j - o + 1) =~= v@.skip(j + 1));
        }
        o = j + 1;
        left = left - 1;
    }
    let j = find_char_from(v, sep, o);
    assert(v@.skip(o as int).take(j - o) =~= v@.subrange(o as int, j as int));
    (o, j)
}

proof fn lemma_no_sep_count(s: Seq<char>, c: char)
    requires
        first_index(s, c) == s.len(),
    ensures
        count_char(s, c) == 0,
    decreases s.len(),
{
    if s.len() > 0 {
        lemma_no_sep_count(s.drop_first(), c);
    }
}

fn digit_of(d: u64) -> (c: char)
    requires
        d < 10,
    ensures
        c == digit_char(d as nat),
{
    if d == 0 { '0' }
    else if d == 1 { '1' }
    else if d == 2 { '2' }
    else if d == 3 { '3' }
    else if d == 4 { '4' }
    else if d == 5 { '5' }
    else if d == 6 { '6' }
    else if d == 7 { '7' }
    else if d == 8 { '8' }
    else { '9' }
}

/// Appends the decimal digits of `n`.
pub fn push_decimal(out: &mut Vec<char>, n: u64)
    ensures
        final(out)@ == old(out)@ + decimal(n as nat),
    decreases n,
{
    if n >= 10 {
        push_decimal(out, n / 10);
        let ghost mid = out@;
        out.push(digit_of(n % 10));
        assert(out@ =~= old(out)@ + (decimal((n / 10) as nat) + seq![digit_char((n % 10) as nat)]));
    } else {
        out.push(digit_of(n));
        assert(out@ =~= old(out)@ + decimal(n as nat));
    }
}

/// Appends every character of `s`.
pub fn push_all(out: &mut Vec<char>, s: &[char])
    ensures
        final(out)@ == old(out)@ + s@,
{
    let mut k: usize = 0;
    while k < s.len()
        invariant
            k <= s@.len(),
            out@ == old(out)@ + s@.take(k as int),
        decreases s@.len() - k,
    {
        out.push(s[k]);
        k = k + 1;
        assert(out@ =~= old(out)@ + s@.take(k as int));
    }
    assert(s@.take(s@.len() as int) =~= s@);
}

/// Appends every character of a string slice.
pub fn push_str_chars(out: &mut Vec<char>, s: &str)
    ensures
        final(out)@ == old(out)@ + s@,
{
    let v = chars_of(s);
    push_all(out, v.as_slice());
}

/// Equality of two strings by their characters.
pub fn str_eq(a: &str, b: &str) -> (r: bool)
    ensures
        r == (a@ == b@),
{
    let x = chars_of(a);
    let y = chars_of(b);
    if x.len() != y.len() {
        return false;
    }
    let mut i: usize = 0;
    while i < x.len()
        invariant
            i <= x@.len(),
            x@.len() == y@.len(),
            x@ == a@,
            y@ == b@,
            forall|k: int| 0 <= k < i ==> x@[k] == y@[k],
        decreases x@.len() - i,
    {
        if x[i] != y[i] {
            return false;
        }
        i = i + 1;
    }
    assert(x@ =~= y@);
    true
}


/// The first position at or after `i` where `p` occurs in `s`.
pub open spec fn find_from(s: Seq<char>, p: Seq<char>, i: int) -> Option<int>
    decreases s.len() + 1 - i,
{
    if i < 0 || i + p.len() > s.len() {
        None
    } else if occurs_at(s, p, i) {
        Some(i)
    } else {
        find_from(s, p, i + 1)
    }
}

/// What `str::find` gives back (as a position among the characters).
pub open spec fn find_first(s: Seq<char>, p: Seq<char>) -> Option<int> {
    find_from(s, p, 0)
}

/// `str::find` on character slices.
pub fn find_exec(v: &[char], p: &[char]) -> (r: Option<usize>)
    ensures
        match r {
            Some(i) => find_first(v@, p@) == Some(i as int) && occurs_at(v@, p@, i as int),
            None => find_first(v@, p@) is None,
        },
{
    if p.len() > v.len() {
        return None;
    }
    let last = v.len() - p.len();
    let mut i: usize = 0;
    while i < last
        invariant
            p@.len() <= v@.len(),
            last == v@.len() - p@.len(),
            i <= last,
            find_first(v@, p@) == find_from(v@, p@, i as int),
        decreases last - i,
    {
        if occurs_at_exec(v, p, i) {
            return Some(i);
        }
        i = i + 1;
    }
    if occurs_at_exec(v, p, last) {
        Some(last)
    } else {
        assert(find_from(v@, p@, last + 1) is None);
        None
    }
}

pub open spec fn is_digit(c: char) -> bool {
    48 <= c as u32 && c as u32 <= 57
}

/// The number that a run of decimal digits spells.
pub open spec fn digits_value(s: Seq<char>) -> nat
    decreases s.len(),
{
    if s.len() == 0 {
        0
    } else {
        (digits_value(s.drop_last()) * 10 + (s.last() as u32 - 48)) as nat
    }
}

/// A non-empty run of decimal digits.
pub open spec fn all_digits(s: Seq<char>) -> bool {
    s.len() > 0 && forall|i: int| 0 <= i < s.len() ==> is_digit(#[trigger] s[i])
}

/// What `str::parse::<i64>` gives back: an optional `+` or `-`, then one or
/// more decimal digits, with a value that fits.
pub open spec fn i64_value(s: Seq<char>) -> Option<int> {
    if s.len() > 0 && (s[0] == '-' || s[0] == '+') {
        if all_digits(s.drop_first()) {
            let v = if s[0] == '-' {
                -(digits_value(s.drop_first()) as int)
            } else {
                digits_value(s.drop_first()) as int
            };
            if i64::MIN <= v && v <= i64::MAX {
                Some(v)
            } else {
                None
            }
        } else {
            None
        }
    } else if all_digits(s) && digits_value(s) <= i64::MAX {
        Some(digits_value(s) as int)
    } else {
        None
    }
}

proof fn lemma_digits_prefix(t: Seq<char>, k: int)
    requires
        0 <= k <= t.len(),
        forall|i: int| 0 <= i < t.len() ==> is_digit(#[trigger] t[i]),
    ensures
        digits_value(t.take(k)) <= digits_value(t),
    decreases t.len() - k,
{
    if k < t.len() {
        lemma_digits_prefix(t, k + 1);
        assert(t.take(k + 1).drop_last() =~= t.take(k));
    } else {
        assert(t.take(k) =~= t);
    }
}

/// The value of the digits `v[start..]`: `None` when a character there is
/// not a digit or the value passes `u64::MAX`.
pub(crate) fn digits_u64(v: &[char], start: usize) -> (r: Option<u64>)
    requires
        start <= v@.len(),
    ensures
        r matches Some(m) ==> (forall|k: int| 0 <= k < v@.len() - start ==> is_digit(#[trigger] v@.skip(start as int)[k]))
            && m == digits_value(v@.skip(start as int)),
        r is None ==> !all_digits(v@.skip(start as int)) || digits_value(v@.skip(start as int)) > u64::MAX,
{
    let ghost t = v@.skip(start as int);
    let mut m: u64 = 0;
    let mut i: usize = start;
    while i < v.len()
        invariant
            start <= i <= v@.len(),
            t == v@.skip(start as int),
            forall|k: int| 0 <= k < i - start ==> is_digit(#[trigger] t[k]),
            m == digits_value(t.take(i - start)),
        decreases v@.len() - i,
    {
        let c = v[i];
        let u = c as u32;
        assert(t[i - start] == c);
        if !(48 <= u && u <= 57) {
            return None;
        }
        let d = (u - 48) as u64;
        assert(t.take(i - start + 1).drop_last() =~= t.take(i - start));
        assert(t.take(i - start + 1).last() == c);
        assert(digits_value(t.take(i - start + 1)) == m * 10 + d);
        let next = match m.checked_mul(10) {
            Some(m10) => m10.checked_add(d),
            None => None,
        };
        match next {
            Some(m2) => {
                m = m2;
            },
            None => {
                proof {
                    if all_digits(t) {
                        lemma_digits_prefix(t, i - start + 1);
                    }
                }
                return None;
            },
        }
        i = i + 1;
    }
    assert(t.take(i - start) =~= t);
    Some(m)
}

/// `str::parse::<i64>`.
pub fn parse_i64(s: &str) -> (r: Option<i64>)
    ensures
        match r {
            Some(v) => i64_value(s@) == Some(v as int),
            None => i64_value(s@) is None,
        },
{
    let v = chars_of(s);
    if v.len() == 0 {
        return None;
    }
    let signed = v[0] == '-' || v[0] == '+';
    let start: usize = if signed { 1 } else { 0 };
    proof {
        assert(v@.skip(0) =~= v@);
        assert(v@.skip(1) =~= v@.drop_first());
    }
    if start == v.len() {
        return None;
    }
    match digits_u64(v.as_slice(), start) {
        None => None,
        Some(m) => {
            if v[0] == '-' {
                if m <= 9223372036854775807 {
                    Some(-(m as i64))
                } else if m == 9223372036854775808 {
                    Some(i64::MIN)
                } else {
                    None
                }
            } else if m <= 9223372036854775807 {
                Some(m as i64)
            } else {
                None
            }
        },
    }
}


/// A line as `str::lines` gives it: without a carriage return that ended
/// it together with its newline.
pub open spec fn line_body(l: Seq<char>) -> Seq<char> {
    if l.len() > 0 && l.last() == '\r' {
        l.drop_last()
    } else {
        l
    }
}

/// What `str::lines` gives back: the pieces between newlines (a
/// carriage return before a newline taken off), with no empty piece after
/// a final newline.
pub open spec fn lines(s: Seq<char>) -> Seq<Seq<char>>
    decreases s.len(),
{
    if s.len() == 0 {
        seq![]
    } else {
        let i = first_index(s, '\n');
        if i >= s.len() {
            seq![s]
        } else {
            proof {
                lemma_first_index_bound(s, '\n');
            }
            seq![line_body(s.take(i))] + lines(s.skip(i + 1))
        }
    }
}

pub proof fn lemma_first_index_bound(s: Seq<char>, c: char)
    ensures
        0 <= first_index(s, c) <= s.len(),
        first_index(s, c) < s.len() ==> s[first_index(s, c)] == c,
        forall|m: int| 0 <= m < first_index(s, c) ==> s[m] != c,
    decreases s.len(),
{
    if s.len() > 0 && s[0] != c {
        lemma_first_index_bound(s.drop_first(), c);
        assert forall|m: int| 0 <= m < first_index(s, c) implies s[m] != c by {
            if m > 0 {
                assert(s[m] == s.drop_first()[m - 1]);
            }
        }
    }
}

/// The pieces joined with `sep` between them (what `join` gives back).
pub open spec fn join(ls: Seq<Seq<char>>, sep: Seq<char>) -> Seq<char>
    decreases ls.len(),
{
    if ls.len() == 0 {
        seq![]
    } else if ls.len() == 1 {
        ls[0]
    } else {
        join(ls.drop_last(), sep) + sep + ls.last()
    }
}

/// The lines of a text, as `str::lines` splits it.
pub fn lines_of(s: &str) -> (res: Vec<String>)
    ensures
        crate::mods::strs(res@) == lines(s@),
{
    let v = chars_of(s);
    let mut out: Vec<String> = Vec::new();
    let mut o: usize = 0;
    assert(v@.skip(0) =~= v@);
    while o < v.len()
        invariant
            o <= v@.len(),
            v@ == s@,
            crate::mods::strs(out@) + lines(v@.skip(o as int)) == lines(s@),
        decreases v@.len() - o,
    {
        let ghost rest = v@.skip(o as int);
        let j = find_char_from(v.as_slice(), '\n', o);
        let ghost prev = out@;
        if j == v.len() {
            let line = string_of(&v.as_slice()[o..j]);
            assert(line@ =~= rest);
            out.push(line);
            proof {
                crate::mods::lemma_map_push(prev, line, |x: String| x@);
            }
            assert(v@.skip(j as int) =~= seq![]);
            assert(crate::mods::strs(out@) + lines(v@.skip(j as int)) =~= crate::mods::strs(prev) + lines(rest));
            o = j;
        } else {
            let end = if j > o && v[j - 1] == '\r' { j - 1 } else { j };
            let line = string_of(&v.as_slice()[o..end]);
            assert(rest.take(j - o) =~= v@.subrange(o as int, j as int));
            assert(line@ =~= line_body(rest.take(j - o)));
            assert(rest.skip(j - o + 1) =~= v@.skip(j + 1));
            out.push(line);
            proof {
                crate::mods::lemma_map_push(prev, line, |x: String| x@);
            }
            assert(crate::mods::strs(out@) + lines(v@.skip(j + 1)) =~= crate::mods::strs(prev) + lines(rest));
            o = j + 1;
        }
    }
    assert(v@.skip(o as int) =~= seq![]);
    assert(crate::mods::strs(out@) + seq![] =~= crate::mods::strs(out@));
    out
}

/// The pieces joined with `sep` between them.
pub fn join_with(ls: &[String], sep: &str) -> (res: String)
    ensures
        res@ == join(crate::mods::strs(ls@), sep@),
{
    let mut out: Vec<char> = Vec::new();
    let mut i: usize = 0;
    while i < ls.len()
        invariant
            i <= ls@.len(),
            out@ == join(crate::mods::strs(ls@).take(i as int), sep@),
        decreases ls@.len() - i,
    {
        let ghost t = crate::mods::strs(ls@);
        assert(t.take(i + 1).drop_last() =~= t.take(i as int));
        if i > 0 {
            push_str_chars(&mut out, sep);
        }
        push_str_chars(&mut out, ls[i].as_str());
        proof {
            if i == 0 {
                assert(out@ =~= t.take(1)[0]);
            }
        }
        i = i + 1;
    }
    assert(crate::mods::strs(ls@).take(ls@.len() as int) =~= crate::mods::strs(ls@));
    string_of(out.as_slice())
}

/// Index of the first whitespace character of `s`, or its length.
pub open spec fn first_ws(s: Seq<char>) -> nat
    decreases s.len(),
{
    if s.len() == 0 || is_ws(s[0]) {
        0
    } else {
        1 + first_ws(s.drop_first())
    }
}

pub proof fn lemma_first_ws(s: Seq<char>)
    ensures
        first_ws(s) <= s.len(),
        forall|m: int| 0 <= m < first_ws(s) ==> !is_ws(#[trigger] s[m]),
        first_ws(s) < s.len() ==> is_ws(s[first_ws(s) as int]),
    decreases s.len(),
{
    if s.len() > 0 && !is_ws(s[0]) {
        lemma_first_ws(s.drop_first());
        assert forall|m: int| 0 <= m < first_ws(s) implies !is_ws(#[trigger] s[m]) by {
            if m > 0 {
                assert(s[m] == s.drop_first()[m - 1]);
            }
        }
    }
}

/// What `str::split_whitespace` gives back: the runs of characters
/// between whitespace, in order, none of them empty.
pub open spec fn words(s: Seq<char>) -> Seq<Seq<char>>
    decreases s.len(),
{
    if s.len() == 0 {
        seq![]
    } else if is_ws(s[0]) {
        words(s.drop_first())
    } else {
        proof {
            lemma_first_ws(s);
        }
        seq![s.take(first_ws(s) as int)] + words(s.skip(first_ws(s) as int))
    }
}

/// The whitespace-separated words of a text.
pub fn words_of(s: &str) -> (res: Vec<String>)
    ensures
        crate::mods::strs(res@) == words(s@),
{
    let v = chars_of(s);
    let mut out: Vec<String> = Vec::new();
    let mut o: usize = 0;
    assert(v@.skip(0) =~= v@);
    while o < v.len()
        invariant
            o <= v@.len(),
            v@ == s@,
            crate::mods::strs(out@) + words(v@.skip(o as int)) == words(s@),
        decreases v@.len() - o,
    {
        let ghost rest = v@.skip(o as int);
        if is_whitespace(v[o]) {
            assert(rest.drop_first() =~= v@.skip(o + 1));
            o = o + 1;
        } else {
            let mut j = o;
            while j < v.len() && !is_whitespace(v[j])
                invariant
                    o <= j <= v@.len(),
                    forall|m: int| o <= m < j ==> !is_ws(#[trigger] v@[m]),
                decreases v@.len() - j,
            {
                j = j + 1;
            }
            proof {
                lemma_first_ws(rest);
                lemma_first_ws_is(rest, (j - o) as nat);
            }
            let ghost prev = out@;
            let w = string_of(&v.as_slice()[o..j]);
            assert(w@ =~= rest.take(j - o));
            out.push(w);
            proof {
                crate::mods::lemma_map_push(prev, w, |x: String| x@);
            }
            assert(rest.skip(j - o) =~= v@.skip(j as int));
            assert(crate::mods::strs(out@) + words(v@.skip(j as int)) =~= crate::mods::strs(prev) + words(rest));
            o = j;
        }
    }
    assert(v@.skip(o as int) =~= seq![]);
    assert(crate::mods::strs(out@) + seq![] =~= crate::mods::strs(out@));
    out
}

proof fn lemma_first_ws_is(s: Seq<char>, k: nat)
    requires
        k <= s.len(),
        forall|m: int| 0 <= m < k ==> !is_ws(#[trigger] s[m]),
        k == s.len() || is_ws(s[k as int]),
    ensures
        first_ws(s) == k,
    decreases k,
{
    if k > 0 {
        assert forall|m: int| 0 <= m < k - 1 implies !is_ws(#[trigger] s.drop_first()[m]) by {
            assert(s.drop_first()[m] == s[m + 1]);
        }
        if k < s.len() {
            assert(s.drop_first()[k - 1] == s[k as int]);
        }
        lemma_first_ws_is(s.drop_first(), (k - 1) as nat);
    }
}

} // verus!
