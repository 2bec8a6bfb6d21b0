//! Character-level text helpers shared by the parsers of this crate.
use vstd::prelude::*;

verus! {

/// Unicode `White_Space`, the property that `char::is_whitespace` tests.
pub open spec fn is_ws(c: char) -> bool {
    let u = c as u32;
    ||| (0x09 <= u && u <= 0x0d)
    ||| u == 0x20
    ||| u == 0x85
    ||| u == 0xa0
    ||| u == 0x1680
    ||| (0x2000 <= u && u <= 0x200a)
    ||| u == 0x2028
    ||| u == 0x2029
    ||| u == 0x202f
    ||| u == 0x205f
    ||| u == 0x3000
}

/// Whether `c` is Unicode whitespace.
pub fn is_whitespace(c: char) -> (res: bool)
    ensures
        res == is_ws(c),
{
    let u = c as u32;
    (0x09 <= u && u <= 0x0d) || u == 0x20 || u == 0x85 || u == 0xa0 || u == 0x1680 || (0x2000
        <= u && u <= 0x200a) || u == 0x2028 || u == 0x2029 || u == 0x202f || u == 0x205f || u
        == 0x3000
}

/// A text holds nothing but whitespace (it trims to the empty string).
pub open spec fn is_blank(s: Seq<char>) -> bool {
    forall|i: int| 0 <= i < s.len() ==> is_ws(#[trigger] s[i])
}

/// Which characters a trim removes.
#[derive(Clone, Copy, PartialEq, Eq, Structural)]
pub enum TrimSet {
    /// Unicode whitespace, as `str::trim` removes.
    Whitespace,
    /// The double quote, as `str::trim_matches('"')` removes.
    Quote,
}

pub open spec fn trimmed_by(set: TrimSet, c: char) -> bool {
    match set {
        TrimSet::Whitespace => is_ws(c),
        TrimSet::Quote => c == '"',
    }
}

pub open spec fn trim_start(s: Seq<char>, set: TrimSet) -> Seq<char>
    decreases s.len(),
{
    if s.len() > 0 && trimmed_by(set, s[0]) {
        trim_start(s.drop_first(), set)
    } else {
        s
    }
}

pub open spec fn trim_end(s: Seq<char>, set: TrimSet) -> Seq<char>
    decreases s.len(),
{
    if s.len() > 0 && trimmed_by(set, s.last()) {
        trim_end(s.drop_last(), set)
    } else {
        s
    }
}

/// `s` with every leading and trailing character of `set` removed.
pub open spec fn trim(s: Seq<char>, set: TrimSet) -> Seq<char> {
    trim_end(trim_start(s, set), set)
}

/// `s` with leading and trailing whitespace removed, as `str::trim` gives it.
pub open spec fn trim_ws(s: Seq<char>) -> Seq<char> {
    trim(s, TrimSet::Whitespace)
}

proof fn lemma_trim_start_skip(s: Seq<char>, set: TrimSet, i: int)
    requires
        0 <= i <= s.len(),
        forall|k: int| 0 <= k < i ==> trimmed_by(set, #[trigger] s[k]),
    ensures
        trim_start(s, set) == trim_start(s.skip(i), set),
    decreases i,
{
    if i > 0 {
        assert(trimmed_by(set, s[0]));
        let t = s.drop_first();
        assert forall|k: int| 0 <= k < i - 1 implies trimmed_by(set, #[trigger] t[k]) by {
            assert(t[k] == s[k + 1]);
        }
        lemma_trim_start_skip(t, set, i - 1);
        assert(t.skip(i - 1) =~= s.skip(i));
    } else {
        assert(s.skip(0) =~= s);
    }
}

proof fn lemma_trim_end_take(s: Seq<char>, set: TrimSet, j: int)
    requires
        0 <= j <= s.len(),
        forall|k: int| j <= k < s.len() ==> trimmed_by(set, #[trigger] s[k]),
    ensures
        trim_end(s, set) == trim_end(s.take(j), set),
    decreases s.len() - j,
{
    if j < s.len() {
        assert(trimmed_by(set, s[s.len() - 1]));
        let t = s.drop_last();
        assert forall|k: int| j <= k < t.len() implies trimmed_by(set, #[trigger] t[k]) by {
            assert(t[k] == s[k]);
        }
        lemma_trim_end_take(t, set, j);
        assert(t.take(j) =~= s.take(j));
    } else {
        assert(s.take(j) =~= s);
    }
}

/// The characters of `s`, in order.
pub fn chars_of(s: &str) -> (res: Vec<char>)
    ensures
        res@ == s@,
{
    let mut out: Vec<char> = Vec::new();
    for c in it: s.chars()
        invariant
            out@ == it.seq().take(it.index() as int),
    {
        out.push(c);
    }
    out
}

fn in_trim_set(set: TrimSet, c: char) -> (res: bool)
    ensures
        res == trimmed_by(set, c),
{
    match set {
        TrimSet::Whitespace => is_whitespace(c),
        TrimSet::Quote => c == '"',
    }
}

/// `s` without its leading and trailing characters of `set`.
pub fn trim_str<'a>(s: &'a str, set: TrimSet) -> (res: &'a str)
    ensures
        res@ == trim(s@, set),
{
    let v = chars_of(s);
    let n = v.len();
    let mut i: usize = 0;
    while i < n && in_trim_set(set, v[i])
        invariant
            i <= n,
            n == v@.len(),
            v@ == s@,
            forall|k: int| 0 <= k < i ==> trimmed_by(set, #[trigger] v@[k]),
        decreases n - i,
    {
        i += 1;
    }
    let mut j: usize = n;
    while j > i && in_trim_set(set, v[j - 1])
        invariant
            i <= j <= n,
            n == v@.len(),
            v@ == s@,
            forall|k: int| j <= k < n ==> trimmed_by(set, #[trigger] v@[k]),
        decreases j,
    {
        j -= 1;
    }
    proof {
        let sv = s@;
        lemma_trim_start_skip(sv, set, i as int);
        let t = sv.skip(i as int);
        assert(trim_start(t, set) == t) by {
            if t.len() > 0 {
                assert(t[0] == sv[i as int]);
            }
        }
        assert forall|k: int| j - i <= k < t.len() implies trimmed_by(set, #[trigger] t[k]) by {
            assert(t[k] == sv[k + i]);
        }
        lemma_trim_end_take(t, set, j - i);
        let u = t.take(j - i);
        assert(trim_end(u, set) == u) by {
            if u.len() > 0 {
                assert(u.last() == sv[j - 1]);
            }
        }
        assert(u =~= sv.subrange(i as int, j as int));
    }
    s.substring_char(i, j)
}

/// Whether `s` holds only whitespace.
pub fn blank_str(s: &str) -> (res: bool)
    ensures
        res == is_blank(s@),
{
    let v = chars_of(s);
    let mut i: usize = 0;
    while i < v.len()
        invariant
            i <= v@.len(),
            v@ == s@,
            forall|k: int| 0 <= k < i ==> is_ws(#[trigger] v@[k]),
        decreases v@.len() - i,
    {
        if !is_whitespace(v[i]) {
            return false;
        }
        i += 1;
    }
    true
}

/// Whether two character sequences are equal.
pub fn chars_eq(a: &Vec<char>, b: &Vec<char>) -> (res: bool)
    ensures
        res == (a@ == b@),
{
    if a.len() != b.len() {
        return false;
    }
    let mut i: usize = 0;
    while i < a.len()
        invariant
            i <= a@.len(),
            a@.len() == b@.len(),
            forall|k: int| 0 <= k < i ==> a@[k] == b@[k],
        decreases a@.len() - i,
    {
        if a[i] != b[i] {
            return false;
        }
        i += 1;
    }
    assert(a@ =~= b@);
    true
}

/// Whether two strings hold the same characters.
pub fn str_eq(a: &str, b: &str) -> (res: bool)
    ensures
        res == (a@ == b@),
{
    chars_eq(&chars_of(a), &chars_of(b))
}

/// Whether the characters of `v` from `off` on are exactly those of `lit`.
pub fn rest_eq(v: &Vec<char>, off: usize, lit: &str) -> (res: bool)
    requires
        off <= v@.len(),
    ensures
        res == (v@.skip(off as int) == lit@),
{
    let l = chars_of(lit);
    if v.len() - off != l.len() {
        proof {
            assert(v@.skip(off as int).len() != lit@.len());
        }
        return false;
    }
    let mut i: usize = 0;
    while i < l.len()
        invariant
            off <= v@.len(),
            v@.len() <= usize::MAX,
            v@.len() - off == l@.len(),
            l@ == lit@,
            i <= l@.len(),
            forall|k: int| 0 <= k < i ==> v@[off + k] == l@[k],
        decreases l@.len() - i,
    {
        if v[off + i] != l[i] {
            proof {
                assert(v@.skip(off as int)[i as int] != lit@[i as int]);
            }
            return false;
        }
        i += 1;
    }
    assert(v@.skip(off as int) =~= lit@);
    true
}

/// `rest` starts with `label` and a space after it.
pub open spec fn label_then_space(rest: Seq<char>, label: Seq<char>) -> bool {
    &&& rest.len() > label.len()
    &&& rest.take(label.len() as int) == label
    &&& rest[label.len() as int] == ' '
}

/// Whether the characters of `v` from `off` on start with `label` followed by a space.
pub fn has_label_then_space(v: &Vec<char>, off: usize, label: &str) -> (res: bool)
    requires
        off <= v@.len(),
    ensures
        res == label_then_space(v@.skip(off as int), label@),
{
    let l = chars_of(label);
    let ghost rest = v@.skip(off as int);
    if v.len() - off <= l.len() {
        return false;
    }
    let mut i: usize = 0;
    while i < l.len()
        invariant
            off <= v@.len(),
            v@.len() <= usize::MAX,
            v@.len() - off > l@.len(),
            l@ == label@,
            rest == v@.skip(off as int),
            i <= l@.len(),
            forall|k: int| 0 <= k < i ==> v@[off + k] == l@[k],
        decreases l@.len() - i,
    {
        if v[off + i] != l[i] {
            proof {
                assert(rest.take(l@.len() as int)[i as int] != label@[i as int]);
            }
            return false;
        }
        i += 1;
    }
    assert(rest.take(l@.len() as int) =~= label@);
    v[off + l.len()] == ' '
}

/// Calls `String::push`, claimed to append `c` to the end of `s` and to
/// change nothing else.
#[verifier::external_body]
pub(crate) fn push_char(s: &mut String, c: char)
    ensures
        final(s)@ == old(s)@.push(c),
{
    s.push(c);
}

/// A string holding the characters `from..to` of `s`.
pub fn owned_substring(s: &str, from: usize, to: usize) -> (res: String)
    requires
        from <= to <= s@.len(),
    ensures
        res@ == s@.subrange(from as int, to as int),
{
    String::from_str(s.substring_char(from, to))
}

/// The index of the last `c` in `s`, or -1 when `s` holds none.
pub open spec fn last_index_of(s: Seq<char>, c: char) -> int
    decreases s.len(),
{
    if s.len() == 0 {
        -1
    } else if s.last() == c {
        s.len() - 1
    } else {
        last_index_of(s.drop_last(), c)
    }
}

/// What follows the last `c` in `s` (all of `s` when it holds none), the first
/// item that `s.rsplit(c)` yields.
pub open spec fn after_last(s: Seq<char>, c: char) -> Seq<char> {
    s.skip(last_index_of(s, c) + 1)
}

proof fn lemma_last_index_of(s: Seq<char>, c: char, j: int)
    requires
        0 <= j <= s.len(),
        forall|k: int| j <= k < s.len() ==> #[trigger] s[k] != c,
        j == 0 || s[j - 1] == c,
    ensures
        last_index_of(s, c) == j - 1,
    decreases s.len(),
{
    if s.len() > 0 && j < s.len() {
        let t = s.drop_last();
        assert forall|k: int| j <= k < t.len() implies #[trigger] t[k] != c by {
            assert(t[k] == s[k]);
        }
        if j > 0 {
            assert(t[j - 1] == s[j - 1]);
        }
        lemma_last_index_of(t, c, j);
    }
}

/// What follows the last `c` in `s`, as `s.rsplit(c).next()` yields it.
pub fn after_last_char<'a>(s: &'a str, c: char) -> (res: &'a str)
    ensures
        res@ == after_last(s@, c),
{
    let v = chars_of(s);
    let n = v.len();
    let mut j: usize = n;
    while j > 0 && v[j - 1] != c
        invariant
            j <= n,
            n == v@.len(),
            v@ == s@,
            forall|k: int| j <= k < n ==> #[trigger] v@[k] != c,
        decreases j,
    {
        j -= 1;
    }
    proof {
        lemma_last_index_of(s@, c, j as int);
        assert(s@.skip(j as int) =~= s@.subrange(j as int, n as int));
    }
    s.substring_char(j, n)
}

/// The items of `parts` with `sep` between each two, as `[String]::join` gives them.
pub open spec fn join(parts: Seq<Seq<char>>, sep: Seq<char>) -> Seq<char>
    decreases parts.len(),
{
    if parts.len() == 0 {
        Seq::empty()
    } else if parts.len() == 1 {
        parts[0]
    } else {
        join(parts.drop_last(), sep) + sep + parts.last()
    }
}

/// The character views of a sequence of strings.
pub open spec fn views(v: Seq<String>) -> Seq<Seq<char>> {
    v.map_values(|s: String| s@)
}

/// The items of `parts` joined by `sep`.
pub fn join_strings(parts: &Vec<String>, sep: &str) -> (res: String)
    ensures
        res@ == join(views(parts@), sep@),
{
    let mut out = String::new();
    let ghost ps = views(parts@);
    let mut i: usize = 0;
    while i < parts.len()
        invariant
            i <= parts@.len(),
            ps == views(parts@),
            out@ == join(ps.take(i as int), sep@),
        decreases parts@.len() - i,
    {
        proof {
            assert(ps.take(i + 1).drop_last() =~= ps.take(i as int));
            assert(ps.take(i + 1).last() == parts@[i as int]@);
        }
        if i > 0 {
            out.append(sep);
        } else {
            assert(ps.take(1)[0] == parts@[0]@);
        }
        out.append(parts[i].as_str());
        i += 1;
    }
    assert(ps.take(parts@.len() as int) =~= ps);
    out
}

} // verus!
