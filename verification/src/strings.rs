//! Trimming and terminal-escape removal on character sequences.
use vstd::prelude::*;
use crate::chars::{chars_of, string_from_chars};

verus! {

/// Characters with the Unicode `White_Space` property, which `char::is_whitespace`
/// and `str::trim` go by.
pub open spec fn is_white(c: char) -> bool {
    let u = c as u32;
    ||| (0x09 <= u && u <= 0x0d)
    ||| u == 0x20
    ||| u == 0x85
    ||| u == 0xa0
    ||| u == 0x1680
    ||| (0x2000 <= u && u <= 0x200a)
    ||| u == 0x2028
    ||| u == 0x2029
    ||| u == 0x202f
    ||| u == 0x205f
    ||| u == 0x3000
}

/// Whether `c` has the Unicode `White_Space` property.
pub fn is_white_char(c: char) -> (r: bool)
    ensures
        r == is_white(c),
{
    let u = c as u32;
    (0x09 <= u && u <= 0x0d) || u == 0x20 || u == 0x85 || u == 0xa0 || u == 0x1680 || (0x2000
        <= u && u <= 0x200a) || u == 0x2028 || u == 0x2029 || u == 0x202f || u == 0x205f || u
        == 0x3000
}

/// How many leading characters of `t` satisfy `p`.
pub open spec fn lead_by(t: Seq<char>, p: spec_fn(char) -> bool) -> nat
    decreases t.len(),
{
    if t.len() > 0 && p(t[0]) {
        1 + lead_by(t.drop_first(), p)
    } else {
        0
    }
}

/// How many trailing characters of `t` satisfy `p`.
pub open spec fn trail_by(t: Seq<char>, p: spec_fn(char) -> bool) -> nat
    decreases t.len(),
{
    if t.len() > 0 && p(t.last()) {
        1 + trail_by(t.drop_last(), p)
    } else {
        0
    }
}

/// `t` without its leading and trailing characters that satisfy `p`
/// (what `str::trim_matches` returns for a character predicate).
pub open spec fn trim_by(t: Seq<char>, p: spec_fn(char) -> bool) -> Seq<char> {
    let u = t.skip(lead_by(t, p) as int);
    u.take(u.len() - trail_by(u, p))
}

/// `t` without leading and trailing white space, as `str::trim` gives it.
pub open spec fn trim(t: Seq<char>) -> Seq<char> {
    trim_by(t, |c: char| is_white(c))
}

/// `t` without leading and trailing double quotes, as `trim_matches('"')` gives it.
pub open spec fn trim_quotes(t: Seq<char>) -> Seq<char> {
    trim_by(t, |c: char| c == '"')
}

proof fn lemma_lead_by_bound(t: Seq<char>, p: spec_fn(char) -> bool)
    ensures
        lead_by(t, p) <= t.len(),
    decreases t.len(),
{
    if t.len() > 0 && p(t[0]) {
        lemma_lead_by_bound(t.drop_first(), p);
    }
}

proof fn lemma_trail_by_bound(t: Seq<char>, p: spec_fn(char) -> bool)
    ensures
        trail_by(t, p) <= t.len(),
    decreases t.len(),
{
    if t.len() > 0 && p(t.last()) {
        lemma_trail_by_bound(t.drop_last(), p);
    }
}

/// Copies `v[from..to]`.
pub fn sub_chars(v: &Vec<char>, from: usize, to: usize) -> (r: Vec<char>)
    requires
        from <= to <= v.len(),
    ensures
        r@ == v@.subrange(from as int, to as int),
{
    let mut r: Vec<char> = Vec::new();
    let mut i = from;
    while i < to
        invariant
            from <= i <= to <= v.len(),
            r@ == v@.subrange(from as int, i as int),
        decreases to - i,
    {
        r.push(v[i]);
        assert(v@.subrange(from as int, i + 1) =~= v@.subrange(from as int, i as int).push(
            v@[i as int],
        ));
        i += 1;
    }
    r
}

fn test_char(c: char, quotes: bool) -> (r: bool)
    ensures
        r == (if quotes {
            c == '"'
        } else {
            is_white(c)
        }),
{
    if quotes {
        c == '"'
    } else {
        is_white_char(c)
    }
}

/// `v` trimmed of white space (`quotes == false`) or of double quotes (`quotes == true`).
fn trim_chars(v: &Vec<char>, quotes: bool) -> (r: Vec<char>)
    ensures
        !quotes ==> r@ == trim(v@),
        quotes ==> r@ == trim_quotes(v@),
{
    let ghost p: spec_fn(char) -> bool = if quotes {
        |c: char| c == '"'
    } else {
        |c: char| is_white(c)
    };
    assert(forall|c: char| #[trigger] p(c) == (if quotes { c == '"' } else { is_white(c) }));
    let n = v.len();
    let mut a: usize = 0;
    assert(v@.skip(0) =~= v@);
    while a < n
        invariant
            a <= n == v.len(),
            forall|c: char| #[trigger] p(c) == (if quotes { c == '"' } else { is_white(c) }),
            lead_by(v@, p) == a + lead_by(v@.skip(a as int), p),
        ensures
            a == n || !p(v@[a as int]),
        decreases n - a,
    {
        if !test_char(v[a], quotes) {
            break;
        }
        assert(v@.skip(a as int).drop_first() =~= v@.skip(a + 1));
        assert(v@.skip(a as int)[0] == v@[a as int]);
        assert(p(v@[a as int]));
        a += 1;
    }
    proof {
        if a < n {
            assert(v@.skip(a as int)[0] == v@[a as int]);
        }
        assert(lead_by(v@.skip(a as int), p) == 0);
    }
    let ghost u = v@.skip(a as int);
    let mut b: usize = n;
    assert(u =~= v@.subrange(a as int, n as int));
    while b > a
        invariant
            a <= b <= n == v.len(),
            forall|c: char| #[trigger] p(c) == (if quotes { c == '"' } else { is_white(c) }),
            u == v@.skip(a as int),
            trail_by(u, p) == (n - b) + trail_by(v@.subrange(a as int, b as int), p),
        ensures
            b == a || !p(v@[b - 1]),
        decreases b - a,
    {
        if !test_char(v[b - 1], quotes) {
            break;
        }
        let ghost w = v@.subrange(a as int, b as int);
        assert(w.last() == v@[b - 1]);
        assert(w.drop_last() =~= v@.subrange(a as int, b - 1));
        assert(p(v@[b - 1]));
        b -= 1;
    }
    proof {
        let w = v@.subrange(a as int, b as int);
        if b > a {
            assert(w.last() == v@[b - 1]);
        }
        assert(trail_by(w, p) == 0);
        assert(u.take(u.len() - trail_by(u, p)) =~= w);
        if quotes {
            assert(p == (|c: char| c == '"'));
        } else {
            assert(p == (|c: char| is_white(c)));
        }
    }
    sub_chars(v, a, b)
}

/// `v` without leading and trailing white space.
pub fn trim_white(v: &Vec<char>) -> (r: Vec<char>)
    ensures
        r@ == trim(v@),
{
    trim_chars(v, false)
}

/// `v` without leading and trailing double quotes.
pub fn trim_double_quotes(v: &Vec<char>) -> (r: Vec<char>)
    ensures
        r@ == trim_quotes(v@),
{
    trim_chars(v, true)
}

/// An ASCII letter, which ends a terminal control sequence.
pub open spec fn is_ascii_alpha(c: char) -> bool {
    ('a' <= c && c <= 'z') || ('A' <= c && c <= 'Z')
}

/// The index just past the control sequence whose parameters start at `j`:
/// past its first ASCII letter, or the end of `s` when none follows.
pub open spec fn csi_end(s: Seq<char>, j: int) -> int
    decreases s.len() - j,
{
    if j >= s.len() {
        s.len() as int
    } else if is_ascii_alpha(s[j]) {
        j + 1
    } else {
        csi_end(s, j + 1)
    }
}

proof fn lemma_csi_end_bound(s: Seq<char>, j: int)
    requires
        0 <= j,
    ensures
        j <= csi_end(s, j) <= s.len() || (j > s.len() && csi_end(s, j) == s.len()),
        j < s.len() ==> j < csi_end(s, j) <= s.len(),
    decreases s.len() - j,
{
    if j < s.len() && !is_ascii_alpha(s[j]) {
        lemma_csi_end_bound(s, j + 1);
    }
}

/// The text of `s` from index `i` on with terminal control sequences removed:
/// an escape character followed by `[` drops everything through the next
/// ASCII letter; an escape character without `[` is dropped alone.
pub open spec fn strip_ansi_from(s: Seq<char>, i: int) -> Seq<char>
    decreases s.len() - i, 0int,
{
    if i < 0 || i >= s.len() {
        Seq::empty()
    } else if s[i] == '\x1b' {
        if i + 1 < s.len() && s[i + 1] == '[' {
            let e = csi_end(s, i + 2);
            if i < e <= s.len() {
                strip_ansi_from(s, e)
            } else {
                Seq::empty()
            }
        } else {
            strip_ansi_from(s, i + 1)
        }
    } else {
        seq![s[i]] + strip_ansi_from(s, i + 1)
    }
}

/// `s` with terminal control sequences removed.
pub open spec fn strip_ansi(s: Seq<char>) -> Seq<char> {
    strip_ansi_from(s, 0)
}

/// Removes terminal colour and cursor control sequences from command output.
pub fn strip_ansi_codes(s: &str) -> (r: String)
    ensures
        r@ == strip_ansi(s@),
{
    let v = chars_of(s);
    let n = v.len();
    let mut out: Vec<char> = Vec::new();
    let mut i: usize = 0;
    while i < n
        invariant
            i <= n == v.len(),
            v@ == s@,
            strip_ansi(s@) == out@ + strip_ansi_from(s@, i as int),
        decreases n - i,
    {
        let c = v[i];
        if c == '\x1b' {
            if i + 1 < n && v[i + 1] == '[' {
                let mut j = i + 2;
                while j < n && !((v[j] >= 'a' && v[j] <= 'z') || (v[j] >= 'A' && v[j] <= 'Z'))
                    invariant
                        i + 2 <= j <= n == v.len(),
                        v@ == s@,
                        csi_end(s@, (i + 2) as int) == csi_end(s@, j as int),
                    decreases n - j,
                {
                    j += 1;
                }
                if j < n {
                    j += 1;
                }
                proof {
                    lemma_csi_end_bound(s@, (i + 2) as int);
                    assert(csi_end(s@, (i + 2) as int) == j as int);
                }
                i = j;
            } else {
                i += 1;
            }
        } else {
            out.push(c);
            proof {
                assert(strip_ansi_from(s@, i as int) == seq![c] + strip_ansi_from(
                    s@,
                    i + 1,
                ));
            }
            assert(out@ + strip_ansi_from(s@, i + 1) =~= strip_ansi(s@));
            i += 1;
        }
    }
    string_from_chars(&out)
}


/// The index of the first `c` in `s` at or after `i`, or the length of `s` when there is none.
pub open spec fn find_from(s: Seq<char>, c: char, i: int) -> int
    decreases s.len() - i,
{
    if i >= s.len() {
        s.len() as int
    } else if s[i] == c {
        i
    } else {
        find_from(s, c, i + 1)
    }
}

pub proof fn lemma_find_from(s: Seq<char>, c: char, i: int)
    requires
        0 <= i <= s.len(),
    ensures
        i <= find_from(s, c, i) <= s.len(),
        find_from(s, c, i) < s.len() ==> s[find_from(s, c, i)] == c,
        forall|j: int| i <= j < find_from(s, c, i) ==> s[j] != c,
    decreases s.len() - i,
{
    if i < s.len() && s[i] != c {
        lemma_find_from(s, c, i + 1);
    }
}

/// The pieces of `s` from `i` on between occurrences of `sep`, as `str::split` yields them.
pub open spec fn split_from(s: Seq<char>, sep: char, i: int) -> Seq<Seq<char>>
    decreases s.len() - i,
{
    let k = find_from(s, sep, i);
    if 0 <= i <= k < s.len() {
        seq![s.subrange(i, k)] + split_from(s, sep, k + 1)
    } else if 0 <= i <= s.len() {
        seq![s.subrange(i, s.len() as int)]
    } else {
        Seq::empty()
    }
}

/// `s` split at every `sep` (an empty `s` gives one empty piece).
pub open spec fn split_on(s: Seq<char>, sep: char) -> Seq<Seq<char>> {
    split_from(s, sep, 0)
}

/// A line without the carriage return that preceded its line feed.
pub open spec fn strip_cr(l: Seq<char>) -> Seq<char> {
    if l.len() > 0 && l.last() == '\r' {
        l.drop_last()
    } else {
        l
    }
}

/// The lines of `s` from `i` on, as `str::lines` yields them: split after each
/// line feed, the line feed and one carriage return before it removed; a final
/// line feed does not start an empty line.
pub open spec fn lines_from(s: Seq<char>, i: int) -> Seq<Seq<char>>
    decreases s.len() - i,
{
    let k = find_from(s, '\n', i);
    if 0 <= i <= k < s.len() {
        seq![strip_cr(s.subrange(i, k))] + lines_from(s, k + 1)
    } else if 0 <= i < s.len() {
        seq![s.subrange(i, s.len() as int)]
    } else {
        Seq::empty()
    }
}

/// The lines of `s`.
pub open spec fn lines_of(s: Seq<char>) -> Seq<Seq<char>> {
    lines_from(s, 0)
}

/// The index of the first `c` in `v` at or after `i`, or `v.len()`.
pub fn find_char(v: &Vec<char>, c: char, i: usize) -> (k: usize)
    requires
        i <= v.len(),
    ensures
        k == find_from(v@, c, i as int),
        i <= k <= v.len(),
{
    let mut j = i;
    while j < v.len() && v[j] != c
        invariant
            i <= j <= v.len(),
            find_from(v@, c, i as int) == find_from(v@, c, j as int),
        decreases v.len() - j,
    {
        j += 1;
    }
    j
}

/// Whether `t` begins with `p`.
pub open spec fn starts_with(t: Seq<char>, p: Seq<char>) -> bool {
    t.len() >= p.len() && t.take(p.len() as int) == p
}

/// Whether `t` ends with the character `c`.
pub open spec fn ends_with_char(t: Seq<char>, c: char) -> bool {
    t.len() > 0 && t.last() == c
}

/// Whether `t` begins with `p`.
pub fn chars_start_with(t: &Vec<char>, p: &str) -> (r: bool)
    ensures
        r == starts_with(t@, p@),
{
    let pv = chars_of(p);
    if t.len() < pv.len() {
        return false;
    }
    let mut i: usize = 0;
    while i < pv.len()
        invariant
            i <= pv.len() <= t.len(),
            pv@ == p@,
            forall|j: int| 0 <= j < i ==> t@[j] == pv@[j],
        decreases pv.len() - i,
    {
        if t[i] != pv[i] {
            assert(t@.take(pv.len() as int)[i as int] != p@[i as int]);
            return false;
        }
        i += 1;
    }
    assert(t@.take(pv.len() as int) =~= p@);
    true
}

/// Whether `t` ends with `c`.
pub fn chars_end_with(t: &Vec<char>, c: char) -> (r: bool)
    ensures
        r == ends_with_char(t@, c),
{
    t.len() > 0 && t[t.len() - 1] == c
}

/// Whether two character vectors are equal.
pub fn chars_eq(a: &Vec<char>, b: &Vec<char>) -> (r: bool)
    ensures
        r == (a@ == b@),
{
    if a.len() != b.len() {
        return false;
    }
    let mut i: usize = 0;
    while i < a.len()
        invariant
            i <= a.len() == b.len(),
            forall|j: int| 0 <= j < i ==> a@[j] == b@[j],
        decreases a.len() - i,
    {
        if a[i] != b[i] {
            return false;
        }
        i += 1;
    }
    assert(a@ =~= b@);
    true
}

} // verus!
