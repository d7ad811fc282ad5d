//! Decimal rendering of counts and file sizes for the image details page.
use vstd::prelude::*;
use crate::chars::{push_all, push_str, string_from_chars};
use vstd::arithmetic::div_mod::lemma_fundamental_div_mod;

verus! {

/// The character of a decimal digit `d` (0 to 9).
pub open spec fn digit_char(d: nat) -> char {
    ((('0' as int) + d) as char)
}

/// The decimal representation of `n`, most significant digit first, as `to_string` gives it.
pub open spec fn decimal(n: nat) -> Seq<char>
    decreases n,
{
    if n < 10 {
        seq![digit_char(n)]
    } else {
        decimal(n / 10).push(digit_char(n % 10))
    }
}

/// Digits with a comma before every group of three counted from the right.
pub open spec fn group_thousands(s: Seq<char>) -> Seq<char>
    decreases s.len(),
{
    if s.len() <= 3 {
        s
    } else {
        group_thousands(s.take(s.len() - 3)) + seq![','] + s.skip(s.len() - 3)
    }
}

/// The test that keeps every character but the group separator.
pub open spec fn not_separator() -> spec_fn(char) -> bool {
    |c: char| c != ','
}

proof fn lemma_filter_keeps_all(s: Seq<char>)
    requires
        !s.contains(','),
    ensures
        s.filter(not_separator()) == s,
    decreases s.len(),
{
    reveal(Seq::filter);
    if s.len() > 0 {
        assert(!s.drop_last().contains(',')) by {
            if s.drop_last().contains(',') {
                let j = choose|j: int| 0 <= j < s.drop_last().len() && s.drop_last()[j] == ',';
                assert(s[j] == ',');
            }
        }
        lemma_filter_keeps_all(s.drop_last());
        assert(s.last() != ',') by {
            if s.last() == ',' {
                assert(s[s.len() - 1] == ',');
            }
        }
        assert(s.drop_last().push(s.last()) =~= s);
    }
}

/// Removing the separators from grouped digits gives the digits back.
pub proof fn lemma_ungroup(s: Seq<char>)
    requires
        !s.contains(','),
    ensures
        group_thousands(s).filter(not_separator()) == s,
    decreases s.len(),
{
    if s.len() <= 3 {
        lemma_filter_keeps_all(s);
    } else {
        let n = s.len();
        let t = s.take(n - 3);
        let u = s.skip(n - 3);
        assert(!t.contains(',')) by {
            if t.contains(',') {
                let j = choose|j: int| 0 <= j < t.len() && t[j] == ',';
                assert(s[j] == ',');
            }
        }
        assert(!u.contains(',')) by {
            if u.contains(',') {
                let j = choose|j: int| 0 <= j < u.len() && u[j] == ',';
                assert(s[n - 3 + j] == ',');
            }
        }
        lemma_ungroup(t);
        lemma_filter_keeps_all(u);
        Seq::filter_distributes_over_add(group_thousands(t) + seq![','], u, not_separator());
        Seq::filter_distributes_over_add(group_thousands(t), seq![','], not_separator());
        reveal(Seq::filter);
        assert(seq![','].drop_last() =~= Seq::<char>::empty());
        assert(Seq::<char>::empty().filter(not_separator()) =~= Seq::<char>::empty());
        assert(!(not_separator())(','));
        assert(seq![','].last() == ',');
        assert(seq![','].filter(not_separator()) =~= Seq::<char>::empty());
        assert(t + u =~= s);
    }
}

proof fn lemma_decimal_digits_only(n: nat)
    ensures
        forall|i: int| 0 <= i < decimal(n).len() ==> '0' <= #[trigger] decimal(n)[i] <= '9',
    decreases n,
{
    if n >= 10 {
        lemma_decimal_digits_only(n / 10);
        let d = decimal(n / 10);
        assert forall|i: int| 0 <= i < decimal(n).len() implies '0' <= #[trigger] decimal(n)[i]
            <= '9' by {
            if i < d.len() {
                assert(decimal(n)[i] == d[i]);
            }
        }
    }
}

/// A number written with thousands separators reads as its plain decimal
/// digits once the separators are removed.
pub proof fn lemma_number_ungrouped(n: nat)
    ensures
        group_thousands(decimal(n)).filter(not_separator()) == decimal(n),
{
    lemma_decimal_digits_only(n);
    assert(!decimal(n).contains(',')) by {
        if decimal(n).contains(',') {
            let j = choose|j: int| 0 <= j < decimal(n).len() && decimal(n)[j] == ',';
            assert('0' <= decimal(n)[j] <= '9');
        }
    }
    lemma_ungroup(decimal(n));
}

/// The first `i` characters of `s` as the left-to-right grouping pass emits them.
spec fn grouped_prefix(s: Seq<char>, i: nat) -> Seq<char>
    decreases i,
{
    if i == 0 {
        Seq::empty()
    } else {
        let k = (i - 1) as nat;
        let sep: Seq<char> = if k > 0 && (s.len() - k) % 3 == 0 {
            seq![',']
        } else {
            Seq::empty()
        };
        grouped_prefix(s, k) + sep + seq![s[k as int]]
    }
}

proof fn lemma_grouped_prefix_short(s: Seq<char>, i: nat)
    requires
        i <= s.len() <= 3,
    ensures
        grouped_prefix(s, i) == s.take(i as int),
    decreases i,
{
    if i > 0 {
        lemma_grouped_prefix_short(s, (i - 1) as nat);
        assert(s.take(i as int) =~= s.take(i - 1).push(s[i - 1]));
    }
}

proof fn lemma_grouped_prefix_same(s: Seq<char>, t: Seq<char>, i: nat)
    requires
        s.len() >= 3,
        t == s.take(s.len() - 3),
        i <= t.len(),
    ensures
        grouped_prefix(s, i) == grouped_prefix(t, i),
    decreases i,
{
    if i > 0 {
        let k = (i - 1) as nat;
        lemma_grouped_prefix_same(s, t, k);
        assert((s.len() - k) % 3 == (t.len() - k) % 3);
    }
}

proof fn lemma_grouped_prefix_full(s: Seq<char>)
    ensures
        grouped_prefix(s, s.len()) == group_thousands(s),
    decreases s.len(),
{
    if s.len() <= 3 {
        lemma_grouped_prefix_short(s, s.len());
        assert(s.take(s.len() as int) =~= s);
    } else {
        let n = s.len();
        let t = s.take(n - 3);
        lemma_grouped_prefix_full(t);
        lemma_grouped_prefix_same(s, t, t.len());
        assert(grouped_prefix(s, (n - 3) as nat) == group_thousands(t));
        assert(grouped_prefix(s, (n - 2) as nat) == group_thousands(t) + seq![','] + seq![s[n - 3]]);
        assert(grouped_prefix(s, (n - 1) as nat) == grouped_prefix(s, (n - 2) as nat) + seq![s[n - 2]]);
        assert(grouped_prefix(s, n) == grouped_prefix(s, (n - 1) as nat) + seq![s[n - 1]]);
        assert(grouped_prefix(s, n) =~= group_thousands(t) + seq![','] + s.skip(n - 3));
    }
}

/// The decimal digits of `n`.
pub fn decimal_digits(n: u128) -> (v: Vec<char>)
    ensures
        v@ == decimal(n as nat),
    decreases n,
{
    let d = (n % 10) as u8;
    let c = ((48u8 + d) as char);
    assert(c == digit_char((n % 10) as nat));
    if n < 10 {
        let mut v = Vec::new();
        v.push(c);
        assert(v@ =~= seq![digit_char(n as nat)]);
        v
    } else {
        let mut v = decimal_digits(n / 10);
        v.push(c);
        v
    }
}

/// Inserts a comma before every group of three digits counted from the right.
pub fn group_digits(s: &Vec<char>) -> (r: Vec<char>)
    ensures
        r@ == group_thousands(s@),
{
    let n = s.len();
    let mut out: Vec<char> = Vec::new();
    let mut i: usize = 0;
    while i < n
        invariant
            i <= n,
            n == s.len(),
            out@ == grouped_prefix(s@, i as nat),
        decreases n - i,
    {
        if i > 0 && (n - i) % 3 == 0 {
            out.push(',');
        }
        out.push(s[i]);
        proof {
            let sep: Seq<char> = if i > 0 && (s@.len() - i) % 3 == 0 {
                seq![',']
            } else {
                Seq::empty()
            };
            assert(grouped_prefix(s@, (i + 1) as nat) == grouped_prefix(s@, i as nat) + sep
                + seq![s@[i as int]]);
            assert(out@ =~= grouped_prefix(s@, (i + 1) as nat));
        }
        i += 1;
    }
    proof {
        lemma_grouped_prefix_full(s@);
    }
    out
}

/// `num` in decimal with thousands separated by commas, e.g. `1234567` as `1,234,567`.
pub fn format_number(num: u64) -> (r: String)
    ensures
        r@ == group_thousands(decimal(num as nat)),
{
    let digits = decimal_digits(num as u128);
    let grouped = group_digits(&digits);
    string_from_chars(&grouped)
}


/// 2 to the 53rd: the integers below it are exactly representable as `f64`.
pub open spec fn two_pow_53() -> nat {
    9007199254740992
}

/// The spacing of `f64` values around `n`: the least power of two `p`
/// with `n / p` below 2 to the 53rd.
pub open spec fn f64_spacing(n: nat) -> nat
    decreases n,
{
    if n < two_pow_53() {
        1
    } else {
        2 * f64_spacing(n / 2)
    }
}

/// `num / den` rounded to the nearest integer, ties to the even one.
pub open spec fn round_half_even(num: nat, den: nat) -> nat {
    let q = num / den;
    let r = num % den;
    if 2 * r > den || (2 * r == den && q % 2 == 1) {
        q + 1
    } else {
        q
    }
}

/// The value that `n as f64` holds: `n` rounded to 53 significant bits, ties to even.
pub open spec fn f64_value(n: nat) -> nat {
    round_half_even(n, f64_spacing(n)) * f64_spacing(n)
}

/// Bytes in a kibibyte, mebibyte and gibibyte.
pub open spec fn kib() -> nat {
    1024
}

pub open spec fn mib() -> nat {
    1048576
}

pub open spec fn gib() -> nat {
    1073741824
}

/// `bytes as f64 / unit as f64` rounded to one decimal place, counted in tenths,
/// as `{:.1}` prints it (the quotient by a power of two is exact, the rounding
/// to a tenth goes half to even).
pub open spec fn size_tenths(bytes: nat, unit: nat) -> nat {
    round_half_even(f64_value(bytes) * 10, unit)
}

/// A count of tenths printed with exactly one decimal place.
pub open spec fn one_decimal(tenths: nat) -> Seq<char> {
    decimal(tenths / 10) + seq!['.', digit_char(tenths % 10)]
}

/// The size in the largest binary unit it reaches.
pub open spec fn size_in_unit(bytes: nat) -> Seq<char> {
    if bytes >= gib() {
        one_decimal(size_tenths(bytes, gib())) + " GB"@
    } else if bytes >= mib() {
        one_decimal(size_tenths(bytes, mib())) + " MB"@
    } else if bytes >= kib() {
        one_decimal(size_tenths(bytes, kib())) + " KB"@
    } else {
        decimal(bytes) + " B"@
    }
}

/// The full text shown for a file size: the size in its unit, then the exact byte count.
pub open spec fn file_size_text(bytes: nat) -> Seq<char> {
    size_in_unit(bytes) + " ("@ + group_thousands(decimal(bytes)) + " bytes)"@
}

fn f64_spacing_of(n: u64) -> (s: u128)
    ensures
        s == f64_spacing(n as nat),
        1 <= s,
        s <= 1 || s <= n,
    decreases n,
{
    if n < 9007199254740992 {
        1
    } else {
        let h = f64_spacing_of(n / 2);
        2 * h
    }
}

pub(crate) fn round_half_even_of(num: u128, den: u128) -> (r: u128)
    requires
        0 < den < 0x1_0000_0000_0000_0000_0000,
        num < 0x1_0000_0000_0000_0000_0000_0000,
    ensures
        r == round_half_even(num as nat, den as nat),
        r <= num / den + 1,
{
    let q = num / den;
    let r = num % den;
    if 2 * r > den || (2 * r == den && q % 2 == 1) {
        q + 1
    } else {
        q
    }
}

pub(crate) proof fn lemma_rounded_bound(n: nat, s: nat, q1: nat)
    requires
        s >= 1,
        q1 <= n / s + 1,
    ensures
        q1 * s <= n + s,
{
    lemma_fundamental_div_mod(n as int, s as int);
    let q = n / s;
    assert(q * s <= n) by (nonlinear_arith)
        requires
            n == s * q + n % s,
            n % s >= 0,
    ;
    assert(q1 * s <= q * s + s) by (nonlinear_arith)
        requires
            q1 <= q + 1,
            s >= 1,
    ;
}

/// `n as f64`, held exactly as an integer.
fn f64_value_of(n: u64) -> (v: u128)
    ensures
        v == f64_value(n as nat),
        v <= 2 * (n as nat) + 1,
{
    let s = f64_spacing_of(n);
    let q1 = round_half_even_of(n as u128, s);
    proof {
        lemma_rounded_bound(n as nat, s as nat, q1 as nat);
    }
    q1 * s
}

/// Appends `tenths` written with one decimal place.
fn push_one_decimal(out: &mut Vec<char>, tenths: u128)
    ensures
        final(out)@ == old(out)@ + one_decimal(tenths as nat),
{
    let whole = decimal_digits(tenths / 10);
    push_all(out, &whole);
    out.push('.');
    let d = (tenths % 10) as u8;
    out.push((48u8 + d) as char);
    assert(final(out)@ =~= old(out)@ + one_decimal(tenths as nat));
}

/// A file size for humans: `"2.5 MB (2,621,440 bytes)"`, or `"512 B (512 bytes)"`
/// below a kibibyte.
pub fn format_file_size(bytes: u64) -> (r: String)
    ensures
        r@ == file_size_text(bytes as nat),
{
    let mut out: Vec<char> = Vec::new();
    if bytes >= 1073741824 {
        let v = f64_value_of(bytes);
        let t = round_half_even_of(v * 10, 1073741824);
        push_one_decimal(&mut out, t);
        push_str(&mut out, " GB");
    } else if bytes >= 1048576 {
        let v = f64_value_of(bytes);
        let t = round_half_even_of(v * 10, 1048576);
        push_one_decimal(&mut out, t);
        push_str(&mut out, " MB");
    } else if bytes >= 1024 {
        let v = f64_value_of(bytes);
        let t = round_half_even_of(v * 10, 1024);
        push_one_decimal(&mut out, t);
        push_str(&mut out, " KB");
    } else {
        let d = decimal_digits(bytes as u128);
        push_all(&mut out, &d);
        push_str(&mut out, " B");
    }
    assert(out@ =~= size_in_unit(bytes as nat));
    push_str(&mut out, " (");
    let digits = decimal_digits(bytes as u128);
    let grouped = group_digits(&digits);
    push_all(&mut out, &grouped);
    push_str(&mut out, " bytes)");
    assert(out@ =~= file_size_text(bytes as nat));
    string_from_chars(&out)
}

} // verus!
