use vstd::prelude::*;

use crate::text::{
    chars_of, eq_str, find_char, lemma_prefix_before, prefix_before, string_from, sub_chars,
    take_chars,
};

verus! {

pub open spec fn is_digit(c: char) -> bool {
    '0' <= c && c <= '9'
}

/// A non-empty run of decimal digits.
pub open spec fn is_digits(s: Seq<char>) -> bool {
    s.len() > 0 && forall|i: int| 0 <= i < s.len() ==> is_digit(#[trigger] s[i])
}

pub open spec fn digit_value(c: char) -> nat {
    (c as u32 - '0' as u32) as nat
}

/// The number that a run of decimal digits writes.
pub open spec fn decimal_value(s: Seq<char>) -> nat
    decreases s.len(),
{
    if s.len() == 0 {
        0
    } else {
        decimal_value(s.drop_last()) * 10 + digit_value(s.last())
    }
}

pub open spec fn digit_char(d: nat) -> char {
    seq!['0', '1', '2', '3', '4', '5', '6', '7', '8', '9'][d as int]
}

/// The decimal digits of `n`, without leading zeros.
pub open spec fn decimal(n: nat) -> Seq<char>
    decreases n,
{
    if n < 10 {
        seq![digit_char(n)]
    } else {
        decimal(n / 10).push(digit_char(n % 10))
    }
}

/// ASCII upper-case letters made lower-case; other characters kept.
pub open spec fn ascii_lower(s: Seq<char>) -> Seq<char> {
    s.map_values(|c: char| if 'A' <= c && c <= 'Z' { (((c as u8) + 32) as u8) as char } else { c })
}

/// For a lower-case unit name, the factor and the divisor that turn an
/// amount in it into MiB.
pub open spec fn unit_scale(u: Seq<char>) -> Option<(nat, nat)> {
    if u == "kib"@ {
        Some((1, 1024))
    } else if u == "mib"@ {
        Some((1, 1))
    } else if u == "gib"@ {
        Some((1024, 1))
    } else if u == "b"@ || u == "byte"@ || u == "bytes"@ {
        Some((1, 1048576))
    } else {
        None
    }
}

/// `num / den` written for display: with no decimals when its fractional
/// part is under 0.01 (the integer part), else rounded to one decimal,
/// ties to even.
pub open spec fn mib_text(num: nat, den: nat) -> Seq<char>
    recommends
        den > 0,
{
    if 100 * (num % den) < den {
        decimal(num / den)
    } else {
        let q = (10 * num) / den;
        let r = (10 * num) % den;
        let t = if 2 * r > den || (2 * r == den && q % 2 == 1) {
            q + 1
        } else {
            q
        };
        decimal(t / 10) + seq!['.'] + decimal(t % 10)
    }
}

/// An amount `amount / scale` in the given unit (any case) as MiB text,
/// or `None` for a unit that is not known.
pub open spec fn mib_of(amount: nat, scale: nat, unit: Seq<char>) -> Option<Seq<char>> {
    match unit_scale(ascii_lower(unit)) {
        Some(fd) => Some(mib_text(amount * fd.0, fd.1 * scale) + " MiB"@),
        None => None,
    }
}

pub open spec fn pow10(k: nat) -> nat
    decreases k,
{
    if k == 0 {
        1
    } else {
        10 * pow10((k - 1) as nat)
    }
}

/// A written memory amount as `(n, k)`, standing for `n / 10^k`: digits,
/// optionally followed by a point and more digits (at most 18). The digits
/// without the point must write a number below 2^64.
pub open spec fn memory_amount(s: Seq<char>) -> Option<(nat, nat)> {
    let ip = prefix_before(s, '.');
    if ip.len() == s.len() {
        if is_digits(s) && decimal_value(s) < 0x1_0000_0000_0000_0000 {
            Some((decimal_value(s), 0nat))
        } else {
            None
        }
    } else {
        let fp = s.subrange(ip.len() + 1 as int, s.len() as int);
        if is_digits(ip) && is_digits(fp) && fp.len() <= 18 && decimal_value(ip + fp)
            < 0x1_0000_0000_0000_0000 {
            Some((decimal_value(ip + fp), fp.len()))
        } else {
            None
        }
    }
}

/// A written memory amount (see `memory_amount`) in a unit ("KiB" when none
/// is given) as MiB text; `None` when the amount or the unit cannot be read.
pub open spec fn memory_mib(value: Seq<char>, unit: Option<Seq<char>>) -> Option<Seq<char>> {
    match memory_amount(value) {
        Some((n, k)) => mib_of(
            n,
            pow10(k),
            match unit {
                Some(u) => u,
                None => "KiB"@,
            },
        ),
        None => None,
    }
}

fn lower_ascii(s: &[char]) -> (r: Vec<char>)
    ensures
        r@ == ascii_lower(s@),
{
    let mut out: Vec<char> = Vec::new();
    let mut i: usize = 0;
    while i < s.len()
        invariant
            i <= s@.len(),
            out@ == ascii_lower(s@.take(i as int)),
        decreases s@.len() - i,
    {
        let c = s[i];
        let l = if 'A' <= c && c <= 'Z' {
            ((c as u8) + 32) as char
        } else {
            c
        };
        out.push(l);
        i = i + 1;
        assert(out@ =~= ascii_lower(s@.take(i as int)));
    }
    assert(s@.take(s@.len() as int) =~= s@);
    out
}

proof fn lemma_pow10_positive(k: nat)
    ensures
        pow10(k) >= 1,
    decreases k,
{
    if k > 0 {
        lemma_pow10_positive((k - 1) as nat);
    }
}

proof fn lemma_pow10_le(k: nat, m: nat)
    requires
        k <= m,
    ensures
        pow10(k) <= pow10(m),
    decreases m - k,
{
    if k < m {
        lemma_pow10_le(k, (m - 1) as nat);
        lemma_pow10_positive((m - 1) as nat);
    }
}

proof fn lemma_pow10_18()
    ensures
        pow10(18) == 1_000_000_000_000_000_000,
{
    reveal_with_fuel(pow10, 19);
}

proof fn lemma_digits_concat(a: Seq<char>, b: Seq<char>)
    ensures
        (is_digits(a) && is_digits(b)) ==> is_digits(a + b),
        (a.len() > 0 && b.len() > 0 && is_digits(a + b)) ==> is_digits(a) && is_digits(b),
{
    if a.len() > 0 && b.len() > 0 && is_digits(a + b) {
        assert forall|i: int| 0 <= i < a.len() implies is_digit(#[trigger] a[i]) by {
            assert((a + b)[i] == a[i]);
        }
        assert forall|i: int| 0 <= i < b.len() implies is_digit(#[trigger] b[i]) by {
            assert((a + b)[a.len() + i] == b[i]);
        }
    }
    if is_digits(a) && is_digits(b) {
        assert forall|i: int| 0 <= i < (a + b).len() implies is_digit(#[trigger] (a + b)[i]) by {
            if i < a.len() {
                assert(is_digit(a[i]));
            } else {
                assert(is_digit(b[i - a.len()]));
            }
        }
    }
}

/// Reads a written memory amount (see `memory_amount`).
fn read_amount(s: &[char]) -> (r: Option<(u64, usize)>)
    ensures
        match r {
            Some((n, k)) => memory_amount(s@) == Some((n as nat, k as nat)) && k <= 18,
            None => memory_amount(s@) is None,
        },
{
    let i = find_char(s, '.');
    if i == s.len() {
        assert(s@.take(i as int) =~= s@);
        return match parse_decimal(s) {
            Some(n) => Some((n, 0)),
            None => None,
        };
    }
    let ghost ip = s@.take(i as int);
    let ghost fp = s@.subrange(i as int + 1, s@.len() as int);
    let k = s.len() - i - 1;
    if i == 0 || k == 0 || k > 18 {
        assert(i == 0 ==> ip.len() == 0);
        assert(k == 0 ==> fp.len() == 0);
        return None;
    }
    let mut all = take_chars(s, i);
    let frac = sub_chars(s, i + 1, s.len());
    all.extend_from_slice(frac.as_slice());
    assert(all@ == ip + fp);
    proof {
        lemma_digits_concat(ip, fp);
    }
    match parse_decimal(all.as_slice()) {
        Some(n) => Some((n, k)),
        None => None,
    }
}

/// Reads a run of decimal digits whose value is below 2^64.
fn parse_decimal(s: &[char]) -> (r: Option<u64>)
    ensures
        match r {
            Some(n) => is_digits(s@) && n == decimal_value(s@),
            None => !(is_digits(s@) && decimal_value(s@) < 0x1_0000_0000_0000_0000),
        },
{
    if s.len() == 0 {
        return None;
    }
    let mut n: u64 = 0;
    let mut i: usize = 0;
    while i < s.len()
        invariant
            0 < s@.len(),
            i <= s@.len(),
            forall|k: int| 0 <= k < i ==> is_digit(#[trigger] s@[k]),
            n == decimal_value(s@.take(i as int)),
        decreases s@.len() - i,
    {
        assert(s@.take(i as int + 1).drop_last() =~= s@.take(i as int));
        let c = s[i];
        if !('0' <= c && c <= '9') {
            assert(!is_digit(s@[i as int]));
            return None;
        }
        let d = (c as u32 - '0' as u32) as u64;
        if n > (u64::MAX - d) / 10 {
            proof {
                assert(s@.take(i as int + 1).last() == c);
                assert(decimal_value(s@.take(i as int + 1)) == n * 10 + d);
                assert(n * 10 + d > u64::MAX) by (nonlinear_arith)
                    requires
                        n > (u64::MAX - d) / 10,
                        d <= 9,
                ;
                lemma_decimal_prefix_bound(s@, i as int + 1);
            }
            return None;
        }
        n = n * 10 + d;
        i = i + 1;
    }
    assert(s@.take(s@.len() as int) =~= s@);
    Some(n)
}

proof fn lemma_decimal_prefix_bound(s: Seq<char>, i: int)
    requires
        0 < i <= s.len(),
    ensures
        is_digits(s) ==> decimal_value(s) >= decimal_value(s.take(i)),
    decreases s.len() - i,
{
    if i < s.len() {
        lemma_decimal_prefix_bound(s.drop_last(), i);
        if is_digits(s) {
            assert(is_digits(s.drop_last())) by {
                assert forall|k: int| 0 <= k < s.len() - 1 implies is_digit(
                    #[trigger] s.drop_last()[k],
                ) by {
                    assert(is_digit(s[k]));
                }
            }
        }
        assert(s.drop_last().take(i) =~= s.take(i));
    } else {
        assert(s.take(i) =~= s);
    }
}

fn push_decimal(out: &mut Vec<char>, n: u128)
    ensures
        final(out)@ == old(out)@ + decimal(n as nat),
    decreases n,
{
    let digits = ['0', '1', '2', '3', '4', '5', '6', '7', '8', '9'];
    assert(digits@ =~= seq!['0', '1', '2', '3', '4', '5', '6', '7', '8', '9']);
    if n >= 10 {
        push_decimal(out, n / 10);
    }
    out.push(digits[(n % 10) as usize]);
    assert(out@ =~= old(out)@ + decimal(n as nat));
}

pub open spec fn opt_str_view(o: Option<&str>) -> Option<Seq<char>> {
    match o {
        Some(s) => Some(s@),
        None => None,
    }
}

pub open spec fn opt_string_view(o: Option<String>) -> Option<Seq<char>> {
    match o {
        Some(s) => Some(s@),
        None => None,
    }
}

/// Writes a memory amount given in a unit (KiB when none is given; the unit
/// is read without regard to ASCII case) in MiB, as "<amount> MiB".
pub fn convert_memory_to_mib(value: &str, unit: Option<&str>) -> (r: Option<String>)
    ensures
        opt_string_view(r) == memory_mib(value@, opt_str_view(unit)),
{
    let vc = chars_of(value);
    let (amount, k) = match read_amount(vc.as_slice()) {
        Some(ak) => ak,
        None => {
            return None;
        },
    };
    let mut p: u128 = 1;
    let mut j: usize = 0;
    proof {
        lemma_pow10_le(0, 18);
        lemma_pow10_18();
    }
    while j < k
        invariant
            j <= k <= 18,
            p == pow10(j as nat),
            p <= 1_000_000_000_000_000_000,
        decreases k - j,
    {
        proof {
            lemma_pow10_le((j + 1) as nat, 18);
            lemma_pow10_18();
        }
        p = p * 10;
        j = j + 1;
    }
    let u = match unit {
        Some(u) => chars_of(u),
        None => chars_of("KiB"),
    };
    let lu = lower_ascii(u.as_slice());
    let lus = lu.as_slice();
    let (f, d): (u128, u128) = if eq_str(lus, "kib") {
        (1, 1024)
    } else if eq_str(lus, "mib") {
        (1, 1)
    } else if eq_str(lus, "gib") {
        (1024, 1)
    } else if eq_str(lus, "b") || eq_str(lus, "byte") || eq_str(lus, "bytes") {
        (1, 1048576)
    } else {
        return None;
    };
    assert(unit_scale(ascii_lower(u@)) == Some((f as nat, d as nat)));
    proof {
        lemma_pow10_positive(k as nat);
    }
    assert(d * p <= 1048576 * 1_000_000_000_000_000_000 && d * p >= 1) by (nonlinear_arith)
        requires
            1 <= d <= 1048576,
            1 <= p <= 1_000_000_000_000_000_000u128,
    ;
    let den: u128 = d * p;
    assert(f <= 1024);
    assert(amount as u128 * f <= 0xffff_ffff_ffff_ffff * 1024) by (nonlinear_arith)
        requires
            f <= 1024,
            amount <= 0xffff_ffff_ffff_ffffu64,
    ;
    let num: u128 = amount as u128 * f;
    let mut out: Vec<char> = Vec::new();
    if 100 * (num % den) < den {
        push_decimal(&mut out, num / den);
    } else {
        let q = (10 * num) / den;
        let r = (10 * num) % den;
        let t = if 2 * r > den || (2 * r == den && q % 2 == 1) {
            q + 1
        } else {
            q
        };
        push_decimal(&mut out, t / 10);
        out.push('.');
        push_decimal(&mut out, t % 10);
    }
    out.extend_from_slice(chars_of(" MiB").as_slice());
    Some(string_from(out.as_slice()))
}

proof fn lemma_digit_char(d: nat)
    requires
        d < 10,
    ensures
        is_digit(digit_char(d)),
        digit_value(digit_char(d)) == d,
{
    let ds = seq!['0', '1', '2', '3', '4', '5', '6', '7', '8', '9'];
    assert(ds[0] == '0' && ds[1] == '1' && ds[2] == '2' && ds[3] == '3' && ds[4] == '4');
    assert(ds[5] == '5' && ds[6] == '6' && ds[7] == '7' && ds[8] == '8' && ds[9] == '9');
}

/// The decimal text of a number reads back as that number.
pub proof fn lemma_decimal_reads_back(n: nat)
    ensures
        is_digits(decimal(n)),
        decimal_value(decimal(n)) == n,
    decreases n,
{
    if n < 10 {
        lemma_digit_char(n);
        assert(decimal(n).drop_last() =~= seq![]);
        assert(decimal(n).last() == digit_char(n));
        assert(decimal_value(decimal(n)) == decimal_value(seq![]) * 10 + digit_value(digit_char(n)));
    } else {
        lemma_decimal_reads_back(n / 10);
        lemma_digit_char(n % 10);
        let s = decimal(n);
        assert(s.drop_last() =~= decimal(n / 10));
        assert(s.last() == digit_char(n % 10));
        assert(decimal_value(s) == (n / 10) * 10 + n % 10);
        assert forall|i: int| 0 <= i < s.len() implies is_digit(#[trigger] s[i]) by {
            if i < s.len() - 1 {
                assert(s[i] == decimal(n / 10)[i]);
            }
        }
    }
}

proof fn lemma_memory_of_decimal(n: nat, unit: Seq<char>)
    requires
        n < 0x1_0000_0000_0000_0000,
    ensures
        memory_mib(decimal(n), Some(unit)) == mib_of(n, 1, unit),
{
    let s = decimal(n);
    lemma_decimal_reads_back(n);
    assert forall|k: int| 0 <= k < s.len() implies s[k] != '.' by {
        assert(is_digit(s[k]));
    }
    lemma_prefix_before(s, '.', s.len() as int);
    assert(s.take(s.len() as int) =~= s);
    assert(pow10(0) == 1);
}

/// The same amount written in bytes, in KiB or in MiB gives the same text,
/// "<amount> MiB".
pub proof fn lemma_units_agree(n: nat)
    requires
        n * 1048576 < 0x1_0000_0000_0000_0000,
    ensures
        memory_mib(decimal(n * 1048576), Some("b"@)) == memory_mib(decimal(n * 1024), Some("KiB"@)),
        memory_mib(decimal(n * 1024), Some("KiB"@)) == memory_mib(decimal(n), Some("MiB"@)),
        memory_mib(decimal(n), Some("MiB"@)) == Some(decimal(n) + " MiB"@),
{
    lemma_memory_of_decimal(n * 1048576, "b"@);
    lemma_memory_of_decimal(n * 1024, "KiB"@);
    lemma_memory_of_decimal(n, "MiB"@);
    reveal_strlit("b");
    reveal_strlit("KiB");
    reveal_strlit("MiB");
    reveal_strlit("kib");
    reveal_strlit("mib");
    reveal_strlit("gib");
    assert(ascii_lower("b"@) =~= "b"@);
    assert(ascii_lower("KiB"@) =~= "kib"@);
    assert(ascii_lower("MiB"@) =~= "mib"@);
    vstd::arithmetic::div_mod::lemma_mod_multiples_basic(n as int, 1048576);
    vstd::arithmetic::div_mod::lemma_mod_multiples_basic(n as int, 1024);
    vstd::arithmetic::div_mod::lemma_div_multiples_vanish(n as int, 1048576);
    vstd::arithmetic::div_mod::lemma_div_multiples_vanish(n as int, 1024);
    assert((n * 1048576 * 1) / (1048576 * 1) == n);
    assert((n * 1024 * 1) / (1024 * 1) == n);
    assert("mib"@ != "kib"@) by {
        assert("mib"@[0] != "kib"@[0]);
    }
    assert(unit_scale(ascii_lower("MiB"@)) == Some((1nat, 1nat)));
    assert(n * 1 == n);
    assert(n % 1 == 0);
    assert(n / 1 == n);
    assert(mib_text(n * 1, 1 * 1) == decimal(n));
    assert(mib_text(n * 1024 * 1, 1024 * 1) == decimal(n));
}

} // verus!
