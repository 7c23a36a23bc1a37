//! Fixed-point renderings of byte counts. A byte count divided by a power of
//! two and printed with one or two decimals is computed here exactly in
//! integers: the count is first rounded to the nearest value with a 53-bit
//! significand (ties to even), as a conversion to a double does, and the
//! quotient is rounded to the printed precision, ties to even.

use vstd::prelude::*;
use crate::text::{
    all_digits, chars_of, decimal, digit, digit_char, is_digit, push_char, push_decimal,
    push_decimal_wide, push_str, without_char,
};

verus! {

/// `n / d` rounded to the nearest integer, ties to the even neighbour.
pub open spec fn round_half_even(n: nat, d: nat) -> nat {
    let q = n / d;
    let r = n % d;
    if 2 * r > d || (2 * r == d && q % 2 == 1) {
        q + 1
    } else {
        q
    }
}

pub open spec fn two_pow_53() -> nat {
    0x20_0000_0000_0000
}

/// `b` rounded at the scale `d` (a power of two) and above: the nearest value
/// that has at most 53 significant bits, ties to even.
pub open spec fn significand_round(b: nat, d: nat) -> nat
    decreases 2 * b + 2 - d,
    when d >= 1
{
    if b / d < two_pow_53() {
        round_half_even(b, d) * d
    } else {
        proof {
            lemma_div_at_least_one(b, d);
        }
        significand_round(b, d * 2)
    }
}

pub proof fn lemma_div_at_least_one(b: nat, d: nat)
    requires
        d >= 1,
        b / d >= 1,
    ensures
        d <= b,
{
    assert(d <= b) by (nonlinear_arith)
        requires
            d >= 1,
            b / d >= 1,
    ;
}

/// The value of `b` as a double.
pub open spec fn double_value(b: u64) -> nat {
    significand_round(b as nat, 1)
}

fn round_half_even_exec(n: u128, d: u128) -> (q: u128)
    requires
        d > 0,
        n / d < u128::MAX,
    ensures
        q == round_half_even(n as nat, d as nat),
{
    let q = n / d;
    let r = n % d;
    if r > d - r || (r == d - r && q % 2 == 1) {
        q + 1
    } else {
        q
    }
}

/// The value of `b` as a double, exactly.
pub fn double_of(b: u64) -> (v: u128)
    ensures
        v == double_value(b),
        v <= 0x40_0000_0000_0000_0000_0000_0000_0000,
{
    let n = b as u128;
    let mut d: u128 = 1;
    while n / d >= 0x20_0000_0000_0000
        invariant
            1 <= d <= 2 * n + 1,
            n == b,
            significand_round(n as nat, d as nat) == significand_round(n as nat, 1),
        decreases 2 * n + 2 - d,
    {
        proof {
            lemma_div_at_least_one(n as nat, d as nat);
        }
        d = d * 2;
    }
    let q = round_half_even_exec(n, d);
    assert(q <= 0x20_0000_0000_0000);
    assert(q * d <= 0x20_0000_0000_0000 * (2 * n + 1)) by (nonlinear_arith)
        requires
            q <= 0x20_0000_0000_0000,
            d <= 2 * n + 1,
    ;
    assert(0x20_0000_0000_0000 * (2 * n + 1) <= 0x40_0000_0000_0000_0000_0000_0000_0000);
    q * d
}

/// `t` tenths as `<units>.<tenths>`.
pub open spec fn one_decimal(t: nat) -> Seq<char> {
    decimal(t / 10) + seq!['.', digit_char(t % 10)]
}

/// `h` hundredths as `<units>.<tenths><hundredths>`.
pub open spec fn two_decimals(h: nat) -> Seq<char> {
    decimal(h / 100) + seq!['.', digit_char((h / 10) % 10), digit_char(h % 10)]
}

fn push_one_decimal(s: &mut String, t: u128)
    ensures
        final(s)@ == old(s)@ + one_decimal(t as nat),
{
    push_decimal_wide(s, t / 10);
    push_char(s, '.');
    push_char(s, digit((t % 10) as u64));
    assert(final(s)@ =~= old(s)@ + one_decimal(t as nat));
}

fn push_two_decimals(s: &mut String, h: u128)
    ensures
        final(s)@ == old(s)@ + two_decimals(h as nat),
{
    push_decimal_wide(s, h / 100);
    push_char(s, '.');
    push_char(s, digit(((h / 10) % 10) as u64));
    push_char(s, digit((h % 10) as u64));
    assert(final(s)@ =~= old(s)@ + two_decimals(h as nat));
}

/// The digits `ds` with a comma before every digit that has a positive
/// multiple of three digits after it, from position `i` on.
pub open spec fn comma_grouped_from(ds: Seq<char>, i: int) -> Seq<char>
    decreases ds.len() - i,
{
    if i < 0 || i >= ds.len() {
        Seq::empty()
    } else {
        (if i > 0 && (ds.len() - i) % 3 == 0 {
            seq![',']
        } else {
            Seq::empty()
        }) + seq![ds[i]] + comma_grouped_from(ds, i + 1)
    }
}

/// Decimal digits in groups of three separated by commas, e.g. `12,548`.
pub open spec fn comma_grouped(ds: Seq<char>) -> Seq<char> {
    comma_grouped_from(ds, 0)
}

/// A count with thousands separators, e.g. `1,234,567`.
pub fn fmt_num(n: u64) -> (r: String)
    ensures
        r@ == comma_grouped(decimal(n as nat)),
{
    let mut digits = String::new();
    push_decimal(&mut digits, n);
    let ds = chars_of(digits.as_str());
    let len = ds.len();
    let mut out = String::new();
    let mut i: usize = 0;
    while i < len
        invariant
            len == ds@.len(),
            i <= len,
            ds@ == decimal(n as nat),
            out@ + comma_grouped_from(ds@, i as int) == comma_grouped(ds@),
        decreases len - i,
    {
        let ghost before = out@;
        if i > 0 && (len - i) % 3 == 0 {
            push_char(&mut out, ',');
        }
        push_char(&mut out, ds[i]);
        assert(before + comma_grouped_from(ds@, i as int) =~= out@ + comma_grouped_from(
            ds@,
            i + 1,
        ));
        i = i + 1;
    }
    assert(out@ =~= comma_grouped(ds@));
    out
}

proof fn lemma_without_char_concat(a: Seq<char>, b: Seq<char>, c: char)
    ensures
        without_char(a + b, c) == without_char(a, c) + without_char(b, c),
    decreases b.len(),
{
    if b.len() == 0 {
        assert(a + b =~= a);
        assert(without_char(a, c) + without_char(b, c) =~= without_char(a, c));
    } else {
        lemma_without_char_concat(a, b.drop_last(), c);
        assert((a + b).drop_last() =~= a + b.drop_last());
        assert((a + b).last() == b.last());
        assert(without_char(a + b, c) =~= without_char(a, c) + without_char(b, c));
    }
}

pub proof fn lemma_decimal_all_digits(n: nat)
    ensures
        all_digits(decimal(n)),
    decreases n,
{
    if n >= 10 {
        lemma_decimal_all_digits(n / 10);
        assert forall|i: int| 0 <= i < decimal(n).len() implies is_digit(#[trigger] decimal(n)[i]) by {
            if i < decimal(n / 10).len() {
                assert(decimal(n)[i] == decimal(n / 10)[i]);
            }
        }
    }
}

proof fn lemma_grouped_from_without_commas(ds: Seq<char>, i: int)
    requires
        0 <= i <= ds.len(),
        all_digits(ds),
    ensures
        without_char(comma_grouped_from(ds, i), ',') == ds.subrange(i, ds.len() as int),
    decreases ds.len() - i,
{
    reveal_with_fuel(without_char, 2);
    if i < ds.len() {
        lemma_grouped_from_without_commas(ds, i + 1);
        let pre: Seq<char> = if i > 0 && (ds.len() - i) % 3 == 0 {
            seq![',']
        } else {
            Seq::empty()
        };
        let rest = comma_grouped_from(ds, i + 1);
        assert(is_digit(ds[i]));
        lemma_without_char_concat(pre + seq![ds[i]], rest, ',');
        lemma_without_char_concat(pre, seq![ds[i]], ',');
        assert(without_char(pre, ',') =~= Seq::<char>::empty());
        assert(without_char(seq![ds[i]], ',') =~= seq![ds[i]]);
        assert(ds.subrange(i, ds.len() as int) =~= seq![ds[i]] + ds.subrange(i + 1, ds.len() as int));
        assert(without_char(comma_grouped_from(ds, i), ',') =~= ds.subrange(i, ds.len() as int));
    } else {
        assert(ds.subrange(i, ds.len() as int) =~= Seq::<char>::empty());
    }
}

/// Taking the separators out of a grouped count gives its plain decimal
/// digits back.
pub proof fn law_fmt_num_without_separators(n: nat)
    ensures
        without_char(comma_grouped(decimal(n)), ',') == decimal(n),
{
    lemma_decimal_all_digits(n);
    lemma_grouped_from_without_commas(decimal(n), 0);
    assert(decimal(n).subrange(0, decimal(n).len() as int) =~= decimal(n));
}

proof fn lemma_grouped_tail_shape(ds: Seq<char>, i: int)
    requires
        1 <= i <= ds.len(),
        all_digits(ds),
    ensures
        ({
            let t = comma_grouped_from(ds, i);
            let m = ds.len() - i;
            &&& t.len() == m + m / 3
            &&& forall|r: int|
                0 <= r < t.len() ==> ((#[trigger] t[r] == ',') <==> (t.len() - r) % 4 == 0)
            &&& forall|r: int| 0 <= r < t.len() && #[trigger] t[r] != ',' ==> is_digit(t[r])
        }),
    decreases ds.len() - i,
{
    if i < ds.len() {
        lemma_grouped_tail_shape(ds, i + 1);
        let t = comma_grouped_from(ds, i);
        let rest = comma_grouped_from(ds, i + 1);
        let m = ds.len() - i;
        let pre: Seq<char> = if i > 0 && m % 3 == 0 {
            seq![',']
        } else {
            Seq::empty()
        };
        assert(t == pre + seq![ds[i]] + rest);
        assert(is_digit(ds[i]));
        let o = pre.len() + 1;
        assert forall|r: int| 0 <= r < t.len() implies ((#[trigger] t[r] == ',') <==> (t.len() - r)
            % 4 == 0) && (t[r] != ',' ==> is_digit(t[r])) by {
            if r >= o {
                assert(t[r] == rest[r - o]);
            } else if r == o - 1 {
                assert(t[r] == ds[i]);
            } else {
                assert(t[r] == ',');
            }
        }
    } else {
        assert(comma_grouped_from(ds, i) =~= Seq::<char>::empty());
    }
}

/// A grouped count is digits in groups separated by single commas: every
/// group after the first has exactly three digits, the first has one to
/// three, and no comma leads or trails. Counted from the end, every fourth
/// character is a comma, and the length is no multiple of four.
pub proof fn law_fmt_num_groups_of_three(n: nat)
    ensures
        ({
            let s = comma_grouped(decimal(n));
            &&& s.len() % 4 != 0
            &&& forall|i: int|
                0 <= i < s.len() ==> ((#[trigger] s[i] == ',') <==> (i > 0 && (s.len() - i) % 4
                    == 0))
            &&& forall|i: int| 0 <= i < s.len() && #[trigger] s[i] != ',' ==> is_digit(s[i])
        }),
{
    let ds = decimal(n);
    lemma_decimal_all_digits(n);
    assert(ds.len() >= 1) by {
        reveal_with_fuel(decimal, 2);
        if n >= 10 {
            assert(decimal(n) == decimal(n / 10).push(digit_char(n % 10)));
        }
    }
    lemma_grouped_tail_shape(ds, 1);
    let s = comma_grouped(ds);
    let rest = comma_grouped_from(ds, 1);
    assert(s == Seq::<char>::empty() + seq![ds[0]] + rest);
    assert(is_digit(ds[0]));
    assert forall|i: int| 0 <= i < s.len() implies ((#[trigger] s[i] == ',') <==> (i > 0 && (s.len()
        - i) % 4 == 0)) && (s[i] != ',' ==> is_digit(s[i])) by {
        if i >= 1 {
            assert(s[i] == rest[i - 1]);
        } else {
            assert(s[i] == ds[0]);
        }
    }
}

/// `n` as text followed by a unit, e.g. `512 B`.
pub open spec fn with_unit(v: Seq<char>, unit: Seq<char>) -> Seq<char> {
    v + seq![' '] + unit
}

/// A byte count in B, KB, MB or GB (binary multiples): whole bytes below
/// 1 KiB, one decimal in KB and MB, two decimals in GB.
pub open spec fn fmt_bytes_text(b: u64) -> Seq<char> {
    if b < 1024 {
        with_unit(decimal(b as nat), seq!['B'])
    } else if b < 1024 * 1024 {
        with_unit(one_decimal(round_half_even(10 * (b as nat), 1024)), seq!['K', 'B'])
    } else if b < 1024 * 1024 * 1024 {
        with_unit(one_decimal(round_half_even(10 * (b as nat), 1024 * 1024)), seq!['M', 'B'])
    } else {
        with_unit(
            two_decimals(round_half_even(100 * double_value(b), 1024 * 1024 * 1024)),
            seq!['G', 'B'],
        )
    }
}

/// A byte count in B, KB or MB (binary multiples), one decimal from KB on.
pub open spec fn human_bytes_text(b: u64) -> Seq<char> {
    if b < 1024 {
        with_unit(decimal(b as nat), seq!['B'])
    } else if b < 1024 * 1024 {
        with_unit(one_decimal(round_half_even(10 * (b as nat), 1024)), seq!['K', 'B'])
    } else {
        with_unit(one_decimal(round_half_even(10 * double_value(b), 1024 * 1024)), seq!['M', 'B'])
    }
}

fn push_unit(s: &mut String, unit: &str)
    ensures
        final(s)@ == old(s)@ + seq![' '] + unit@,
{
    push_char(s, ' ');
    push_str(s, unit);
}

/// A byte count for the statistics panel: `512 B`, `1.5 KB`, `2.0 MB`,
/// `1.25 GB`.
pub fn fmt_bytes(bytes: u64) -> (r: String)
    ensures
        r@ == fmt_bytes_text(bytes),
{
    let mut s = String::new();
    let b = bytes as u128;
    if bytes < 1024 {
        push_decimal(&mut s, bytes);
        push_unit(&mut s, "B");
        proof {
            reveal_strlit("B");
        }
    } else if bytes < 1024 * 1024 {
        push_one_decimal(&mut s, round_half_even_exec(10 * b, 1024));
        push_unit(&mut s, "KB");
        proof {
            reveal_strlit("KB");
        }
    } else if bytes < 1024 * 1024 * 1024 {
        push_one_decimal(&mut s, round_half_even_exec(10 * b, 1024 * 1024));
        push_unit(&mut s, "MB");
        proof {
            reveal_strlit("MB");
        }
    } else {
        let v = double_of(bytes);
        push_two_decimals(&mut s, round_half_even_exec(100 * v, 1024 * 1024 * 1024));
        push_unit(&mut s, "GB");
        proof {
            reveal_strlit("GB");
        }
    }
    assert(s@ =~= fmt_bytes_text(bytes));
    s
}

/// A byte count for the flow table: `512 B`, `1.5 KB`, `2.0 MB`.
pub fn human_bytes(bytes: u64) -> (r: String)
    ensures
        r@ == human_bytes_text(bytes),
{
    let mut s = String::new();
    let b = bytes as u128;
    if bytes < 1024 {
        push_decimal(&mut s, bytes);
        push_unit(&mut s, "B");
        proof {
            reveal_strlit("B");
        }
    } else if bytes < 1024 * 1024 {
        push_one_decimal(&mut s, round_half_even_exec(10 * b, 1024));
        push_unit(&mut s, "KB");
        proof {
            reveal_strlit("KB");
        }
    } else {
        let v = double_of(bytes);
        push_one_decimal(&mut s, round_half_even_exec(10 * v, 1024 * 1024));
        push_unit(&mut s, "MB");
        proof {
            reveal_strlit("MB");
        }
    }
    assert(s@ =~= human_bytes_text(bytes));
    s
}

pub open spec fn two_pow_52() -> nat {
    0x10_0000_0000_0000
}

proof fn lemma_significand_round_range(b: nat, d: nat)
    requires
        d >= 1,
        b / d >= two_pow_52(),
    ensures
        two_pow_52() <= significand_round(b, d) <= 2 * b,
    decreases 2 * b + 2 - d,
{
    lemma_div_at_least_one(b, d);
    if b / d < two_pow_53() {
        let q = b / d;
        let r = round_half_even(b, d);
        assert(q <= r <= q + 1);
        assert(q * d <= b) by (nonlinear_arith)
            requires
                d >= 1,
                q == b / d,
        ;
        assert(two_pow_52() <= r * d <= q * d + d) by (nonlinear_arith)
            requires
                d >= 1,
                q <= r <= q + 1,
                q >= two_pow_52(),
        ;
    } else {
        vstd::arithmetic::div_mod::lemma_div_denominator(b as int, d as int, 2);
        lemma_significand_round_range(b, d * 2);
    }
}

/// A count above a million is still above a million as a double, and the
/// double is at most twice the count.
proof fn lemma_double_value_range(b: u64)
    requires
        b > 1_000_000,
    ensures
        1_000_000 <= double_value(b) <= 2 * (b as nat),
{
    if (b as nat) < two_pow_53() {
        assert(round_half_even(b as nat, 1) == b);
    } else {
        lemma_significand_round_range(b as nat, 1);
    }
}

/// The scale `d` (a power of two, at most 2^52) at which `n * d / den` has
/// a 53-bit integer part: halved from `start` until the quotient falls below
/// 2^53.
pub open spec fn quotient_scale(n: nat, den: nat, d: nat) -> nat
    decreases d,
{
    if d <= 1 || (n * d) / den < two_pow_53() {
        d
    } else {
        quotient_scale(n, den, d / 2)
    }
}

/// The quotient `n / den` of two doubles rounded to a double (nearest, ties
/// to even), then printed with one decimal (ties to even): the tenths it
/// shows. Meant for `n >= den`, where the quotient is at least one.
pub open spec fn quotient_tenths(n: nat, den: nat) -> nat {
    let d = quotient_scale(n, den, two_pow_52());
    round_half_even(10 * round_half_even(n * d, den), d)
}

/// A byte count in decimal multiples: `<n> B` up to 1000 bytes, one decimal
/// of KB (1000 bytes) up to a million, one decimal of MB above.
pub open spec fn decimal_bytes_text(b: u64) -> Seq<char> {
    if b > 1_000_000 {
        with_unit(one_decimal(quotient_tenths(double_value(b), 1_000_000)), seq!['M', 'B'])
    } else if b > 1000 {
        with_unit(one_decimal(quotient_tenths(b as nat, 1000)), seq!['K', 'B'])
    } else {
        with_unit(decimal(b as nat), seq!['B'])
    }
}

fn quotient_tenths_exec(n: u128, den: u128) -> (t: u128)
    requires
        den == 1000 || den == 1_000_000,
        den <= n <= 0x4_0000_0000_0000_0000,
    ensures
        t == quotient_tenths(n as nat, den as nat),
{
    let mut d: u128 = 0x10_0000_0000_0000;
    assert(n * d <= 0x4_0000_0000_0000_0000 * 0x10_0000_0000_0000) by (nonlinear_arith)
        requires
            n <= 0x4_0000_0000_0000_0000,
            d == 0x10_0000_0000_0000,
    ;
    while d > 1 && (n * d) / den >= 0x20_0000_0000_0000
        invariant
            1 <= d <= 0x10_0000_0000_0000,
            den == 1000 || den == 1_000_000,
            n <= 0x4_0000_0000_0000_0000,
            n * d <= 0x4_0000_0000_0000_0000 * 0x10_0000_0000_0000,
            quotient_scale(n as nat, den as nat, d as nat) == quotient_scale(
                n as nat,
                den as nat,
                two_pow_52(),
            ),
        decreases d,
    {
        d = d / 2;
        assert(n * d <= 0x4_0000_0000_0000_0000 * 0x10_0000_0000_0000) by (nonlinear_arith)
            requires
                n <= 0x4_0000_0000_0000_0000,
                d <= 0x10_0000_0000_0000,
        ;
    }
    let nd: u128 = n * d;
    assert(nd / den < 0x200_0000_0000_0000) by {
        if d == 1 {
            assert(nd == n);
        }
    }
    let m = round_half_even_exec(nd, den);
    assert(m <= 0x200_0000_0000_0000);
    round_half_even_exec(10 * m, d)
}

/// A byte count in decimal multiples, for the status bar and the
/// top-processes table: `512 B`, `1.5 KB`, `24.8 MB`.
pub fn decimal_bytes(bytes: u64) -> (r: String)
    ensures
        r@ == decimal_bytes_text(bytes),
{
    let mut s = String::new();
    if bytes > 1_000_000 {
        let v = double_of(bytes);
        proof {
            lemma_double_value_range(bytes);
        }
        push_one_decimal(&mut s, quotient_tenths_exec(v, 1_000_000));
        push_unit(&mut s, "MB");
        proof {
            reveal_strlit("MB");
        }
    } else if bytes > 1000 {
        push_one_decimal(&mut s, quotient_tenths_exec(bytes as u128, 1000));
        push_unit(&mut s, "KB");
        proof {
            reveal_strlit("KB");
        }
    } else {
        push_decimal(&mut s, bytes);
        push_unit(&mut s, "B");
        proof {
            reveal_strlit("B");
        }
    }
    assert(s@ =~= decimal_bytes_text(bytes));
    s
}

} // verus!
