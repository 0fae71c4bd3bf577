//! Human-readable file sizes and quality labels for summaries.
use vstd::prelude::*;
use vstd::arithmetic::div_mod::{
    lemma_div_denominator, lemma_div_is_ordered, lemma_div_is_ordered_by_denominator,
    lemma_fundamental_div_mod,
};

use crate::format::OutputFormat;
use crate::text::{decimal_string, decimal_text, digit_char, lemma_decimal_round_trip, push_char};

verus! {

/// 2^53: below this every integer is exactly a double.
pub open spec fn exact_double_limit() -> nat {
    0x20_0000_0000_0000
}

/// How many low bits a double loses when it holds the integer `n`.
pub open spec fn dropped_bits(n: nat) -> nat
    decreases n,
{
    if n < exact_double_limit() {
        0
    } else {
        1 + dropped_bits(n / 2)
    }
}

/// 2^e.
pub open spec fn power_of_two(e: nat) -> nat
    decreases e,
{
    if e == 0 {
        1
    } else {
        2 * power_of_two((e - 1) as nat)
    }
}

/// `a / b` rounded to the nearest integer, ties to the even neighbour.
pub open spec fn div_round_half_even(a: nat, b: nat) -> nat {
    let q = a / b;
    let r = a % b;
    if 2 * r > b || (2 * r == b && q % 2 == 1) {
        q + 1
    } else {
        q
    }
}

/// The integer value of `n as f64`: `n` rounded to the nearest double, ties
/// to even.
pub open spec fn nearest_double(n: nat) -> nat {
    let unit = power_of_two(dropped_bits(n));
    div_round_half_even(n, unit) * unit
}

/// Index of the unit (`B`, `KB`, `MB`, `GB`) a size is shown in: divide by
/// 1024 while the value is at least 1024, at most three times.
pub open spec fn size_unit_index(v: nat) -> nat {
    if v < 1024 {
        0
    } else if v < 1024 * 1024 {
        1
    } else if v < 1024 * 1024 * 1024 {
        2
    } else {
        3
    }
}

pub open spec fn size_unit_divisor(k: nat) -> nat {
    if k == 0 {
        1
    } else if k == 1 {
        1024
    } else if k == 2 {
        1024 * 1024
    } else {
        1024 * 1024 * 1024
    }
}

pub open spec fn size_unit_name(k: nat) -> Seq<char> {
    if k == 0 {
        "B"@
    } else if k == 1 {
        "KB"@
    } else if k == 2 {
        "MB"@
    } else {
        "GB"@
    }
}

/// `v / d` printed with two decimals (`{:.2}`): the exact quotient rounded
/// to hundredths, ties to even.
pub open spec fn two_decimals(v: nat, d: nat) -> Seq<char> {
    let h = div_round_half_even(100 * v, d);
    decimal_text(h / 100) + seq!['.', digit_char((h % 100) / 10), digit_char(h % 10)]
}

/// The text of `format_file_size(size)`: the size as a double, scaled to
/// the largest unit up to GB that keeps it at least 1, with two decimals.
pub open spec fn file_size_text(size: nat) -> Seq<char> {
    let v = nearest_double(size);
    let k = size_unit_index(v);
    two_decimals(v, size_unit_divisor(k)) + seq![' '] + size_unit_name(k)
}

/// The label of the quality setting in summaries: lossless PNG says so,
/// the other formats show the whole-number percentage.
pub open spec fn quality_text(format: OutputFormat, percent: nat) -> Seq<char> {
    if format == OutputFormat::Png {
        "무손실"@
    } else {
        "품질: "@ + decimal_text(percent) + "%"@
    }
}

proof fn lemma_dropped_bits_bound(n: nat, j: nat)
    requires
        n < exact_double_limit() * power_of_two(j),
    ensures
        dropped_bits(n) <= j,
        n / power_of_two(dropped_bits(n)) < exact_double_limit(),
    decreases n,
{
    if n >= exact_double_limit() {
        assert(j > 0);
        let p = power_of_two((j - 1) as nat);
        assert(n / 2 < exact_double_limit() * p) by (nonlinear_arith)
            requires
                n < exact_double_limit() * (2 * p),
        ;
        lemma_dropped_bits_bound(n / 2, (j - 1) as nat);
        lemma_power_of_two_positive(dropped_bits(n / 2));
        lemma_div_denominator(n as int, 2, power_of_two(dropped_bits(n / 2)) as int);
    }
}

proof fn lemma_power_of_two_positive(e: nat)
    ensures
        power_of_two(e) >= 1,
    decreases e,
{
    if e > 0 {
        lemma_power_of_two_positive((e - 1) as nat);
    }
}

proof fn lemma_power_of_two_monotone(a: nat, b: nat)
    requires
        a <= b,
    ensures
        power_of_two(a) <= power_of_two(b),
    decreases b,
{
    if a < b {
        lemma_power_of_two_monotone(a, (b - 1) as nat);
        lemma_power_of_two_positive((b - 1) as nat);
    }
}

/// Divides and rounds to nearest, ties to even.
fn div_round_even(a: u128, b: u128) -> (q: u128)
    requires
        b > 0,
        a < 0x8000_0000_0000_0000_0000_0000_0000_0000,
    ensures
        q as nat == div_round_half_even(a as nat, b as nat),
        q as nat <= (a as nat) / (b as nat) + 1,
{
    let q = a / b;
    let r = a % b;
    proof {
        lemma_fundamental_div_mod(a as int, b as int);
        assert(q <= a) by (nonlinear_arith)
            requires
                a == b * q + r,
                b >= 1,
                r >= 0,
                q >= 0,
        ;
    }
    if r > b - r || (r == b - r && q % 2 == 1) {
        q + 1
    } else {
        q
    }
}

/// A byte count written for people, e.g. `1.50 KB`: the size as `f64`,
/// divided by 1024 while it is at least 1024 (up to GB), with two
/// decimals and the unit.
pub fn format_file_size(size: u64) -> (s: String)
    ensures
        s@ == file_size_text(size as nat),
{
    // The size as a double: drop low bits until it fits 53 bits, rounding.
    let mut m: u128 = size as u128;
    let mut unit: u128 = 1;
    let ghost mut e: nat = 0;
    proof {
        assert(power_of_two(11) == 2048) by {
            reveal_with_fuel(power_of_two, 12);
        }
        lemma_dropped_bits_bound(size as nat, 11);
    }
    while m >= 0x20_0000_0000_0000
        invariant
            unit == power_of_two(e),
            m == (size as nat) / (unit as nat),
            dropped_bits(size as nat) == e + dropped_bits(m as nat),
            dropped_bits(size as nat) <= 11,
            power_of_two(11) == 2048,
            unit >= 1,
        decreases m,
    {
        proof {
            lemma_div_denominator(size as int, unit as int, 2);
            assert(power_of_two(e + 1) == 2 * power_of_two(e));
            lemma_power_of_two_monotone(e + 1, 11);
        }
        m = m / 2;
        unit = unit * 2;
        proof {
            e = e + 1;
        }
    }
    assert(dropped_bits(m as nat) == 0);
    proof {
        lemma_power_of_two_monotone(e, 11);
    }
    let q = div_round_even(size as u128, unit);
    assert(q * unit <= 0x1_0000_0000_0000_0000) by (nonlinear_arith)
        requires
            q <= 0x20_0000_0000_0000,
            unit <= 2048,
    ;
    let v: u128 = q * unit;
    assert(v == nearest_double(size as nat));
    let (k, divisor, name): (u64, u128, &str) = if v < 1024 {
        (0, 1, "B")
    } else if v < 1024 * 1024 {
        (1, 1024, "KB")
    } else if v < 1024 * 1024 * 1024 {
        (2, 1024 * 1024, "MB")
    } else {
        (3, 1024 * 1024 * 1024, "GB")
    };
    assert(k == size_unit_index(v as nat));
    assert(divisor == size_unit_divisor(k as nat));
    assert(name@ == size_unit_name(k as nat));
    let h = div_round_even(100 * v, divisor);
    assert(h <= (100 * v) as nat / (divisor as nat) + 1) by {
        lemma_fundamental_div_mod((100 * v) as int, divisor as int);
    }
    assert(h / 100 <= u64::MAX) by {
        let x = (100 * v) as int;
        if divisor == 1 {
            assert(h <= 100 * 1024);
        } else {
            lemma_div_is_ordered_by_denominator(x, 1024, divisor as int);
            lemma_div_is_ordered(x, 100 * 0x1_0000_0000_0000_0000int, 1024);
            assert(100 * 0x1_0000_0000_0000_0000int / 1024 == 100 * 0x40_0000_0000_0000int);
        }
    }
    let whole: u64 = (h / 100) as u64;
    let tenths: u8 = ((h % 100) / 10) as u8;
    let hundredths: u8 = (h % 10) as u8;
    let c1 = (tenths + 48) as char;
    let c2 = (hundredths + 48) as char;
    assert(c1 == digit_char(((h % 100) / 10) as nat));
    assert(c2 == digit_char((h % 10) as nat));
    assert(h as nat == div_round_half_even(100 * (v as nat), divisor as nat));
    let mut s = decimal_string(whole);
    push_char(&mut s, '.');
    push_char(&mut s, c1);
    push_char(&mut s, c2);
    push_char(&mut s, ' ');
    s.append(name);
    assert(whole as nat == (h as nat) / 100);
    assert(s@ =~= decimal_text((h as nat) / 100) + seq!['.', c1, c2] + seq![' '] + name@);
    assert(s@ =~= file_size_text(size as nat));
    s
}

/// The quality label of a summary for a whole-number percentage:
/// `무손실` for PNG, `품질: N%` otherwise.
pub fn quality_label(format: OutputFormat, percent: u32) -> (s: String)
    ensures
        s@ == quality_text(format, percent as nat),
{
    if format.is_png() {
        "무손실".to_owned()
    } else {
        let mut s = "품질: ".to_owned();
        let n = decimal_string(percent as u64);
        s.append(n.as_str());
        s.append("%");
        s
    }
}

} // verus!

verus! {

/// Sizes below one kilobyte are shown as whole bytes with two zero
/// decimals, e.g. `512.00 B`.
pub proof fn lemma_small_file_size(size: nat)
    requires
        size < 1024,
    ensures
        file_size_text(size) == decimal_text(size) + seq!['.', '0', '0', ' ', 'B'],
{
    reveal_strlit("B");
    assert(dropped_bits(size) == 0);
    assert(power_of_two(0) == 1);
    assert(div_round_half_even(size, 1) == size);
    assert(nearest_double(size) == size);
    assert(div_round_half_even(100 * size, 1) == 100 * size);
    assert((100 * size) / 100 == size);
    assert((100 * size) % 100 == 0);
    assert(digit_char(0) == '0');
    assert(file_size_text(size) =~= decimal_text(size) + seq!['.', '0', '0', ' ', 'B']);
}

/// A size of exactly one unit is shown as `1.00` of that unit.
pub proof fn lemma_whole_units(k: nat)
    requires
        1 <= k <= 3,
    ensures
        file_size_text(size_unit_divisor(k)) == seq!['1', '.', '0', '0', ' '] + size_unit_name(k),
{
    let d = size_unit_divisor(k);
    assert(d < exact_double_limit());
    assert(dropped_bits(d) == 0);
    assert(power_of_two(0) == 1);
    assert(div_round_half_even(d, 1) == d);
    assert(nearest_double(d) == d);
    assert(size_unit_index(d) == k);
    assert((100 * d) / d == 100 && (100 * d) % d == 0) by (nonlinear_arith)
        requires
            d >= 1,
    ;
    assert(div_round_half_even(100 * d, d) == 100);
    assert(decimal_text(1) == seq![digit_char(1)]);
    assert(digit_char(1) == '1');
    assert(digit_char(0) == '0');
    assert(file_size_text(d) =~= seq!['1', '.', '0', '0', ' '] + size_unit_name(k));
}

/// PNG is lossless: its summary shows no quality, whatever was asked for,
/// while every other format shows the quality, so two different qualities
/// give two different labels.
pub proof fn lemma_png_ignores_quality(format: OutputFormat, a: nat, b: nat)
    ensures
        format == OutputFormat::Png ==> quality_text(format, a) == quality_text(format, b),
        format != OutputFormat::Png && a != b ==> quality_text(format, a) != quality_text(
            format,
            b,
        ),
{
    if format != OutputFormat::Png && a != b {
        let pre = "품질: "@;
        let post = "%"@;
        if quality_text(format, a) == quality_text(format, b) {
            let ta = quality_text(format, a);
            let da = decimal_text(a);
            let db = decimal_text(b);
            assert(da.len() == db.len()) by {
                assert(ta.len() == pre.len() + da.len() + post.len());
            }
            assert(da =~= ta.subrange(pre.len() as int, (pre.len() + da.len()) as int));
            assert(db =~= ta.subrange(pre.len() as int, (pre.len() + db.len()) as int));
            let m = if a > b {
                a
            } else {
                b
            };
            lemma_decimal_round_trip(a, m);
            lemma_decimal_round_trip(b, m);
        }
    }
}

} // verus!
