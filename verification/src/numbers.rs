//! Numbers as text: decimal digits, and byte counts scaled to a binary unit
//! with one decimal place.

use vstd::prelude::*;
use vstd::string::StringExecFns;

verus! {

/// The character of one decimal digit.
pub open spec fn digit_char(d: int) -> char {
    if d == 0 {
        '0'
    } else if d == 1 {
        '1'
    } else if d == 2 {
        '2'
    } else if d == 3 {
        '3'
    } else if d == 4 {
        '4'
    } else if d == 5 {
        '5'
    } else if d == 6 {
        '6'
    } else if d == 7 {
        '7'
    } else if d == 8 {
        '8'
    } else {
        '9'
    }
}

/// The decimal digits of a natural number, most significant first, without
/// leading zeros.
pub open spec fn decimal(n: nat) -> Seq<char>
    decreases n,
{
    if n < 10 {
        seq![digit_char(n as int)]
    } else {
        decimal(n / 10).push(digit_char((n % 10) as int))
    }
}

/// The number of units that sizes are scaled to: bytes and eight binary
/// multiples.
pub const UNIT_COUNT: usize = 9;

/// 1024 to the power `k`.
pub open spec fn pow1024(k: nat) -> nat
    decreases k,
{
    if k == 0 {
        1
    } else {
        1024 * pow1024((k - 1) as nat)
    }
}

/// The unit in which a size is shown, counted from bytes: the largest one, of
/// the first `cap + 1`, in which the size is at least 1. A size of zero is
/// shown in bytes.
pub open spec fn unit_index(size: nat, cap: nat) -> nat
    decreases cap,
{
    if cap == 0 || size < 1024 {
        0
    } else {
        1 + unit_index(size / 1024, (cap - 1) as nat)
    }
}

/// The name of a unit.
pub open spec fn unit_name(k: nat) -> Seq<char> {
    if k == 0 {
        "B"@
    } else if k == 1 {
        "KB"@
    } else if k == 2 {
        "MB"@
    } else if k == 3 {
        "GB"@
    } else if k == 4 {
        "TB"@
    } else if k == 5 {
        "PB"@
    } else if k == 6 {
        "EB"@
    } else if k == 7 {
        "ZB"@
    } else {
        "YB"@
    }
}

/// The unit in which a size is shown.
pub open spec fn size_unit(size: nat) -> nat {
    unit_index(size, (UNIT_COUNT - 1) as nat)
}

/// The whole part of a size in its unit.
pub open spec fn size_whole(size: nat) -> nat {
    size / pow1024(size_unit(size))
}

/// The first decimal place of a size in its unit, rounded down.
pub open spec fn size_tenth(size: nat) -> nat {
    (size % pow1024(size_unit(size))) * 10 / pow1024(size_unit(size))
}

/// A size as text: whole part, a point, one decimal place, and the unit.
pub open spec fn human_size_text(size: nat) -> Seq<char> {
    decimal(size_whole(size)) + seq!['.'] + seq![digit_char(size_tenth(size) as int)] + unit_name(
        size_unit(size),
    )
}

/// The text of one decimal digit.
fn digit_text(d: u8) -> (s: &'static str)
    requires
        d < 10,
    ensures
        s@ == seq![digit_char(d as int)],
{
    proof {
        reveal_strlit("0");
        reveal_strlit("1");
        reveal_strlit("2");
        reveal_strlit("3");
        reveal_strlit("4");
        reveal_strlit("5");
        reveal_strlit("6");
        reveal_strlit("7");
        reveal_strlit("8");
        reveal_strlit("9");
    }
    let s = if d == 0 {
        "0"
    } else if d == 1 {
        "1"
    } else if d == 2 {
        "2"
    } else if d == 3 {
        "3"
    } else if d == 4 {
        "4"
    } else if d == 5 {
        "5"
    } else if d == 6 {
        "6"
    } else if d == 7 {
        "7"
    } else if d == 8 {
        "8"
    } else {
        "9"
    };
    assert(s@ =~= seq![digit_char(d as int)]);
    s
}

/// Appends one decimal digit to `out`.
pub fn push_digit(out: &mut String, d: u8)
    requires
        d < 10,
    ensures
        final(out)@ == old(out)@.push(digit_char(d as int)),
{
    out.append(digit_text(d));
    assert(out@ =~= old(out)@.push(digit_char(d as int)));
}

/// Appends the decimal digits of `n` to `out`.
pub fn push_decimal(out: &mut String, n: u128)
    ensures
        final(out)@ == old(out)@ + decimal(n as nat),
    decreases n,
{
    if n >= 10 {
        push_decimal(out, n / 10);
    }
    let d: u8 = (n % 10) as u8;
    out.append(digit_text(d));
    assert(out@ =~= old(out)@ + decimal(n as nat));
}

/// The decimal text of a natural number.
pub fn decimal_string(n: u128) -> (text: String)
    ensures
        text@ == decimal(n as nat),
{
    let mut text = String::new();
    push_decimal(&mut text, n);
    assert(text@ =~= decimal(n as nat));
    text
}

/// The name of a unit, as text.
fn unit_text(k: usize) -> (s: &'static str)
    requires
        k < UNIT_COUNT,
    ensures
        s@ == unit_name(k as nat),
{
    if k == 0 {
        "B"
    } else if k == 1 {
        "KB"
    } else if k == 2 {
        "MB"
    } else if k == 3 {
        "GB"
    } else if k == 4 {
        "TB"
    } else if k == 5 {
        "PB"
    } else if k == 6 {
        "EB"
    } else if k == 7 {
        "ZB"
    } else {
        "YB"
    }
}

/// Scaling down by one more unit: the unit of `size` within `cap` units is
/// found by dividing by 1024 as long as at least 1024 is left.
proof fn lemma_unit_step(size: nat, cap: nat, k: nat)
    requires
        k < cap,
        pow1024(k) <= size,
        size / pow1024(k) >= 1024,
        unit_index(size, cap) == k + unit_index(size / pow1024(k), (cap - k) as nat),
    ensures
        unit_index(size, cap) == (k + 1) + unit_index(
            size / pow1024(k + 1),
            (cap - k - 1) as nat,
        ),
{
    let p = pow1024(k);
    lemma_pow1024_positive(k);
    assert(pow1024(k + 1) == 1024 * p);
    assert(size / (1024 * p) == (size / p) / 1024) by {
        vstd::arithmetic::div_mod::lemma_div_denominator(size as int, p as int, 1024);
        assert(p * 1024 == 1024 * p) by (nonlinear_arith);
    }
}

/// Powers of 1024 are positive.
pub proof fn lemma_pow1024_positive(k: nat)
    ensures
        pow1024(k) > 0,
    decreases k,
{
    if k > 0 {
        lemma_pow1024_positive((k - 1) as nat);
    }
}

/// The value of each power of 1024 that a unit stands for.
pub proof fn lemma_pow1024_values()
    ensures
        pow1024(0) == 1,
        pow1024(1) == 0x400,
        pow1024(2) == 0x10_0000,
        pow1024(3) == 0x4000_0000,
        pow1024(4) == 0x100_0000_0000,
        pow1024(5) == 0x4_0000_0000_0000,
        pow1024(6) == 0x1000_0000_0000_0000,
        pow1024(7) == 0x40_0000_0000_0000_0000,
        pow1024(8) == 0x1_0000_0000_0000_0000_0000,
{
    reveal_with_fuel(pow1024, 10);
}

/// A size as text, scaled to the largest unit in which it is at least 1, with
/// one decimal place, rounded down.
pub fn human_size(size: u128) -> (text: String)
    ensures
        text@ == human_size_text(size as nat),
{
    let mut k: usize = 0;
    let mut scale: u128 = 1;
    proof {
        lemma_pow1024_values();
    }
    while k < UNIT_COUNT - 1 && size / scale >= 1024
        invariant
            k <= UNIT_COUNT - 1,
            scale == pow1024(k as nat),
            0 < scale <= size || k == 0,
            scale <= 0x1_0000_0000_0000_0000_0000,
            size_unit(size as nat) == k + unit_index(
                size as nat / pow1024(k as nat),
                (UNIT_COUNT - 1 - k) as nat,
            ),
        decreases UNIT_COUNT - 1 - k,
    {
        proof {
            lemma_pow1024_values();
            lemma_unit_step(size as nat, (UNIT_COUNT - 1) as nat, k as nat);
            assert(size >= 1024 * scale) by (nonlinear_arith)
                requires
                    size / scale >= 1024,
                    scale > 0,
            ;
        }
        scale = scale * 1024;
        k = k + 1;
    }
    assert(size_unit(size as nat) == k);
    let whole: u128 = size / scale;
    let rest: u128 = size % scale;
    let tenth: u128 = rest * 10 / scale;
    assert(tenth < 10) by (nonlinear_arith)
        requires
            rest < scale,
            tenth as int == (rest as int * 10) / (scale as int),
            scale > 0,
    ;
    proof {
        reveal_strlit(".");
    }
    let mut text = decimal_string(whole);
    text.append(".");
    text.append(digit_text(tenth as u8));
    text.append(unit_text(k));
    assert(text@ =~= human_size_text(size as nat));
    text
}

/// In every unit but the last the whole part shown is below 1024, and it is
/// at least 1 unless the size is zero. The decimal place is a single digit.
pub proof fn lemma_human_size_range(size: nat)
    ensures
        size > 0 ==> size_whole(size) >= 1,
        size_unit(size) < UNIT_COUNT - 1 ==> size_whole(size) < 1024,
        size_unit(size) <= UNIT_COUNT - 1,
        size_tenth(size) < 10,
        size < 1024 ==> size_unit(size) == 0 && size_whole(size) == size && size_tenth(size) == 0,
{
    lemma_unit_range(size, (UNIT_COUNT - 1) as nat);
    let k = size_unit(size);
    let p = pow1024(k);
    lemma_pow1024_positive(k);
    assert((size % p) * 10 / p < 10) by (nonlinear_arith)
        requires
            p > 0,
            size % p < p,
    ;
    if size < 1024 {
        assert(size_unit(size) == 0);
        assert(pow1024(0) == 1);
        assert(size / 1 == size && size % 1 == 0);
        assert(0nat * 10 / 1 == 0);
    }
}

/// The unit found within `cap` units: the size is at least one such unit, and
/// below 1024 of them unless the unit is the last.
proof fn lemma_unit_range(size: nat, cap: nat)
    ensures
        unit_index(size, cap) <= cap,
        size > 0 ==> size / pow1024(unit_index(size, cap)) >= 1,
        unit_index(size, cap) < cap ==> size / pow1024(unit_index(size, cap)) < 1024,
    decreases cap,
{
    if cap == 0 || size < 1024 {
        assert(pow1024(0) == 1);
        assert(size / 1 == size);
    } else {
        let k = unit_index(size / 1024, (cap - 1) as nat);
        lemma_unit_range(size / 1024, (cap - 1) as nat);
        lemma_pow1024_positive(k);
        assert(size / 1024 > 0);
        assert(unit_index(size, cap) == 1 + k);
        assert(pow1024(1 + k) == 1024 * pow1024(k));
        assert(size / (1024 * pow1024(k)) == (size / 1024) / pow1024(k)) by {
            vstd::arithmetic::div_mod::lemma_div_denominator(
                size as int,
                1024,
                pow1024(k) as int,
            );
        }
    }
}

} // verus!
