//! Human-readable file sizes in binary units.

use vstd::prelude::*;
use crate::text::{decimal, digit_char, digit_of, is_digit, lemma_decimal_digits, push_decimal,
    push_str, string_of};

verus! {

/// Which unit a size is shown in: 0 for bytes, then one more for each
/// factor of 1024, up to 5.
pub open spec fn unit_index(size: nat) -> nat {
    if size < 0x400 {
        0
    } else if size < 0x10_0000 {
        1
    } else if size < 0x4000_0000 {
        2
    } else if size < 0x100_0000_0000 {
        3
    } else if size < 0x4_0000_0000_0000 {
        4
    } else {
        5
    }
}

/// The number of bytes in one unit.
pub open spec fn unit_size(index: nat) -> nat {
    if index == 0 {
        1
    } else if index == 1 {
        0x400
    } else if index == 2 {
        0x10_0000
    } else if index == 3 {
        0x4000_0000
    } else if index == 4 {
        0x100_0000_0000
    } else {
        0x4_0000_0000_0000
    }
}

/// The name of a unit.
pub open spec fn unit_name(index: nat) -> Seq<char> {
    if index == 0 {
        "B"@
    } else if index == 1 {
        "KB"@
    } else if index == 2 {
        "MB"@
    } else if index == 3 {
        "GB"@
    } else if index == 4 {
        "TB"@
    } else {
        "PB"@
    }
}

/// The whole number nearest to `num / den`; of two equally near, the even
/// one.
pub open spec fn round_half_even(num: nat, den: nat) -> nat {
    let q = num / den;
    let r = num % den;
    if 2 * r > den || (2 * r == den && q % 2 == 1) {
        q + 1
    } else {
        q
    }
}

/// The distance between neighbouring numbers of 53 significant bits at
/// `size`. Sizes are measured with that precision, so that a label is the
/// same as one computed in double-precision floating point.
pub open spec fn spacing(size: nat) -> nat {
    if size < 0x20_0000_0000_0000 {
        1
    } else if size < 0x40_0000_0000_0000 {
        2
    } else if size < 0x80_0000_0000_0000 {
        4
    } else if size < 0x100_0000_0000_0000 {
        8
    } else if size < 0x200_0000_0000_0000 {
        16
    } else if size < 0x400_0000_0000_0000 {
        32
    } else if size < 0x800_0000_0000_0000 {
        64
    } else if size < 0x1000_0000_0000_0000 {
        128
    } else if size < 0x2000_0000_0000_0000 {
        256
    } else if size < 0x4000_0000_0000_0000 {
        512
    } else if size < 0x8000_0000_0000_0000 {
        1024
    } else {
        2048
    }
}

/// `size` rounded to 53 significant bits.
pub open spec fn measured(size: nat) -> nat {
    round_half_even(size, spacing(size)) * spacing(size)
}

/// The size in hundredths of its unit, rounded to the nearest.
pub open spec fn hundredths(size: nat) -> nat {
    round_half_even(measured(size) * 100, unit_size(unit_index(size)))
}

/// A number below one hundred in two digits.
pub open spec fn two_digits(n: nat) -> Seq<char> {
    seq![digit_char(n / 10), digit_char(n % 10)]
}

/// The label of a size: bytes as a whole number, larger units with two
/// decimals, then a blank and the unit.
pub open spec fn size_label(size: nat) -> Seq<char> {
    let index = unit_index(size);
    if index == 0 {
        decimal(size) + seq![' '] + unit_name(index)
    } else {
        let h = hundredths(size);
        decimal(h / 100) + seq!['.'] + two_digits(h % 100) + seq![' '] + unit_name(index)
    }
}

/// Divides and rounds to the nearest whole number, ties to the even one.
fn divide_rounding(num: u128, den: u128) -> (out: u128)
    requires
        0 < den <= 0x4_0000_0000_0000,
        num <= 0x1000_0000_0000_0000_0000,
    ensures
        out == round_half_even(num as nat, den as nat),
        out * den <= num + den,
{
    let q = num / den;
    let r = num % den;
    assert(q * den <= num && r < den && q <= num) by (nonlinear_arith)
        requires
            q == num / den,
            r == num % den,
            den > 0,
    ;
    let out = if 2 * r > den || (2 * r == den && q % 2 == 1) {
        q + 1
    } else {
        q
    };
    assert(out * den <= num + den) by (nonlinear_arith)
        requires
            q * den <= num,
            out <= q + 1,
            den > 0,
    ;
    out
}

/// The index of the unit for `size`.
fn unit_index_of(size: u64) -> (index: u8)
    ensures
        index == unit_index(size as nat),
{
    if size < 0x400 {
        0
    } else if size < 0x10_0000 {
        1
    } else if size < 0x4000_0000 {
        2
    } else if size < 0x100_0000_0000 {
        3
    } else if size < 0x4_0000_0000_0000 {
        4
    } else {
        5
    }
}

/// The distance between representable sizes at `size`.
fn spacing_of(size: u64) -> (step: u128)
    ensures
        step == spacing(size as nat),
        1 <= step <= 2048,
{
    if size < 0x20_0000_0000_0000 {
        1
    } else if size < 0x40_0000_0000_0000 {
        2
    } else if size < 0x80_0000_0000_0000 {
        4
    } else if size < 0x100_0000_0000_0000 {
        8
    } else if size < 0x200_0000_0000_0000 {
        16
    } else if size < 0x400_0000_0000_0000 {
        32
    } else if size < 0x800_0000_0000_0000 {
        64
    } else if size < 0x1000_0000_0000_0000 {
        128
    } else if size < 0x2000_0000_0000_0000 {
        256
    } else if size < 0x4000_0000_0000_0000 {
        512
    } else if size < 0x8000_0000_0000_0000 {
        1024
    } else {
        2048
    }
}

/// Renders a size in bytes for a listing: `10 B`, `1.50 KB`, `2.00 GB`.
pub fn format_size(size: u64) -> (label: String)
    ensures
        label@ == size_label(size as nat),
{
    let index = unit_index_of(size);
    let mut out: Vec<char> = Vec::new();
    if index == 0 {
        push_decimal(&mut out, size as u128);
        out.push(' ');
        push_str(&mut out, "B");
        return string_of(out.as_slice());
    }
    let unit: u128 = if index == 1 {
        0x400
    } else if index == 2 {
        0x10_0000
    } else if index == 3 {
        0x4000_0000
    } else if index == 4 {
        0x100_0000_0000
    } else {
        0x4_0000_0000_0000
    };
    let name = if index == 1 {
        "KB"
    } else if index == 2 {
        "MB"
    } else if index == 3 {
        "GB"
    } else if index == 4 {
        "TB"
    } else {
        "PB"
    };
    let step = spacing_of(size);
    let rounded = divide_rounding(size as u128, step);
    let measured: u128 = rounded * step;
    let h = divide_rounding(measured * 100, unit);
    push_decimal(&mut out, h / 100);
    out.push('.');
    out.push(digit_of(((h % 100) / 10) as u8));
    out.push(digit_of(((h % 100) % 10) as u8));
    out.push(' ');
    push_str(&mut out, name);
    proof {
        let n = (h % 100) as nat;
        assert(seq![digit_char(n / 10), digit_char(n % 10)] =~= two_digits(n));
        assert(out@ =~= size_label(size as nat));
    }
    string_of(out.as_slice())
}

/// A larger size is never shown in a smaller unit.
pub proof fn lemma_unit_index_monotonic(a: nat, b: nat)
    requires
        a <= b,
    ensures
        unit_index(a) <= unit_index(b),
        unit_index(b) <= 5,
{
}

/// A size below 1024 is shown in bytes, as a whole number: its label holds
/// no decimal point.
pub proof fn lemma_bytes_have_no_point(size: nat)
    requires
        size < 1024,
    ensures
        unit_index(size) == 0,
        size_label(size) == decimal(size) + seq![' ', 'B'],
        !size_label(size).contains('.'),
{
    reveal_strlit("B");
    lemma_decimal_digits(size);
    let label = size_label(size);
    assert(label =~= decimal(size) + seq![' ', 'B']);
    assert forall|i: int| 0 <= i < label.len() implies label[i] != '.' by {
        if i < decimal(size).len() {
            assert(is_digit(decimal(size)[i]));
        }
    }
}

/// From 1024 bytes on a label holds a decimal point, with exactly two
/// digits between it and the blank before the unit.
pub proof fn lemma_larger_units_have_two_decimals(size: nat)
    requires
        size >= 1024,
    ensures
        unit_index(size) >= 1,
        ({
            let whole = decimal(hundredths(size) / 100);
            let label = size_label(size);
            let n = whole.len() as int;
            &&& label.len() == n + 4 + unit_name(unit_index(size)).len()
            &&& label.subrange(0, n) == whole
            &&& label[n] == '.'
            &&& is_digit(label[n + 1])
            &&& is_digit(label[n + 2])
            &&& label[n + 3] == ' '
        }),
{
    let whole = decimal(hundredths(size) / 100);
    let label = size_label(size);
    assert(label.subrange(0, whole.len() as int) =~= whole);
}

} // verus!
