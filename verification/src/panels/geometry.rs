//! The figures the geometry panel prints: a file size in the unit a person
//! would use, and how wide its budget meter can be.

use vstd::prelude::*;
use crate::text::{decimal, digit, digit_spec, push_char, push_decimal, push_str};

verus! {

/// Wide enough for the longest label the panel uses.
pub const LABEL: u16 = 10;

pub open spec fn meter_cells_spec(width: u16) -> u16 {
    let room: int = if width >= 22 {
        width - 22
    } else {
        0
    };
    if room < 4 {
        4
    } else if room > 40 {
        40
    } else {
        room as u16
    }
}

/// Cells for the budget meter, leaving room for the label beside it, and
/// never fewer than four nor more than forty.
pub fn meter_cells(width: u16) -> (r: u16)
    ensures
        r == meter_cells_spec(width),
        4 <= r <= 40,
{
    let room = width.saturating_sub(LABEL + 12);
    if room < 4 {
        4
    } else if room > 40 {
        40
    } else {
        room
    }
}

/// A quantity in tenths of `scale`, rounded to the nearest tenth with ties
/// to the even tenth.
pub open spec fn tenths(bytes: u64, scale: int) -> int {
    let t = (bytes * 10) / scale;
    let rem = (bytes * 10) % scale;
    if rem * 2 > scale {
        t + 1
    } else if rem * 2 == scale && t % 2 == 1 {
        t + 1
    } else {
        t
    }
}

/// Tenths written with one decimal, as in `2.4`.
pub open spec fn tenths_text(t: int) -> Seq<char> {
    decimal((t / 10) as nat) + seq!['.'] + seq![digit_spec(t % 10)]
}

pub open spec fn human_size_spec(bytes: u64) -> Seq<char> {
    if bytes >= 1073741824 {
        tenths_text(tenths(bytes, 1073741824)) + " GB"@
    } else if bytes >= 1048576 {
        tenths_text(tenths(bytes, 1048576)) + " MB"@
    } else if bytes >= 1024 {
        tenths_text(tenths(bytes, 1024)) + " kB"@
    } else {
        decimal(bytes as nat) + " B"@
    }
}

fn push_tenths(out: &mut String, bytes: u64, scale: u64)
    requires
        scale > 0,
    ensures
        final(out)@ == old(out)@ + tenths_text(tenths(bytes, scale as int)),
{
    let scaled: u128 = bytes as u128 * 10;
    let t: u128 = scaled / scale as u128;
    let rem: u128 = scaled % scale as u128;
    let rounded: u128 = if rem * 2 > scale as u128 {
        t + 1
    } else if rem * 2 == scale as u128 && t % 2 == 1 {
        t + 1
    } else {
        t
    };
    assert(rounded == tenths(bytes, scale as int));
    assert(t <= scaled) by (nonlinear_arith)
        requires
            t == scaled / (scale as u128),
            scale >= 1,
    ;
    push_decimal(out, (rounded / 10) as u64);
    push_char(out, '.');
    push_char(out, digit((rounded % 10) as u8));
    assert(final(out)@ =~= old(out)@ + tenths_text(tenths(bytes, scale as int)));
}

/// A file size in the unit a person would use: bytes below a kilobyte, then
/// one decimal of kB, MB or GB.
pub fn human_size(bytes: u64) -> (r: String)
    ensures
        r@ == human_size_spec(bytes),
{
    let mut out = String::new();
    if bytes >= 1073741824 {
        push_tenths(&mut out, bytes, 1073741824);
        push_str(&mut out, " GB");
    } else if bytes >= 1048576 {
        push_tenths(&mut out, bytes, 1048576);
        push_str(&mut out, " MB");
    } else if bytes >= 1024 {
        push_tenths(&mut out, bytes, 1024);
        push_str(&mut out, " kB");
    } else {
        push_decimal(&mut out, bytes);
        push_str(&mut out, " B");
    }
    assert(out@ =~= human_size_spec(bytes));
    out
}

} // verus!
