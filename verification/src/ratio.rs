//! The ratio of a split as the serialised form writes it: a decimal such as
//! `0.295`, held in thousandths of its axis.

use vstd::prelude::*;
use crate::text::{decimal, digit, digit_spec, is_digit, is_digit_spec, push_char};

verus! {

/// A character that can stand in a written ratio.
pub open spec fn is_ratio_char(c: char) -> bool {
    is_digit_spec(c) || c == '.'
}

/// The value of one decimal digit character.
pub open spec fn digit_value(c: char) -> int {
    (c as int) - ('0' as int)
}

/// The index of the first `.` at or after `from`, or the length if none.
pub open spec fn first_dot(s: Seq<char>, from: int) -> int
    decreases s.len() - from,
{
    if from < 0 || from >= s.len() {
        s.len() as int
    } else if s[from] == '.' {
        from
    } else {
        first_dot(s, from + 1)
    }
}

/// The index of the first character at or after `from` that is not `0`, or
/// the length if none.
pub open spec fn first_non_zero(s: Seq<char>, from: int) -> int
    decreases s.len() - from,
{
    if from < 0 || from >= s.len() {
        s.len() as int
    } else if s[from] != '0' {
        from
    } else {
        first_non_zero(s, from + 1)
    }
}

/// The index just past the last character before `to` that is not `0`.
pub open spec fn trailing_end(s: Seq<char>, to: int) -> int
    decreases to,
{
    if to <= 0 {
        0
    } else if s[to - 1] == '0' {
        trailing_end(s, to - 1)
    } else {
        to
    }
}

/// Digits before the point.
pub open spec fn whole_part(s: Seq<char>) -> Seq<char> {
    s.take(first_dot(s, 0))
}

/// Digits after the point.
pub open spec fn fraction_part(s: Seq<char>) -> Seq<char> {
    let d = first_dot(s, 0);
    if d < s.len() {
        s.skip(d + 1)
    } else {
        Seq::empty()
    }
}

/// The whole part without its leading zeros.
pub open spec fn significant(s: Seq<char>) -> Seq<char> {
    let w = whole_part(s);
    w.skip(first_non_zero(w, 0))
}

/// The `k`th digit after the point, zero past the end.
pub open spec fn fraction_digit(s: Seq<char>, k: int) -> int {
    let f = fraction_part(s);
    if k < f.len() {
        digit_value(f[k])
    } else {
        0
    }
}

/// A run of digits and points reads as a number: at least one digit, and
/// at most one point.
pub open spec fn ratio_syntax_ok(s: Seq<char>) -> bool {
    &&& exists|i: int| 0 <= i < s.len() && is_digit_spec(#[trigger] s[i])
    &&& forall|i: int, j: int| 0 <= i < j < s.len() ==> !(#[trigger] s[i] == '.' && #[trigger] s[j] == '.')
}

/// Whether a well formed ratio is greater than one.
pub open spec fn ratio_over_one(s: Seq<char>) -> bool {
    let w = significant(s);
    let f = fraction_part(s);
    ||| w.len() > 1
    ||| (w.len() == 1 && w[0] != '1')
    ||| (w.len() == 1 && exists|i: int| 0 <= i < f.len() && #[trigger] f[i] != '0')
}

/// A ratio of at most one, in thousandths, rounded half up.
///
/// The digits are read exactly: a ratio that only rounds to one in a 32-bit
/// float, such as `1.00000001`, is greater than one here and is refused.
pub open spec fn ratio_thousandths(s: Seq<char>) -> int {
    if significant(s).len() == 1 {
        1000
    } else {
        100 * fraction_digit(s, 0) + 10 * fraction_digit(s, 1) + fraction_digit(s, 2) + (if fraction_digit(s, 3) >= 5 {
            1int
        } else {
            0int
        })
    }
}

/// A number the way it is printed back: no leading zeros before the point,
/// no trailing zeros after it, and no point when nothing follows it.
pub open spec fn ratio_shown(s: Seq<char>) -> Seq<char> {
    let f = fraction_part(s);
    let kept = f.take(trailing_end(f, f.len() as int));
    if kept.len() == 0 {
        significant(s)
    } else {
        significant(s) + seq!['.'] + kept
    }
}

/// A ratio written with three decimals, as in `0.295` or `1.000`.
pub open spec fn ratio_text(thousandths: u16) -> Seq<char> {
    seq![
        digit_spec(thousandths as int / 1000),
        '.',
        digit_spec((thousandths as int / 100) % 10),
        digit_spec((thousandths as int / 10) % 10),
        digit_spec(thousandths as int % 10),
    ]
}

fn first_dot_exec(s: &Vec<char>) -> (d: usize)
    ensures
        d == first_dot(s@, 0),
        d <= s.len(),
{
    let mut i: usize = 0;
    while i < s.len() && s[i] != '.'
        invariant
            0 <= i <= s.len(),
            first_dot(s@, 0) == first_dot(s@, i as int),
        decreases s.len() - i,
    {
        i = i + 1;
    }
    i
}

/// Whether a run of digits and points reads as a number.
pub fn ratio_syntax(s: &Vec<char>) -> (b: bool)
    ensures
        b == ratio_syntax_ok(s@),
{
    let mut digits: bool = false;
    let mut dots: usize = 0;
    let mut i: usize = 0;
    let ghost mut dot_at: int = -1;
    while i < s.len()
        invariant
            0 <= i <= s.len(),
            dots <= 1,
            digits <==> exists|k: int| 0 <= k < i && is_digit_spec(#[trigger] s@[k]),
            dots == 0 ==> forall|k: int| 0 <= k < i ==> #[trigger] s@[k] != '.',
            dots == 1 ==> 0 <= dot_at < i && s@[dot_at] == '.' && forall|k: int|
                0 <= k < i && k != dot_at ==> #[trigger] s@[k] != '.',
        decreases s.len() - i,
    {
        if is_digit(s[i]) {
            digits = true;
        }
        if s[i] == '.' {
            if dots == 1 {
                proof {
                    assert(s@[dot_at] == '.' && s@[i as int] == '.');
                }
                return false;
            }
            dots = 1;
            proof {
                dot_at = i as int;
            }
        }
        i = i + 1;
    }
    proof {
        assert forall|a: int, b: int| 0 <= a < b < s@.len() implies !(#[trigger] s@[a] == '.'
            && #[trigger] s@[b] == '.') by {
            if dots == 1 {
                if a != dot_at {
                    assert(s@[a] != '.');
                } else {
                    assert(s@[b] != '.');
                }
            } else {
                assert(s@[a] != '.');
            }
        }
    }
    digits
}


/// Every character of a run is a digit or a point.
pub open spec fn ratio_run(s: Seq<char>) -> bool {
    forall|i: int| 0 <= i < s.len() ==> is_ratio_char(#[trigger] s[i])
}

/// The first index before `end` that is not `0`, or `end`.
fn first_non_zero_before(s: &Vec<char>, end: usize) -> (r: usize)
    requires
        end <= s.len(),
    ensures
        r == first_non_zero(s@.take(end as int), 0),
        r <= end,
{
    let ghost w = s@.take(end as int);
    let mut i: usize = 0;
    while i < end && s[i] == '0'
        invariant
            0 <= i <= end,
            end <= s.len(),
            w == s@.take(end as int),
            first_non_zero(w, 0) == first_non_zero(w, i as int),
        decreases end - i,
    {
        assert(w[i as int] == s@[i as int]);
        i = i + 1;
    }
    proof {
        if i < end {
            assert(w[i as int] == s@[i as int]);
        }
    }
    i
}

/// Where the fraction starts, and facts tying it to the spec.
proof fn lemma_fraction(s: Seq<char>, d: int)
    requires
        d == first_dot(s, 0),
        0 <= d <= s.len(),
    ensures
        d < s.len() ==> fraction_part(s) == s.skip(d + 1),
        d == s.len() ==> fraction_part(s) == Seq::<char>::empty(),
        forall|k: int|
            0 <= k < fraction_part(s).len() ==> #[trigger] fraction_part(s)[k] == s[d + 1 + k],
{
}

proof fn lemma_fraction_digits(s: Seq<char>, d: int)
    requires
        d == first_dot(s, 0),
        0 <= d <= s.len(),
        ratio_run(s),
        ratio_syntax_ok(s),
    ensures
        forall|k: int| 0 <= k < fraction_part(s).len() ==> is_digit_spec(#[trigger] fraction_part(s)[k]),
        d < s.len() ==> s[d] == '.',
{
    lemma_first_dot_is_dot(s, 0);
    assert forall|k: int| 0 <= k < fraction_part(s).len() implies is_digit_spec(
        #[trigger] fraction_part(s)[k],
    ) by {
        assert(fraction_part(s)[k] == s[d + 1 + k]);
        assert(is_ratio_char(s[d + 1 + k]));
        if s[d + 1 + k] == '.' {
            assert(s[d] == '.' && s[d + 1 + k] == '.');
        }
    }
}

proof fn lemma_first_dot_is_dot(s: Seq<char>, from: int)
    requires
        0 <= from <= s.len(),
    ensures
        from <= first_dot(s, from) <= s.len(),
        first_dot(s, from) < s.len() ==> s[first_dot(s, from)] == '.',
        forall|k: int| from <= k < first_dot(s, from) ==> #[trigger] s[k] != '.',
    decreases s.len() - from,
{
    if from < s.len() && s[from] != '.' {
        lemma_first_dot_is_dot(s, from + 1);
    }
}

/// Whether a well formed ratio is greater than one.
pub fn ratio_over_one_exec(s: &Vec<char>) -> (b: bool)
    requires
        ratio_run(s@),
        ratio_syntax_ok(s@),
    ensures
        b == ratio_over_one(s@),
{
    let d = first_dot_exec(s);
    let lead = first_non_zero_before(s, d);
    proof {
        lemma_fraction(s@, d as int);
        lemma_fraction_digits(s@, d as int);
    }
    let ghost w = significant(s@);
    assert(w.len() == d - lead);
    if d - lead > 1 {
        return true;
    }
    if d - lead == 0 {
        return false;
    }
    assert(w[0] == s@[lead as int]);
    if s[lead] != '1' {
        return true;
    }
    if d == s.len() {
        return false;
    }
    let mut i: usize = d + 1;
    while i < s.len()
        invariant
            d < s.len(),
            d + 1 <= i <= s.len(),
            significant(s@).len() == 1,
            fraction_part(s@) == s@.skip(d + 1),
            forall|k: int| 0 <= k < i - (d + 1) ==> #[trigger] fraction_part(s@)[k] == '0',
        decreases s.len() - i,
    {
        assert(fraction_part(s@)[i - (d + 1)] == s@[i as int]);
        if s[i] != '0' {
            assert(fraction_part(s@)[i - (d + 1)] != '0');
            return true;
        }
        i = i + 1;
    }
    false
}

/// The value of a digit character.
fn digit_of(c: char) -> (v: u16)
    requires
        is_digit_spec(c),
    ensures
        v == digit_value(c),
        v <= 9,
{
    let code: u32 = c as u32;
    (code - 48) as u16
}

/// A ratio of at most one, in thousandths, rounded half up.
pub fn ratio_thousandths_exec(s: &Vec<char>) -> (r: u16)
    requires
        ratio_run(s@),
        ratio_syntax_ok(s@),
        !ratio_over_one(s@),
    ensures
        r == ratio_thousandths(s@),
        r <= 1000,
{
    let d = first_dot_exec(s);
    let lead = first_non_zero_before(s, d);
    proof {
        lemma_fraction(s@, d as int);
        lemma_fraction_digits(s@, d as int);
    }
    assert(significant(s@).len() == d - lead);
    if d - lead == 1 {
        return 1000;
    }
    let mut digits: [u16; 4] = [0, 0, 0, 0];
    let mut k: usize = 0;
    while k < 4
        invariant
            0 <= k <= 4,
            d <= s.len(),
            d == first_dot(s@, 0),
            forall|j: int| 0 <= j < fraction_part(s@).len() ==> is_digit_spec(#[trigger] fraction_part(s@)[j]),
            forall|j: int|
                0 <= j < fraction_part(s@).len() ==> #[trigger] fraction_part(s@)[j] == s@[d + 1 + j],
            forall|j: int| 0 <= j < k ==> #[trigger] digits@[j] as int == fraction_digit(s@, j),
            forall|j: int| 0 <= j < 4 ==> #[trigger] digits@[j] <= 9,
        decreases 4 - k,
    {
        if d < s.len() && k < s.len() - d - 1 {
            assert(fraction_part(s@)[k as int] == s@[d + 1 + k]);
            let v = digit_of(s[d + 1 + k]);
            digits[k] = v;
        } else {
            digits[k] = 0;
        }
        k = k + 1;
    }
    let round: u16 = if digits[3] >= 5 {
        1
    } else {
        0
    };
    100 * digits[0] + 10 * digits[1] + digits[2] + round
}

/// Appends a ratio the way it is printed back.
pub fn push_ratio_shown(out: &mut String, s: &Vec<char>)
    requires
        ratio_run(s@),
        ratio_syntax_ok(s@),
    ensures
        final(out)@ == old(out)@ + ratio_shown(s@),
{
    let d = first_dot_exec(s);
    let lead = first_non_zero_before(s, d);
    proof {
        lemma_fraction(s@, d as int);
    }
    let ghost start = out@;
    let ghost sig = significant(s@);
    let mut i: usize = lead;
    while i < d
        invariant
            lead <= i <= d,
            d <= s.len(),
            sig == s@.take(d as int).skip(lead as int),
            out@ == start + sig.take(i - lead),
        decreases d - i,
    {
        push_char(out, s[i]);
        i = i + 1;
        assert(out@ =~= start + sig.take(i - lead));
    }
    assert(sig.take(d - lead) =~= sig);
    let ghost f = fraction_part(s@);
    let flen: usize = if d < s.len() {
        s.len() - d - 1
    } else {
        0
    };
    assert(flen == f.len());
    let mut end: usize = flen;
    while end > 0 && s[d + end] == '0'
        invariant
            0 <= end <= flen,
            flen == f.len(),
            flen > 0 ==> d < s.len() && d + 1 + flen == s.len(),
            forall|j: int| 0 <= j < f.len() ==> #[trigger] f[j] == s@[d + 1 + j],
            trailing_end(f, f.len() as int) == trailing_end(f, end as int),
        decreases end,
    {
        assert(f[end - 1] == s@[d + end]);
        end = end - 1;
    }
    proof {
        if end > 0 {
            assert(f[end - 1] == s@[d + end]);
        }
    }
    if end > 0 {
        push_char(out, '.');
        let mut j: usize = 0;
        let ghost mid = out@;
        while j < end
            invariant
                0 <= j <= end,
                end <= flen,
                flen == f.len(),
                d < s.len() && d + 1 + flen == s.len(),
                forall|q: int| 0 <= q < f.len() ==> #[trigger] f[q] == s@[d + 1 + q],
                out@ == mid + f.take(j as int),
            decreases end - j,
        {
            push_char(out, s[d + 1 + j]);
            j = j + 1;
            assert(out@ =~= mid + f.take(j as int));
        }
        assert(out@ =~= old(out)@ + ratio_shown(s@));
    } else {
        assert(out@ =~= old(out)@ + ratio_shown(s@));
    }
}

/// Appends a ratio in thousandths with three decimals.
pub fn push_ratio_text(out: &mut String, thousandths: u16)
    requires
        thousandths <= 1000,
    ensures
        final(out)@ == old(out)@ + ratio_text(thousandths),
{
    push_char(out, digit((thousandths / 1000) as u8));
    push_char(out, '.');
    push_char(out, digit(((thousandths / 100) % 10) as u8));
    push_char(out, digit(((thousandths / 10) % 10) as u8));
    push_char(out, digit((thousandths % 10) as u8));
    assert(final(out)@ =~= old(out)@ + ratio_text(thousandths));
}

} // verus!
