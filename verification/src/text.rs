use vstd::prelude::*;

verus! {

/// Appends one character to a string (`String::push`).
#[verifier::external_body]
pub(crate) fn push_char(s: &mut String, c: char)
    ensures
        final(s)@ == old(s)@.push(c),
{
    s.push(c);
}

/// What `str::to_lowercase` makes of a string under Unicode's full lowercase
/// mapping.
pub uninterp spec fn lowercased(s: Seq<char>) -> Seq<char>;

/// The string in lower case, by `str::to_lowercase`. Which characters each
/// character becomes is Unicode's table and is not stated here: the contract
/// only names the result.
#[verifier::external_body]
pub(crate) fn to_lowercase(s: &str) -> (r: String)
    ensures
        r@ == lowercased(s@),
{
    s.to_lowercase()
}

/// The characters of a string slice, in order.
pub fn chars_of(s: &str) -> (v: Vec<char>)
    ensures
        v@ == s@,
{
    let mut v: Vec<char> = Vec::new();
    for c in it: s.chars()
        invariant
            v@ == it.seq().take(it.index() as int),
            it.seq() == s@,
    {
        v.push(c);
    }
    v
}

} // verus!

verus! {

pub open spec fn digit_spec(d: int) -> char {
    (('0' as int) + d) as char
}

/// The decimal digits of a number, most significant first.
pub open spec fn decimal(n: nat) -> Seq<char>
    decreases n,
{
    if n < 10 {
        seq![digit_spec(n as int)]
    } else {
        decimal(n / 10).push(digit_spec((n % 10) as int))
    }
}

/// The character of one decimal digit.
pub fn digit(d: u8) -> (c: char)
    requires
        d < 10,
    ensures
        c == digit_spec(d as int),
{
    match d {
        0 => '0',
        1 => '1',
        2 => '2',
        3 => '3',
        4 => '4',
        5 => '5',
        6 => '6',
        7 => '7',
        8 => '8',
        _ => '9',
    }
}

/// Appends the decimal form of a number.
pub fn push_decimal(s: &mut String, n: u64)
    ensures
        final(s)@ == old(s)@ + decimal(n as nat),
    decreases n,
{
    if n >= 10 {
        push_decimal(s, n / 10);
    }
    push_char(s, digit((n % 10) as u8));
    proof {
        if n >= 10 {
            assert(final(s)@ =~= old(s)@ + decimal(n as nat));
        } else {
            assert(final(s)@ =~= old(s)@ + decimal(n as nat));
        }
    }
}

/// Appends a string slice.
pub fn push_str(s: &mut String, tail: &str)
    ensures
        final(s)@ == old(s)@ + tail@,
{
    let chars = chars_of(tail);
    let mut i: usize = 0;
    let ghost start = s@;
    while i < chars.len()
        invariant
            0 <= i <= chars.len(),
            chars@ == tail@,
            s@ == start + tail@.take(i as int),
        decreases chars.len() - i,
    {
        push_char(s, chars[i]);
        i = i + 1;
        assert(s@ =~= start + tail@.take(i as int));
    }
    assert(tail@.take(chars.len() as int) =~= tail@);
}

/// Appends a sequence of characters.
pub fn push_chars(s: &mut String, tail: &Vec<char>)
    ensures
        final(s)@ == old(s)@ + tail@,
{
    let mut i: usize = 0;
    let ghost start = s@;
    while i < tail.len()
        invariant
            0 <= i <= tail.len(),
            s@ == start + tail@.take(i as int),
        decreases tail.len() - i,
    {
        push_char(s, tail[i]);
        i = i + 1;
        assert(s@ =~= start + tail@.take(i as int));
    }
    assert(tail@.take(tail.len() as int) =~= tail@);
}

/// A string holding exactly these characters.
pub fn string_of(chars: &Vec<char>) -> (s: String)
    ensures
        s@ == chars@,
{
    let mut s = String::new();
    push_chars(&mut s, chars);
    assert(s@ =~= chars@);
    s
}

/// A string holding exactly this slice.
pub fn owned(text: &str) -> (s: String)
    ensures
        s@ == text@,
{
    let mut s = String::new();
    push_str(&mut s, text);
    assert(s@ =~= text@);
    s
}

pub open spec fn is_digit_spec(c: char) -> bool {
    '0' <= c && c <= '9'
}

pub open spec fn is_lower_spec(c: char) -> bool {
    'a' <= c && c <= 'z'
}

pub open spec fn is_upper_spec(c: char) -> bool {
    'A' <= c && c <= 'Z'
}

pub open spec fn is_alphanumeric_spec(c: char) -> bool {
    is_digit_spec(c) || is_lower_spec(c) || is_upper_spec(c)
}

/// The characters the Unicode `White_Space` property names.
pub open spec fn is_whitespace_spec(c: char) -> bool {
    ||| ('\u{9}' <= c && c <= '\u{d}')
    ||| c == ' '
    ||| c == '\u{85}'
    ||| c == '\u{a0}'
    ||| c == '\u{1680}'
    ||| ('\u{2000}' <= c && c <= '\u{200a}')
    ||| c == '\u{2028}'
    ||| c == '\u{2029}'
    ||| c == '\u{202f}'
    ||| c == '\u{205f}'
    ||| c == '\u{3000}'
}

pub open spec fn lower_spec(c: char) -> char {
    if is_upper_spec(c) {
        ((c as int) + 32) as char
    } else {
        c
    }
}

pub fn is_digit(c: char) -> (b: bool)
    ensures
        b == is_digit_spec(c),
{
    '0' <= c && c <= '9'
}

pub fn is_alphanumeric(c: char) -> (b: bool)
    ensures
        b == is_alphanumeric_spec(c),
{
    ('0' <= c && c <= '9') || ('a' <= c && c <= 'z') || ('A' <= c && c <= 'Z')
}

pub fn is_whitespace(c: char) -> (b: bool)
    ensures
        b == is_whitespace_spec(c),
{
    ('\u{9}' <= c && c <= '\u{d}') || c == ' ' || c == '\u{85}' || c == '\u{a0}' || c == '\u{1680}'
        || ('\u{2000}' <= c && c <= '\u{200a}') || c == '\u{2028}' || c == '\u{2029}' || c
        == '\u{202f}' || c == '\u{205f}' || c == '\u{3000}'
}

/// An ASCII capital letter in lower case; every other character unchanged.
pub fn lower(c: char) -> (r: char)
    ensures
        r == lower_spec(c),
{
    if 'A' <= c && c <= 'Z' {
        let code: u32 = c as u32;
        char_from_ascii((code + 32) as u8)
    } else {
        c
    }
}

/// The character of an ASCII code.
fn char_from_ascii(b: u8) -> (c: char)
    requires
        b < 128,
    ensures
        c as int == b as int,
{
    b as char
}

/// The first index at or after `from` that is not whitespace.
pub open spec fn trim_start_index(s: Seq<char>, from: int) -> int
    decreases s.len() - from,
{
    if from >= s.len() {
        s.len() as int
    } else if is_whitespace_spec(s[from]) {
        trim_start_index(s, from + 1)
    } else {
        from
    }
}

/// The index just past the last non-whitespace character before `to`.
pub open spec fn trim_end_index(s: Seq<char>, to: int) -> int
    decreases to,
{
    if to <= 0 {
        0
    } else if is_whitespace_spec(s[to - 1]) {
        trim_end_index(s, to - 1)
    } else {
        to
    }
}

/// Leading and trailing whitespace removed.
pub open spec fn trim_spec(s: Seq<char>) -> Seq<char> {
    let start = trim_start_index(s, 0);
    let end = trim_end_index(s, s.len() as int);
    if start >= end {
        Seq::empty()
    } else {
        s.subrange(start, end)
    }
}

pub proof fn lemma_trim_len(s: Seq<char>)
    ensures
        trim_spec(s).len() <= s.len(),
{
    lemma_trim_start_bounds(s, 0);
    lemma_trim_end_bounds(s, s.len() as int);
}

proof fn lemma_trim_start_bounds(s: Seq<char>, from: int)
    requires
        0 <= from <= s.len(),
    ensures
        from <= trim_start_index(s, from) <= s.len(),
    decreases s.len() - from,
{
    if from < s.len() && is_whitespace_spec(s[from]) {
        lemma_trim_start_bounds(s, from + 1);
    }
}

proof fn lemma_trim_end_bounds(s: Seq<char>, to: int)
    requires
        0 <= to <= s.len(),
    ensures
        0 <= trim_end_index(s, to) <= to,
    decreases to,
{
    if to > 0 && is_whitespace_spec(s[to - 1]) {
        lemma_trim_end_bounds(s, to - 1);
    }
}

pub fn trim(s: &Vec<char>) -> (r: Vec<char>)
    ensures
        r@ == trim_spec(s@),
{
    let mut start: usize = 0;
    while start < s.len() && is_whitespace(s[start])
        invariant
            0 <= start <= s.len(),
            trim_start_index(s@, 0) == trim_start_index(s@, start as int),
        decreases s.len() - start,
    {
        start = start + 1;
    }
    let mut end: usize = s.len();
    while end > 0 && is_whitespace(s[end - 1])
        invariant
            0 <= end <= s.len(),
            trim_end_index(s@, s@.len() as int) == trim_end_index(s@, end as int),
        decreases end,
    {
        end = end - 1;
    }
    let mut r: Vec<char> = Vec::new();
    if start < end {
        let mut i: usize = start;
        while i < end
            invariant
                start <= i <= end,
                end <= s.len(),
                r@ == s@.subrange(start as int, i as int),
            decreases end - i,
        {
            r.push(s[i]);
            i = i + 1;
            assert(r@ =~= s@.subrange(start as int, i as int));
        }
    }
    assert(r@ =~= trim_spec(s@));
    r
}

/// Every ASCII capital letter in lower case.
pub open spec fn lower_all(s: Seq<char>) -> Seq<char> {
    Seq::new(s.len(), |i: int| lower_spec(s[i]))
}

pub fn lower_chars(s: &Vec<char>) -> (r: Vec<char>)
    ensures
        r@ == lower_all(s@),
{
    let mut r: Vec<char> = Vec::new();
    let mut i: usize = 0;
    while i < s.len()
        invariant
            0 <= i <= s.len(),
            r@.len() == i,
            forall|k: int| 0 <= k < i ==> r@[k] == lower_spec(s@[k]),
        decreases s.len() - i,
    {
        r.push(lower(s[i]));
        i = i + 1;
    }
    assert(r@ =~= lower_all(s@));
    r
}

/// Whether `needle` occurs anywhere in `hay`.
pub open spec fn contains_seq(hay: Seq<char>, needle: Seq<char>) -> bool {
    exists|i: int|
        0 <= i && i + needle.len() <= hay.len() && #[trigger] hay.subrange(i, i + needle.len()) == needle
}

fn matches_at(hay: &Vec<char>, needle: &Vec<char>, at: usize) -> (b: bool)
    requires
        at + needle.len() <= hay.len(),
    ensures
        b == (hay@.subrange(at as int, at + needle.len()) == needle@),
{
    let mut k: usize = 0;
    while k < needle.len()
        invariant
            0 <= k <= needle.len(),
            at + needle.len() <= hay.len(),
            forall|j: int| 0 <= j < k ==> hay@[at + j] == needle@[j],
        decreases needle.len() - k,
    {
        if hay[at + k] != needle[k] {
            assert(hay@.subrange(at as int, at + needle.len())[k as int] != needle@[k as int]);
            return false;
        }
        k = k + 1;
    }
    assert(hay@.subrange(at as int, at + needle.len()) =~= needle@);
    true
}

pub fn contains_chars(hay: &Vec<char>, needle: &Vec<char>) -> (b: bool)
    ensures
        b == contains_seq(hay@, needle@),
{
    if needle.len() > hay.len() {
        return false;
    }
    if needle.len() == 0 {
        assert(hay@.subrange(0int, 0int + needle@.len()) =~= needle@);
        return true;
    }
    let last: usize = hay.len() - needle.len();
    let mut i: usize = 0;
    while i <= last
        invariant
            1 <= needle.len() <= hay.len(),
            last == hay.len() - needle.len(),
            i <= last + 1,
            forall|j: int|
                0 <= j < i ==> #[trigger] hay@.subrange(j, j + needle.len()) != needle@,
        decreases last + 1 - i,
    {
        if matches_at(hay, needle, i) {
            return true;
        }
        i = i + 1;
    }
    proof {
        assert forall|j: int|
            0 <= j && j + needle.len() <= hay.len() implies #[trigger] hay@.subrange(
            j,
            j + needle.len(),
        ) != needle@ by {
            assert(j < i);
        }
    }
    false
}

/// Whether two character sequences are the same.
pub fn same_chars(a: &Vec<char>, b: &Vec<char>) -> (r: bool)
    ensures
        r == (a@ == b@),
{
    if a.len() != b.len() {
        return false;
    }
    let mut i: usize = 0;
    while i < a.len()
        invariant
            a.len() == b.len(),
            0 <= i <= a.len(),
            forall|k: int| 0 <= k < i ==> a@[k] == b@[k],
        decreases a.len() - i,
    {
        if a[i] != b[i] {
            return false;
        }
        i = i + 1;
    }
    assert(a@ =~= b@);
    true
}

} // verus!
