//! Characters, runs of characters and lines: the vocabulary in which the
//! layout of a block is stated.

use vstd::prelude::*;
use vstd::std_specs::iter::IteratorSpec;

verus! {

/// `String::push` appends the character to the string and leaves the rest
/// of it as it was. Assumed of the standard library, not proved.
pub assume_specification[ String::push ](s: &mut String, c: char)
    ensures
        final(s)@ == old(s)@.push(c),
;

/// One of `0-9`, `a-f`, `A-F`.
pub open spec fn is_hex_digit(c: char) -> bool {
    ('0' <= c && c <= '9') || ('a' <= c && c <= 'f') || ('A' <= c && c <= 'F')
}

/// A character with the Unicode property `White_Space`.
pub open spec fn is_whitespace(c: char) -> bool {
    let u = c as u32;
    (0x09 <= u && u <= 0x0D) || u == 0x20 || u == 0x85 || u == 0xA0 || u == 0x1680 || (0x2000 <= u
        && u <= 0x200A) || u == 0x2028 || u == 0x2029 || u == 0x202F || u == 0x205F || u == 0x3000
}

/// The hexadecimal digits of the text, in order, everything else left out.
pub open spec fn hex_digits_of(s: Seq<char>) -> Seq<char> {
    s.filter(|c: char| is_hex_digit(c))
}

/// The text with its whitespace characters left out.
pub open spec fn without_whitespace(s: Seq<char>) -> Seq<char> {
    s.filter(|c: char| !is_whitespace(c))
}

/// The first position at or after `from` where `s` holds `c`, or `s.len()`
/// where it holds none.
pub open spec fn position_of(s: Seq<char>, c: char, from: int) -> int
    decreases s.len() - from,
{
    if from < 0 || from >= s.len() {
        s.len() as int
    } else if s[from] == c {
        from
    } else {
        position_of(s, c, from + 1)
    }
}

/// Where the run of hexadecimal digits that starts at `from` ends.
pub open spec fn hex_run_end(s: Seq<char>, from: int) -> int
    decreases s.len() - from,
{
    if from < 0 || from >= s.len() || !is_hex_digit(s[from]) {
        from
    } else {
        hex_run_end(s, from + 1)
    }
}

/// Where the run of whitespace that starts at `from` ends.
pub open spec fn space_run_end(s: Seq<char>, from: int) -> int
    decreases s.len() - from,
{
    if from < 0 || from >= s.len() || !is_whitespace(s[from]) {
        from
    } else {
        space_run_end(s, from + 1)
    }
}

/// Where the content of the line that starts at `from` ends: before the
/// line feed that ends the line, and before a carriage return in front of
/// that line feed; at the end of the text where no line feed follows.
pub open spec fn line_content_end(s: Seq<char>, from: int) -> int {
    let nl = position_of(s, '\n', from);
    if nl < s.len() && from < nl && s[nl - 1] == '\r' {
        nl - 1
    } else {
        nl
    }
}

/// Where the line after the one that starts at `from` starts.
pub open spec fn next_line_start(s: Seq<char>, from: int) -> int {
    let nl = position_of(s, '\n', from);
    if nl < s.len() {
        nl + 1
    } else {
        nl
    }
}

/// The lines of `s` from position `from` on.
pub open spec fn lines_from(s: Seq<char>, from: int) -> Seq<Seq<char>>
    decreases s.len() - from,
    via lines_from_terminates
{
    if from < 0 || from >= s.len() {
        Seq::empty()
    } else {
        seq![s.subrange(from, line_content_end(s, from))] + lines_from(s, next_line_start(s, from))
    }
}

#[via_fn]
proof fn lines_from_terminates(s: Seq<char>, from: int) {
    if 0 <= from < s.len() {
        lemma_position_of_bounds(s, '\n', from);
    }
}

/// The lines of a text. A line ends at a line feed, or at the end of the
/// text; the line feed is no part of it, nor is a carriage return directly
/// in front of the line feed. Nothing follows the last line feed unless
/// text does.
pub open spec fn lines(s: Seq<char>) -> Seq<Seq<char>> {
    lines_from(s, 0)
}

/// Where `position_of` points, and that nothing before it holds `c`.
pub proof fn lemma_position_of_bounds(s: Seq<char>, c: char, from: int)
    requires
        0 <= from <= s.len(),
    ensures
        from <= position_of(s, c, from) <= s.len(),
        position_of(s, c, from) < s.len() ==> s[position_of(s, c, from)] == c,
        forall|k: int| from <= k < position_of(s, c, from) ==> s[k] != c,
    decreases s.len() - from,
{
    if from < s.len() && s[from] != c {
        lemma_position_of_bounds(s, c, from + 1);
    }
}

/// A run of hexadecimal digits holds digits, and ends in front of a
/// character that is none or at the end of the text.
pub proof fn lemma_hex_run(s: Seq<char>, from: int)
    requires
        0 <= from <= s.len(),
    ensures
        from <= hex_run_end(s, from) <= s.len(),
        hex_run_end(s, from) < s.len() ==> !is_hex_digit(s[hex_run_end(s, from)]),
        forall|k: int| from <= k < hex_run_end(s, from) ==> is_hex_digit(s[k]),
    decreases s.len() - from,
{
    if from < s.len() && is_hex_digit(s[from]) {
        lemma_hex_run(s, from + 1);
    }
}

/// A run of whitespace holds whitespace, and ends in front of a character
/// that is none or at the end of the text.
pub proof fn lemma_space_run(s: Seq<char>, from: int)
    requires
        0 <= from <= s.len(),
    ensures
        from <= space_run_end(s, from) <= s.len(),
        space_run_end(s, from) < s.len() ==> !is_whitespace(s[space_run_end(s, from)]),
        forall|k: int| from <= k < space_run_end(s, from) ==> is_whitespace(s[k]),
    decreases s.len() - from,
{
    if from < s.len() && is_whitespace(s[from]) {
        lemma_space_run(s, from + 1);
    }
}

/// A run is where its characters say it is: the first position at or after
/// `from` that holds no hexadecimal digit.
pub proof fn lemma_hex_run_is(s: Seq<char>, from: int, end: int)
    requires
        0 <= from <= end <= s.len(),
        forall|k: int| from <= k < end ==> is_hex_digit(s[k]),
        end < s.len() ==> !is_hex_digit(s[end]),
    ensures
        hex_run_end(s, from) == end,
    decreases end - from,
{
    if from < end {
        lemma_hex_run_is(s, from + 1, end);
    }
}

/// A run of whitespace is where its characters say it is.
pub proof fn lemma_space_run_is(s: Seq<char>, from: int, end: int)
    requires
        0 <= from <= end <= s.len(),
        forall|k: int| from <= k < end ==> is_whitespace(s[k]),
        end < s.len() ==> !is_whitespace(s[end]),
    ensures
        space_run_end(s, from) == end,
    decreases end - from,
{
    if from < end {
        lemma_space_run_is(s, from + 1, end);
    }
}

/// The first `c` is where the characters say it is.
pub proof fn lemma_position_of_is(s: Seq<char>, c: char, from: int, at: int)
    requires
        0 <= from <= at <= s.len(),
        forall|k: int| from <= k < at ==> s[k] != c,
        at < s.len() ==> s[at] == c,
    ensures
        position_of(s, c, from) == at,
    decreases at - from,
{
    if from < at {
        lemma_position_of_is(s, c, from + 1, at);
    }
}

/// Whether the character is a hexadecimal digit.
pub fn hex_digit(c: char) -> (b: bool)
    ensures
        b == is_hex_digit(c),
{
    (c >= '0' && c <= '9') || (c >= 'a' && c <= 'f') || (c >= 'A' && c <= 'F')
}

/// Whether the character is whitespace.
pub fn whitespace(c: char) -> (b: bool)
    ensures
        b == is_whitespace(c),
{
    let u: u32 = c as u32;
    (0x09 <= u && u <= 0x0D) || u == 0x20 || u == 0x85 || u == 0xA0 || u == 0x1680 || (0x2000 <= u
        && u <= 0x200A) || u == 0x2028 || u == 0x2029 || u == 0x202F || u == 0x205F || u == 0x3000
}

/// The characters of a string slice.
pub fn chars_of(s: &str) -> (v: Vec<char>)
    ensures
        v@ == s@,
{
    let mut v: Vec<char> = Vec::new();
    for c in it: s.chars()
        invariant
            v@ == s@.take(it.index() as int),
            it.seq() == s@,
    {
        v.push(c);
    }
    v
}

/// The string made of the given characters.
pub fn string_of(chars: &[char]) -> (s: String)
    ensures
        s@ == chars@,
{
    let mut s = String::new();
    let mut i: usize = 0;
    while i < chars.len()
        invariant
            i <= chars.len(),
            s@ == chars@.take(i as int),
        decreases chars.len() - i,
    {
        s.push(chars[i]);
        i += 1;
    }
    s
}

/// Whether two string slices hold the same text.
pub fn same_text(a: &str, b: &str) -> (r: bool)
    ensures
        r == (a@ == b@),
{
    let x = a.to_owned();
    let y = b.to_owned();
    x == y
}

/// The first position at or after `from` that holds `c`.
pub(crate) fn find_char(s: &[char], c: char, from: usize) -> (p: usize)
    requires
        from <= s.len(),
    ensures
        p == position_of(s@, c, from as int),
        from <= p <= s.len(),
{
    let mut p: usize = from;
    while p < s.len() && s[p] != c
        invariant
            from <= p <= s.len(),
            position_of(s@, c, from as int) == position_of(s@, c, p as int),
        decreases s.len() - p,
    {
        p += 1;
    }
    p
}

/// The end of the run of hexadecimal digits that starts at `from`.
pub(crate) fn skip_hex_digits(s: &[char], from: usize) -> (p: usize)
    requires
        from <= s.len(),
    ensures
        p == hex_run_end(s@, from as int),
        from <= p <= s.len(),
{
    let mut p: usize = from;
    while p < s.len() && hex_digit(s[p])
        invariant
            from <= p <= s.len(),
            hex_run_end(s@, from as int) == hex_run_end(s@, p as int),
        decreases s.len() - p,
    {
        p += 1;
    }
    p
}

/// The end of the run of whitespace that starts at `from`.
pub(crate) fn skip_whitespace(s: &[char], from: usize) -> (p: usize)
    requires
        from <= s.len(),
    ensures
        p == space_run_end(s@, from as int),
        from <= p <= s.len(),
{
    let mut p: usize = from;
    while p < s.len() && whitespace(s[p])
        invariant
            from <= p <= s.len(),
            space_run_end(s@, from as int) == space_run_end(s@, p as int),
        decreases s.len() - p,
    {
        p += 1;
    }
    p
}

/// The extent of the line that starts at `from`: where its content ends
/// and where the next line starts.
pub(crate) fn line_extent(s: &[char], from: usize) -> (r: (usize, usize))
    requires
        from < s.len(),
    ensures
        r.0 == line_content_end(s@, from as int),
        r.1 == next_line_start(s@, from as int),
        from <= r.0 <= r.1 <= s.len(),
        from < r.1,
{
    let nl = find_char(s, '\n', from);
    proof {
        lemma_position_of_bounds(s@, '\n', from as int);
    }
    if nl < s.len() {
        if from < nl && s[nl - 1] == '\r' {
            (nl - 1, nl + 1)
        } else {
            (nl, nl + 1)
        }
    } else {
        (nl, nl)
    }
}

/// The digits of a text that is one character longer: the digits of the
/// shorter text, and the new character where it is a digit.
pub proof fn lemma_hex_digits_step(s: Seq<char>, i: int)
    requires
        0 <= i < s.len(),
    ensures
        hex_digits_of(s.take(i + 1)) == if is_hex_digit(s[i]) {
            hex_digits_of(s.take(i)).push(s[i])
        } else {
            hex_digits_of(s.take(i))
        },
{
    reveal(Seq::filter);
    assert(s.take(i + 1).drop_last() =~= s.take(i));
}

/// An empty text has no digits and nothing besides whitespace.
pub proof fn lemma_filters_of_empty()
    ensures
        hex_digits_of(Seq::<char>::empty()) == Seq::<char>::empty(),
        without_whitespace(Seq::<char>::empty()) == Seq::<char>::empty(),
{
    reveal(Seq::filter);
}

/// The same for what is left when whitespace is taken out.
pub proof fn lemma_without_whitespace_step(s: Seq<char>, i: int)
    requires
        0 <= i < s.len(),
    ensures
        without_whitespace(s.take(i + 1)) == if !is_whitespace(s[i]) {
            without_whitespace(s.take(i)).push(s[i])
        } else {
            without_whitespace(s.take(i))
        },
{
    reveal(Seq::filter);
    assert(s.take(i + 1).drop_last() =~= s.take(i));
}

/// The lines of a text.
pub fn split_lines(s: &str) -> (ls: Vec<String>)
    ensures
        ls@.map_values(|l: String| l@) == lines(s@),
{
    let chars = chars_of(s);
    let text = chars.as_slice();
    let mut ls: Vec<String> = Vec::new();
    let mut start: usize = 0;
    assert(ls@.map_values(|l: String| l@) + lines_from(text@, 0) =~= lines(s@));
    while start < text.len()
        invariant
            start <= text.len(),
            text@ == s@,
            lines(s@) == ls@.map_values(|l: String| l@) + lines_from(text@, start as int),
        decreases text.len() - start,
    {
        let (end, next) = line_extent(text, start);
        let line = string_of(vstd::slice::slice_subrange(text, start, end));
        let ghost before = ls@;
        ls.push(line);
        proof {
            let rest = lines_from(text@, next as int);
            assert(ls@.map_values(|l: String| l@) =~= before.map_values(|l: String| l@).push(
                line@,
            ));
            assert(before.map_values(|l: String| l@).push(line@) + rest =~= before.map_values(
                |l: String| l@,
            ) + (seq![line@] + rest));
        }
        start = next;
    }
    assert(ls@.map_values(|l: String| l@) + Seq::<Seq<char>>::empty() =~= ls@.map_values(
        |l: String| l@,
    ));
    ls
}

/// Whether `pattern` stands in `s` at position `at`.
pub(crate) fn starts_with_at(s: &[char], at: usize, pattern: &[char]) -> (r: bool)
    requires
        at <= s.len(),
    ensures
        r == pattern@.is_prefix_of(s@.skip(at as int)),
{
    if pattern.len() > s.len() - at {
        return false;
    }
    let mut k: usize = 0;
    while k < pattern.len()
        invariant
            k <= pattern.len(),
            pattern.len() <= s.len() - at,
            forall|j: int| 0 <= j < k ==> pattern@[j] == s@[at + j],
        decreases pattern.len() - k,
    {
        if pattern[k] != s[at + k] {
            assert(pattern@[k as int] != s@.skip(at as int)[k as int]);
            return false;
        }
        k += 1;
    }
    assert(pattern@ =~= s@.skip(at as int).subrange(0, pattern@.len() as int));
    true
}

/// Appends the hexadecimal digits of `s` to `out`.
pub fn push_hex_digits(out: &mut String, s: &[char])
    ensures
        final(out)@ == old(out)@ + hex_digits_of(s@),
{
    let mut i: usize = 0;
    proof {
        lemma_filters_of_empty();
        assert(s@.take(0) =~= Seq::<char>::empty());
        assert(old(out)@ + Seq::<char>::empty() =~= old(out)@);
    }
    while i < s.len()
        invariant
            i <= s.len(),
            out@ == old(out)@ + hex_digits_of(s@.take(i as int)),
        decreases s.len() - i,
    {
        proof {
            lemma_hex_digits_step(s@, i as int);
            assert((old(out)@ + hex_digits_of(s@.take(i as int))).push(s@[i as int]) =~= old(out)@
                + hex_digits_of(s@.take(i as int)).push(s@[i as int]));
        }
        if hex_digit(s[i]) {
            out.push(s[i]);
        }
        i += 1;
    }
    assert(s@.take(s@.len() as int) =~= s@);
}

/// The text without its whitespace.
pub fn strip_whitespace(s: &[char]) -> (out: String)
    ensures
        out@ == without_whitespace(s@),
{
    let mut out = String::new();
    let mut i: usize = 0;
    proof {
        lemma_filters_of_empty();
        assert(s@.take(0) =~= Seq::<char>::empty());
    }
    while i < s.len()
        invariant
            i <= s.len(),
            out@ == without_whitespace(s@.take(i as int)),
        decreases s.len() - i,
    {
        proof {
            lemma_without_whitespace_step(s@, i as int);
        }
        if !whitespace(s[i]) {
            out.push(s[i]);
        }
        i += 1;
    }
    assert(s@.take(s@.len() as int) =~= s@);
    out
}

/// The decimal digits of a number, without leading zeros.
pub open spec fn decimal(n: nat) -> Seq<char>
    decreases n,
{
    if n < 10 {
        seq![(0x30 + n) as char]
    } else {
        decimal(n / 10).push((0x30 + n % 10) as char)
    }
}

/// The number in decimal digits.
pub fn decimal_text(n: u64) -> (text: String)
    ensures
        text@ == decimal(n as nat),
{
    let mut digits: Vec<char> = Vec::new();
    digits.push(digit_char(n % 10));
    let mut m: u64 = n / 10;
    assert(decimal(n as nat) =~= (if m > 0 {
        decimal(m as nat)
    } else {
        Seq::<char>::empty()
    }) + digits@.reverse());
    while m > 0
        invariant
            digits@.len() > 0,
            decimal(n as nat) == (if m > 0 {
                decimal(m as nat)
            } else {
                Seq::<char>::empty()
            }) + digits@.reverse(),
        decreases m,
    {
        let ghost before = digits@;
        digits.push(digit_char(m % 10));
        proof {
            assert(digits@.reverse() =~= seq![digits@.last()] + before.reverse());
            let head = if m / 10 > 0 {
                decimal((m / 10) as nat)
            } else {
                Seq::<char>::empty()
            };
            assert(decimal(m as nat) =~= head + seq![digits@.last()]);
            assert(decimal(n as nat) =~= head + digits@.reverse());
        }
        m = m / 10;
    }
    assert(decimal(n as nat) =~= digits@.reverse());
    let mut text = String::new();
    let mut left: usize = digits.len();
    while left > 0
        invariant
            left <= digits@.len(),
            text@ == digits@.reverse().take(digits@.len() - left),
        decreases left,
    {
        left -= 1;
        text.push(digits[left]);
        assert(digits@.reverse().take(digits@.len() - left) =~= digits@.reverse().take(
            digits@.len() - left - 1,
        ).push(digits@[left as int]));
    }
    assert(digits@.reverse().take(digits@.len() as int) =~= digits@.reverse());
    text
}

/// The character for a decimal digit.
fn digit_char(d: u64) -> (c: char)
    requires
        d < 10,
    ensures
        c == (0x30 + d) as char,
{
    let b: u8 = 0x30 + d as u8;
    b as char
}

} // verus!
