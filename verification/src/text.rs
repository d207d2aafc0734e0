//! Character-level string helpers shared by the panels.

use vstd::prelude::*;
use vstd::utf8::{decode_utf8, valid_utf8};

verus! {

/// The characters of `s`, in order.
pub fn chars_of(s: &str) -> (res: Vec<char>)
    ensures
        res@ == s@,
{
    let mut res: Vec<char> = Vec::new();
    for c in it: s.chars()
        invariant
            res@ == it.seq().take(it.index() as int),
            it.seq() == s@,
    {
        res.push(c);
    }
    res
}

/// Appends one character to a string (`String::push`).
#[verifier::external_body]
pub(crate) fn push_char(s: &mut String, c: char)
    ensures
        final(s)@ == old(s)@.push(c),
{
    s.push(c)
}

/// A string holding exactly the given characters.
pub fn string_of(chars: &[char]) -> (res: String)
    ensures
        res@ == chars@,
{
    let mut res = String::new();
    let mut i: usize = 0;
    while i < chars.len()
        invariant
            i <= chars.len(),
            res@ == chars@.take(i as int),
        decreases chars.len() - i,
    {
        push_char(&mut res, chars[i]);
        i = i + 1;
        assert(chars@.take(i as int) == chars@.take((i - 1) as int).push(chars@[i - 1]));
    }
    assert(chars@.take(chars.len() as int) == chars@);
    res
}


/// The Unicode `White_Space` property, which `char::is_whitespace` tests.
pub open spec fn is_white_space(c: char) -> bool {
    let v = c as u32;
    ||| 0x09 <= v <= 0x0d
    ||| v == 0x20
    ||| v == 0x85
    ||| v == 0xa0
    ||| v == 0x1680
    ||| 0x2000 <= v <= 0x200a
    ||| v == 0x2028
    ||| v == 0x2029
    ||| v == 0x202f
    ||| v == 0x205f
    ||| v == 0x3000
}

/// Whether `c` is white space in the sense of `char::is_whitespace`.
pub fn is_whitespace(c: char) -> (res: bool)
    ensures
        res == is_white_space(c),
{
    let v = c as u32;
    (0x09 <= v && v <= 0x0d) || v == 0x20 || v == 0x85 || v == 0xa0 || v == 0x1680 || (0x2000
        <= v && v <= 0x200a) || v == 0x2028 || v == 0x2029 || v == 0x202f || v == 0x205f || v
        == 0x3000
}

/// `s` without its leading white space.
pub open spec fn trim_start(s: Seq<char>) -> Seq<char>
    decreases s.len(),
{
    if s.len() > 0 && is_white_space(s[0]) {
        trim_start(s.drop_first())
    } else {
        s
    }
}

/// `s` without its trailing white space.
pub open spec fn trim_end(s: Seq<char>) -> Seq<char>
    decreases s.len(),
{
    if s.len() > 0 && is_white_space(s.last()) {
        trim_end(s.drop_last())
    } else {
        s
    }
}

/// `s` without leading and trailing white space, as `str::trim` gives it.
pub open spec fn trim(s: Seq<char>) -> Seq<char> {
    trim_end(trim_start(s))
}

/// Index of the first non-white-space character (or the length).
fn trim_start_index(chars: &[char]) -> (start: usize)
    ensures
        start <= chars@.len(),
        chars@.subrange(start as int, chars@.len() as int) == trim_start(chars@),
{
    let mut i: usize = 0;
    assert(chars@.subrange(0, chars@.len() as int) == chars@);
    while i < chars.len() && is_whitespace(chars[i])
        invariant
            i <= chars.len(),
            trim_start(chars@) == trim_start(chars@.subrange(i as int, chars@.len() as int)),
        decreases chars.len() - i,
    {
        let ghost rest = chars@.subrange(i as int, chars@.len() as int);
        assert(rest.drop_first() == chars@.subrange(i + 1, chars@.len() as int));
        i = i + 1;
    }
    i
}

/// Index just past the last non-white-space character at or after `start`.
fn trim_end_index(chars: &[char], start: usize) -> (end: usize)
    requires
        start <= chars@.len(),
    ensures
        start <= end <= chars@.len(),
        chars@.subrange(start as int, end as int) == trim_end(
            chars@.subrange(start as int, chars@.len() as int),
        ),
{
    let mut j: usize = chars.len();
    while j > start && is_whitespace(chars[j - 1])
        invariant
            start <= j <= chars.len(),
            trim_end(chars@.subrange(start as int, chars@.len() as int)) == trim_end(
                chars@.subrange(start as int, j as int),
            ),
        decreases j,
    {
        let ghost part = chars@.subrange(start as int, j as int);
        assert(part.drop_last() == chars@.subrange(start as int, j - 1));
        j = j - 1;
    }
    j
}

/// Start and end of the trimmed part of `chars`.
pub fn trim_bounds(chars: &[char]) -> (res: (usize, usize))
    ensures
        res.0 <= res.1 <= chars@.len(),
        chars@.subrange(res.0 as int, res.1 as int) == trim(chars@),
{
    let start = trim_start_index(chars);
    let end = trim_end_index(chars, start);
    (start, end)
}

/// The characters of `s` with surrounding white space removed.
pub fn trimmed_chars(s: &str) -> (res: Vec<char>)
    ensures
        res@ == trim(s@),
{
    let chars = chars_of(s);
    let (start, end) = trim_bounds(chars.as_slice());
    let mut res: Vec<char> = Vec::new();
    let mut i = start;
    while i < end
        invariant
            start <= i <= end <= chars@.len(),
            res@ == chars@.subrange(start as int, i as int),
        decreases end - i,
    {
        res.push(chars[i]);
        i = i + 1;
    }
    res
}

/// `s` with surrounding white space removed, as a new string.
pub fn trimmed(s: &str) -> (res: String)
    ensures
        res@ == trim(s@),
{
    let chars = trimmed_chars(s);
    string_of(chars.as_slice())
}


/// The character of decimal digit `d` (0 to 9).
pub open spec fn digit_char(d: int) -> char {
    if d == 0 {
        '0'
    } else if d == 1 {
        '1'
    } else if d == 2 {
        '2'
    } else if d == 3 {
        '3'
    } else if d == 4 {
        '4'
    } else if d == 5 {
        '5'
    } else if d == 6 {
        '6'
    } else if d == 7 {
        '7'
    } else if d == 8 {
        '8'
    } else {
        '9'
    }
}

/// Decimal digits of `n`, most significant first, without leading zeros.
pub open spec fn decimal(n: nat) -> Seq<char>
    decreases n,
{
    if n < 10 {
        seq![digit_char(n as int)]
    } else {
        decimal(n / 10).push(digit_char((n % 10) as int))
    }
}

/// `s` preceded by as many `'0'` as make it `width` long.
pub open spec fn zero_pad(s: Seq<char>, width: nat) -> Seq<char> {
    if s.len() >= width {
        s
    } else {
        Seq::new((width - s.len()) as nat, |i: int| '0') + s
    }
}

/// `{:0width$}` of an integer: sign first, zeros after it, `width` in total.
pub open spec fn signed_zero_pad(v: int, width: nat) -> Seq<char> {
    if v < 0 {
        seq!['-'] + zero_pad(decimal((-v) as nat), if width >= 1 {
            (width - 1) as nat
        } else {
            0
        })
    } else {
        zero_pad(decimal(v as nat), width)
    }
}

fn digit(d: u64) -> (c: char)
    requires
        d < 10,
    ensures
        c == digit_char(d as int),
{
    if d == 0 {
        '0'
    } else if d == 1 {
        '1'
    } else if d == 2 {
        '2'
    } else if d == 3 {
        '3'
    } else if d == 4 {
        '4'
    } else if d == 5 {
        '5'
    } else if d == 6 {
        '6'
    } else if d == 7 {
        '7'
    } else if d == 8 {
        '8'
    } else {
        '9'
    }
}

/// Decimal digits of `n`.
pub fn decimal_chars(n: u64) -> (res: Vec<char>)
    ensures
        res@ == decimal(n as nat),
    decreases n,
{
    if n < 10 {
        let mut res = Vec::new();
        res.push(digit(n));
        res
    } else {
        let mut res = decimal_chars(n / 10);
        res.push(digit(n % 10));
        res
    }
}

/// Appends `chars` to `out`.
pub fn push_chars(out: &mut String, chars: &[char])
    ensures
        final(out)@ == old(out)@ + chars@,
{
    let mut i: usize = 0;
    while i < chars.len()
        invariant
            i <= chars.len(),
            out@ == old(out)@ + chars@.take(i as int),
        decreases chars.len() - i,
    {
        push_char(out, chars[i]);
        i = i + 1;
        assert(chars@.take(i as int) == chars@.take((i - 1) as int).push(chars@[i - 1]));
    }
    assert(chars@.take(chars.len() as int) == chars@);
}

/// Appends `{n:0width$}`.
pub fn push_zero_padded(out: &mut String, n: u64, width: usize)
    ensures
        final(out)@ == old(out)@ + zero_pad(decimal(n as nat), width as nat),
{
    let digits = decimal_chars(n);
    let mut fill = digits.len();
    while fill < width
        invariant
            digits.len() <= fill <= width || width <= digits.len() == fill,
            out@ == old(out)@ + Seq::new((fill - digits.len()) as nat, |i: int| '0'),
        decreases width - fill,
    {
        push_char(out, '0');
        assert(Seq::new((fill + 1 - digits.len()) as nat, |i: int| '0') == Seq::new(
            (fill - digits.len()) as nat,
            |i: int| '0',
        ).push('0'));
        fill = fill + 1;
    }
    proof {
        if digits.len() >= width {
            assert(Seq::new(0, |i: int| '0') == Seq::<char>::empty());
            assert(old(out)@ + Seq::<char>::empty() == old(out)@);
        }
    }
    push_chars(out, digits.as_slice());
    assert(old(out)@ + Seq::new((fill - digits.len()) as nat, |i: int| '0') + digits@ == old(
        out,
    )@ + zero_pad(decimal(n as nat), width as nat));
}

/// Appends `{v:0width$}` for a signed value.
pub fn push_signed_zero_padded(out: &mut String, v: i64, width: usize)
    ensures
        final(out)@ == old(out)@ + signed_zero_pad(v as int, width as nat),
{
    if v < 0 {
        push_char(out, '-');
        let magnitude: u64 = (-(v + 1)) as u64 + 1;
        push_zero_padded(out, magnitude, if width >= 1 {
            width - 1
        } else {
            0
        });
        assert(old(out)@.push('-') + zero_pad(decimal(magnitude as nat), (if width >= 1 {
            width - 1
        } else {
            0
        }) as nat) == old(out)@ + signed_zero_pad(v as int, width as nat));
    } else {
        push_zero_padded(out, v as u64, width);
    }
}


/// What `String::from_utf8_lossy` makes of `bytes`: the decoded text, with
/// U+FFFD standing for each invalid sequence.
pub uninterp spec fn lossy_utf8(bytes: Seq<u8>) -> Seq<char>;

/// Decodes bytes as UTF-8, replacing invalid sequences
/// (`String::from_utf8_lossy`). Claimed: the result is a function of the
/// bytes alone, and valid UTF-8 comes back unchanged.
#[verifier::external_body]
pub(crate) fn decode_lossy(bytes: &[u8]) -> (text: String)
    ensures
        text@ == lossy_utf8(bytes@),
        valid_utf8(bytes@) ==> text@ == decode_utf8(bytes@),
{
    String::from_utf8_lossy(bytes).into_owned()
}

/// `s` without trailing carriage returns (`trim_end_matches('\r')`).
pub open spec fn trim_end_cr(s: Seq<char>) -> Seq<char>
    decreases s.len(),
{
    if s.len() > 0 && s.last() == '\r' {
        trim_end_cr(s.drop_last())
    } else {
        s
    }
}

/// The characters of `s` without trailing carriage returns.
pub fn without_trailing_cr(s: &str) -> (res: String)
    ensures
        res@ == trim_end_cr(s@),
{
    let chars = chars_of(s);
    let mut end = chars.len();
    assert(chars@.take(chars@.len() as int) == chars@);
    while end > 0 && chars[end - 1] == '\r'
        invariant
            end <= chars@.len(),
            trim_end_cr(chars@.take(end as int)) == trim_end_cr(chars@),
        decreases end,
    {
        assert(chars@.take(end as int).drop_last() == chars@.take(end - 1));
        end = end - 1;
    }
    assert(trim_end_cr(chars@.take(end as int)) == chars@.take(end as int));
    let mut res = String::new();
    let mut i: usize = 0;
    while i < end
        invariant
            i <= end <= chars@.len(),
            res@ == chars@.take(i as int),
        decreases end - i,
    {
        push_char(&mut res, chars[i]);
        i = i + 1;
        assert(chars@.take(i as int) == chars@.take((i - 1) as int).push(chars@[i - 1]));
    }
    res
}

/// Lower-case form of `s` as `str::to_lowercase` gives it (the Unicode
/// `Lowercase` mapping).
pub uninterp spec fn lowercase(s: Seq<char>) -> Seq<char>;

/// ASCII case folding: `A`..`Z` become `a`..`z`, everything else stays.
pub open spec fn ascii_lowercase(s: Seq<char>) -> Seq<char> {
    s.map_values(|c: char| if 'A' <= c <= 'Z' { ((c as u32) + 32) as char } else { c })
}

/// Whether every character is ASCII.
pub open spec fn is_ascii_text(s: Seq<char>) -> bool {
    forall|i: int| 0 <= i < s.len() ==> (#[trigger] s[i] as u32) < 128
}

/// `str::to_lowercase`. Claimed: the result is a function of the text
/// alone, and ASCII text is folded as `to_ascii_lowercase` folds it (the
/// Unicode lower-case mapping of an ASCII character is its ASCII one).
#[verifier::external_body]
pub(crate) fn to_lowercase(s: &str) -> (res: String)
    ensures
        res@ == lowercase(s@),
        is_ascii_text(s@) ==> res@ == ascii_lowercase(s@),
{
    s.to_lowercase()
}

/// Upper-case form of one character as `char::to_uppercase` gives it (the
/// Unicode `Uppercase` mapping, one or more characters).
pub uninterp spec fn uppercase(c: char) -> Seq<char>;

/// `char::to_uppercase`, collected into a string. Claimed: the result is a
/// function of the character alone, and an ASCII lower-case letter becomes
/// its upper-case letter.
#[verifier::external_body]
pub(crate) fn char_to_uppercase(c: char) -> (res: String)
    ensures
        res@ == uppercase(c),
        'a' <= c <= 'z' ==> res@ == seq![((c as u32) - 32) as char],
{
    c.to_uppercase().collect()
}

/// An ASCII decimal digit.
pub open spec fn is_digit(c: char) -> bool {
    '0' <= c <= '9'
}

/// The number a run of decimal digits spells.
pub open spec fn digits_value(s: Seq<char>) -> int
    decreases s.len(),
{
    if s.len() == 0 {
        0
    } else {
        digits_value(s.drop_last()) * 10 + (s.last() as int - '0' as int)
    }
}

/// The digits of a number: the text without one leading `+`.
pub open spec fn unsigned_digits(s: Seq<char>) -> Seq<char> {
    if s.len() > 0 && s[0] == '+' {
        s.drop_first()
    } else {
        s
    }
}

/// Whether every character is a decimal digit.
pub open spec fn all_digits(s: Seq<char>) -> bool {
    forall|i: int| 0 <= i < s.len() ==> is_digit(#[trigger] s[i])
}

/// What `str::parse::<u16>` reads: an optional leading `+`, then one or
/// more decimal digits whose value fits in 16 bits (leading zeros allowed).
pub open spec fn parsed_u16(s: Seq<char>) -> Option<u16> {
    if unsigned_digits(s).len() > 0 && all_digits(unsigned_digits(s)) && digits_value(
        unsigned_digits(s),
    ) <= 65535 {
        Some(digits_value(unsigned_digits(s)) as u16)
    } else {
        None
    }
}

proof fn lemma_digits_value_grows(s: Seq<char>, k: int)
    requires
        0 <= k <= s.len(),
        forall|i: int| 0 <= i < s.len() ==> is_digit(#[trigger] s[i]),
    ensures
        0 <= digits_value(s.take(k)) <= digits_value(s),
    decreases s.len(),
{
    if s.len() > 0 {
        let rest = s.drop_last();
        assert forall|i: int| 0 <= i < rest.len() implies is_digit(#[trigger] rest[i]) by {
            assert(rest[i] == s[i]);
        }
        if k < s.len() {
            lemma_digits_value_grows(rest, k);
            assert(rest.take(k) =~= s.take(k));
        } else {
            lemma_digits_value_grows(rest, rest.len() as int);
            assert(rest.take(rest.len() as int) =~= rest);
            assert(s.take(k) =~= s);
        }
        assert(is_digit(s[s.len() - 1]));
    } else {
        assert(s.take(k) =~= s);
    }
}

/// Reads a 16-bit unsigned number the way `str::parse::<u16>` does.
pub fn parse_u16(s: &str) -> (value: Option<u16>)
    ensures
        value == parsed_u16(s@),
{
    let chars = chars_of(s);
    let start: usize = if chars.len() > 0 && chars[0] == '+' {
        1
    } else {
        0
    };
    let ghost digits = unsigned_digits(s@);
    assert(digits =~= chars@.skip(start as int));
    if start >= chars.len() {
        return None;
    }
    let mut k: usize = start;
    while k < chars.len()
        invariant
            start <= k <= chars@.len(),
            chars@ == s@,
            digits == chars@.skip(start as int),
            digits == unsigned_digits(s@),
            forall|i: int| 0 <= i < k - start ==> is_digit(#[trigger] digits[i]),
        decreases chars@.len() - k,
    {
        assert(digits[k - start] == chars@[k as int]);
        if !(chars[k] >= '0' && chars[k] <= '9') {
            assert(!is_digit(digits[k - start]));
            assert(parsed_u16(s@) is None);
            return None;
        }
        k = k + 1;
    }
    let mut value: u32 = 0;
    let mut k: usize = start;
    while k < chars.len()
        invariant
            start <= k <= chars@.len(),
            chars@ == s@,
            digits == chars@.skip(start as int),
            digits == unsigned_digits(s@),
            digits.len() > 0,
            forall|i: int| 0 <= i < digits.len() ==> is_digit(#[trigger] digits[i]),
            value == digits_value(digits.take(k - start)),
            value <= 65535,
        decreases chars@.len() - k,
    {
        assert(digits[k - start] == chars@[k as int]);
        assert(is_digit(digits[k - start]));
        let d = (chars[k] as u32) - ('0' as u32);
        assert(digits.take(k + 1 - start).drop_last() =~= digits.take(k - start));
        assert(digits.take(k + 1 - start).last() == chars@[k as int]);
        let next = value * 10 + d;
        if next > 65535 {
            proof {
                lemma_digits_value_grows(digits, k + 1 - start);
                assert(digits_value(digits.take(k + 1 - start)) == next);
                assert(digits_value(digits) > 65535);
                assert(parsed_u16(s@) is None);
            }
            return None;
        }
        value = next;
        k = k + 1;
    }
    assert(digits.take(k - start) =~= digits);
    Some(value as u16)
}

/// `s` with every occurrence of the non-empty `pattern`, scanned left to
/// right without overlaps, replaced by `with` (`str::replace`).
pub open spec fn replaced(s: Seq<char>, pattern: Seq<char>, with: Seq<char>) -> Seq<char>
    decreases s.len(),
{
    if pattern.len() == 0 || s.len() < pattern.len() {
        s
    } else if s.take(pattern.len() as int) == pattern {
        with + replaced(s.skip(pattern.len() as int), pattern, with)
    } else {
        seq![s[0]] + replaced(s.drop_first(), pattern, with)
    }
}

/// Replaces every occurrence of `pattern` in `s` by `with`.
pub fn replace_all(s: &str, pattern: &str, with: &str) -> (out: String)
    requires
        pattern@.len() > 0,
    ensures
        out@ == replaced(s@, pattern@, with@),
{
    let chars = chars_of(s);
    let pat = chars_of(pattern);
    let rep = chars_of(with);
    let mut out = String::new();
    let mut i: usize = 0;
    assert(chars@.skip(0) =~= chars@);
    assert(out@ + replaced(chars@, pat@, rep@) =~= replaced(chars@, pat@, rep@));
    while i < chars.len()
        invariant
            i <= chars@.len(),
            chars@ == s@,
            pat@ == pattern@,
            rep@ == with@,
            pat@.len() > 0,
            out@ + replaced(chars@.skip(i as int), pat@, rep@) == replaced(s@, pattern@, with@),
        decreases chars@.len() - i,
    {
        let ghost rest = chars@.skip(i as int);
        let room = chars.len() - i >= pat.len();
        let mut j: usize = 0;
        if room {
            while j < pat.len() && chars[i + j] == pat[j]
                invariant
                    j <= pat@.len(),
                    i + pat.len() <= chars.len(),
                    forall|m: int| 0 <= m < j ==> chars@[i + m] == pat@[m],
                decreases pat@.len() - j,
            {
                j = j + 1;
            }
        }
        if room && j == pat.len() {
            assert(rest.take(pat@.len() as int) =~= pat@);
            assert(rest.skip(pat@.len() as int) =~= chars@.skip(i + pat@.len()));
            push_chars(&mut out, rep.as_slice());
            i = i + pat.len();
        } else {
            proof {
                if room {
                    assert(rest.take(pat@.len() as int)[j as int] != pat@[j as int]);
                }
            }
            assert(rest.drop_first() =~= chars@.skip(i + 1));
            assert(rest[0] == chars@[i as int]);
            push_char(&mut out, chars[i]);
            i = i + 1;
        }
        assert(out@ + replaced(chars@.skip(i as int), pat@, rep@) =~= replaced(s@, pattern@, with@));
    }
    assert(chars@.skip(i as int) =~= Seq::<char>::empty());
    assert(out@ + Seq::<char>::empty() =~= out@);
    out
}

/// Whether `needle` occurs in `hay` at index `i`.
pub open spec fn occurs_at(hay: Seq<char>, needle: Seq<char>, i: int) -> bool {
    0 <= i && i + needle.len() <= hay.len() && hay.subrange(i, i + needle.len()) == needle
}

/// Whether `needle` occurs anywhere in `hay` (`str::contains`).
pub open spec fn contains_text(hay: Seq<char>, needle: Seq<char>) -> bool {
    exists|i: int| occurs_at(hay, needle, i)
}

/// Text search: a needle written anywhere into a text is found there, the
/// empty needle is found in every text, and only a needle no longer than the
/// text and equal to one of its stretches is found.
pub proof fn lemma_contains_text(before: Seq<char>, needle: Seq<char>, after: Seq<char>, hay: Seq<char>)
    ensures
        contains_text(before + needle + after, needle),
        contains_text(hay, Seq::empty()),
        contains_text(hay, needle) ==> needle.len() <= hay.len() && exists|i: int|
            0 <= i <= hay.len() - needle.len() && #[trigger] hay.subrange(i, i + needle.len()) == needle,
{
    let whole = before + needle + after;
    assert(whole.subrange(before.len() as int, (before.len() + needle.len()) as int) =~= needle);
    assert(occurs_at(whole, needle, before.len() as int));
    assert(hay.subrange(0, 0) =~= Seq::<char>::empty());
    assert(occurs_at(hay, Seq::empty(), 0));
}

/// Whether `needle` occurs in `hay`.
pub fn contains(hay: &str, needle: &str) -> (found: bool)
    ensures
        found == contains_text(hay@, needle@),
{
    let h = chars_of(hay);
    let n = chars_of(needle);
    if n.len() > h.len() {
        assert forall|i: int| !occurs_at(h@, n@, i) by {}
        return false;
    }
    let mut i: usize = 0;
    while i <= h.len() - n.len()
        invariant
            n.len() <= h.len(),
            h@ == hay@,
            n@ == needle@,
            i <= h.len() - n.len() + 1,
            forall|k: int| 0 <= k < i ==> !occurs_at(h@, n@, k),
        decreases h.len() - n.len() + 1 - i,
    {
        let mut j: usize = 0;
        while j < n.len() && h[i + j] == n[j]
            invariant
                n.len() <= h.len(),
                i + n.len() <= h.len(),
                j <= n.len(),
                forall|m: int| 0 <= m < j ==> h@[i + m] == n@[m],
            decreases n.len() - j,
        {
            j = j + 1;
        }
        if j == n.len() {
            assert(h@.subrange(i as int, i + n@.len()) == n@);
            assert(occurs_at(h@, n@, i as int));
            return true;
        }
        assert(h@.subrange(i as int, i + n@.len())[j as int] != n@[j as int]);
        i = i + 1;
    }
    assert forall|k: int| !occurs_at(h@, n@, k) by {
        if 0 <= k && k + n@.len() <= h@.len() {
            assert(k < i);
        }
    }
    false
}

} // verus!
