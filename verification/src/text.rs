//! Characters and strings: decimal numbers, trimming, searching, padding.
//!
//! Text is modelled by the sequence of its characters, the view of `str` and `String`.
use vstd::prelude::*;
use vstd::string::*;
use vstd::utf8::*;

verus! {

/// `String::push`: appends the character to the end of the string.
pub assume_specification[ String::push ](s: &mut String, c: char)
    ensures
        final(s)@ == old(s)@.push(c),
;

/// `char::is_whitespace`: whether the character has the Unicode property `White_Space`.
pub assume_specification[ char::is_whitespace ](c: char) -> (b: bool)
    ensures
        b == white_space(c),
;

/// What `str::to_lowercase` returns: the text in lower case by the Unicode rules.
pub uninterp spec fn lowercase(s: Seq<char>) -> Seq<char>;

/// `str::to_lowercase`: the lower-case equivalent by the Unicode rules, named [`lowercase`]. It
/// maps `A` to `Z` onto `a` to `z` and keeps every other ASCII character, each in its place. So
/// this is all it does to ASCII text, and in any text it brings out every run of ASCII characters
/// that this mapping brings out. What becomes of other characters is left unsaid.
pub assume_specification[ str::to_lowercase ](s: &str) -> (r: String)
    ensures
        r@ == lowercase(s@),
        is_ascii_chars(s@) ==> r@ == ascii_lowercase(s@),
        forall|p: Seq<char>|
            is_ascii_chars(p) && #[trigger] has_substring(ascii_lowercase(s@), p) ==> has_substring(
                r@,
                p,
            ),
;

/// The characters with the Unicode property `White_Space`.
pub open spec fn white_space(c: char) -> bool {
    let n = c as u32;
    ||| 0x9 <= n <= 0xd
    ||| n == 0x20
    ||| n == 0x85
    ||| n == 0xa0
    ||| n == 0x1680
    ||| 0x2000 <= n <= 0x200a
    ||| n == 0x2028
    ||| n == 0x2029
    ||| n == 0x202f
    ||| n == 0x205f
    ||| n == 0x3000
}

/// `A` to `Z` mapped onto `a` to `z`, every other character kept.
pub open spec fn ascii_lowercase(s: Seq<char>) -> Seq<char> {
    s.map_values(|c: char| if 'A' <= c && c <= 'Z' { (c as u32 + 32) as char } else { c })
}

/// The text without leading white space.
pub open spec fn trim_start(s: Seq<char>) -> Seq<char>
    decreases s.len(),
{
    if s.len() > 0 && white_space(s[0]) {
        trim_start(s.drop_first())
    } else {
        s
    }
}

/// The text without trailing white space.
pub open spec fn trim_end(s: Seq<char>) -> Seq<char>
    decreases s.len(),
{
    if s.len() > 0 && white_space(s.last()) {
        trim_end(s.drop_last())
    } else {
        s
    }
}

/// The text without leading and trailing white space.
pub open spec fn trim(s: Seq<char>) -> Seq<char> {
    trim_end(trim_start(s))
}

/// The position of the last `c` in the text, if it has one.
pub open spec fn last_index_of(s: Seq<char>, c: char) -> Option<int>
    decreases s.len(),
{
    if s.len() == 0 {
        None
    } else if s.last() == c {
        Some(s.len() - 1)
    } else {
        last_index_of(s.drop_last(), c)
    }
}

/// Whether `pattern` stands in the text at position `at`.
pub open spec fn occurs_at(s: Seq<char>, pattern: Seq<char>, at: int) -> bool {
    0 <= at && at + pattern.len() <= s.len() && s.subrange(at, at + pattern.len()) == pattern
}

/// Whether `pattern` stands somewhere in the text.
pub open spec fn has_substring(s: Seq<char>, pattern: Seq<char>) -> bool {
    exists|at: int| occurs_at(s, pattern, at)
}

/// Whether the character is one of `0` to `9`.
pub open spec fn is_digit(c: char) -> bool {
    '0' <= c && c <= '9'
}

/// The character of a digit below ten.
pub open spec fn digit_char(d: nat) -> char {
    ('0' as nat + d) as char
}

/// The number as decimal digits, without leading zeros.
pub open spec fn decimal(n: nat) -> Seq<char>
    decreases n,
{
    if n < 10 {
        seq![digit_char(n)]
    } else {
        decimal(n / 10).push(digit_char(n % 10))
    }
}

/// The number that decimal digits stand for.
pub open spec fn digits_value(s: Seq<char>) -> nat
    decreases s.len(),
{
    if s.len() == 0 {
        0
    } else {
        (10 * digits_value(s.drop_last()) + (s.last() as int - '0' as int)) as nat
    }
}

/// Whether the text is made of digits alone, with at least one.
pub open spec fn all_digits(s: Seq<char>) -> bool {
    s.len() > 0 && forall|i: int| 0 <= i < s.len() ==> is_digit(#[trigger] s[i])
}

/// The text as a 16-bit number: an optional `+`, then digits, no more than 65535.
pub open spec fn u16_value(s: Seq<char>) -> Option<u16> {
    let digits = if s.len() > 0 && s[0] == '+' { s.skip(1) } else { s };
    if all_digits(digits) && digits_value(digits) <= u16::MAX {
        Some(digits_value(digits) as u16)
    } else {
        None
    }
}

/// A run of `n` copies of `c`.
pub open spec fn run_of(c: char, n: int) -> Seq<char> {
    Seq::new(if n > 0 { n as nat } else { 0 }, |i: int| c)
}

/// The text, followed by spaces up to `width` characters.
pub open spec fn padded(s: Seq<char>, width: int) -> Seq<char> {
    s + run_of(' ', width - s.len())
}

/// The number with leading zeros up to `width` characters, the sign in front of them.
pub open spec fn zero_padded(n: int, width: int) -> Seq<char> {
    if n < 0 {
        seq!['-'] + run_of('0', width - 1 - decimal(-n as nat).len()) + decimal(-n as nat)
    } else {
        run_of('0', width - decimal(n as nat).len()) + decimal(n as nat)
    }
}

/// The length in bytes that the text has in UTF-8, as `str::len` returns it.
pub open spec fn byte_len(s: Seq<char>) -> usize {
    encode_utf8(s).len() as usize
}

/// Printing a number in decimal and reading the digits gives the number back, and the digits
/// never start with a sign.
pub proof fn law_decimal_round_trip(n: nat)
    ensures
        all_digits(decimal(n)),
        digits_value(decimal(n)) == n,
        n <= u16::MAX ==> u16_value(decimal(n)) == Some(n as u16),
    decreases n,
{
    let s = decimal(n);
    if n < 10 {
        assert(s.drop_last() =~= Seq::<char>::empty());
        assert(digits_value(s.drop_last()) == 0);
    } else {
        law_decimal_round_trip(n / 10);
        assert(s.drop_last() =~= decimal(n / 10));
    }
    assert(is_digit(s[0]));
}

pub(crate) proof fn lemma_byte_len_covers(s: Seq<char>)
    requires
        encode_utf8(s).len() <= usize::MAX,
    ensures
        s.len() <= byte_len(s),
{
    lemma_encoding_is_no_shorter(s);
}

proof fn lemma_encoding_is_no_shorter(s: Seq<char>)
    ensures
        s.len() <= encode_utf8(s).len(),
    decreases s.len(),
{
    if s.len() > 0 {
        lemma_encoding_is_no_shorter(s.drop_first());
    }
}

/// Copies the characters of a string into a vector.
pub fn to_chars(s: &str) -> (r: Vec<char>)
    ensures
        r@ == s@,
{
    let mut v: Vec<char> = Vec::new();
    for c in it: s.chars()
        invariant
            it.seq() == s@,
            v@ == s@.take(it.index()),
    {
        v.push(c);
    }
    v
}

/// Appends a number in decimal.
pub fn push_decimal(out: &mut String, n: u64)
    ensures
        final(out)@ == old(out)@ + decimal(n as nat),
    decreases n,
{
    if n >= 10 {
        push_decimal(out, n / 10);
    }
    let d: u8 = (n % 10) as u8;
    out.push((48u8 + d) as char);
}

/// Appends `n` copies of `c`.
fn push_run(out: &mut String, c: char, n: usize)
    ensures
        final(out)@ == old(out)@ + run_of(c, n as int),
{
    let mut i: usize = 0;
    assert(old(out)@ + run_of(c, 0) =~= old(out)@);
    while i < n
        invariant
            i <= n,
            out@ == old(out)@ + run_of(c, i as int),
        decreases n - i,
    {
        out.push(c);
        i = i + 1;
        assert(out@ =~= old(out)@ + run_of(c, i as int));
    }
}

/// Appends a text, then spaces up to `width` characters, as `{:<width$}` formats a string.
pub fn push_padded(out: &mut String, s: &str, width: usize)
    ensures
        final(out)@ == old(out)@ + padded(s@, width as int),
{
    out.append(s);
    let n: usize = s.unicode_len();
    if n < width {
        push_run(out, ' ', width - n);
    }
    assert(out@ =~= old(out)@ + padded(s@, width as int));
}

/// Appends a number with leading zeros up to `width` characters, as `{:0width$}` formats it.
pub fn push_zero_padded(out: &mut String, n: i32, width: usize)
    ensures
        final(out)@ == old(out)@ + zero_padded(n as int, width as int),
{
    let mut digits: String = String::new();
    let mut room: usize = width;
    if n < 0 {
        push_decimal(&mut digits, (-(n as i64)) as u64);
        out.push('-');
        room = if width > 0 { width - 1 } else { 0 };
    } else {
        push_decimal(&mut digits, n as u64);
    }
    let taken: usize = digits.as_str().unicode_len();
    if taken < room {
        push_run(out, '0', room - taken);
    }
    out.append(digits.as_str());
    assert(out@ =~= old(out)@ + zero_padded(n as int, width as int));
}

pub(crate) proof fn lemma_trim_start_skips(s: Seq<char>, n: int)
    requires
        0 <= n <= s.len(),
        forall|i: int| 0 <= i < n ==> white_space(#[trigger] s[i]),
        n < s.len() ==> !white_space(s[n]),
    ensures
        trim_start(s) == s.skip(n),
    decreases n,
{
    if n == 0 {
        assert(s.skip(0) =~= s);
    } else {
        let t = s.drop_first();
        assert forall|i: int| 0 <= i < n - 1 implies white_space(#[trigger] t[i]) by {
            assert(t[i] == s[i + 1]);
        }
        lemma_trim_start_skips(t, n - 1);
        assert(t.skip(n - 1) =~= s.skip(n));
    }
}

proof fn lemma_trim_end_takes(s: Seq<char>, n: int)
    requires
        0 <= n <= s.len(),
        forall|i: int| n <= i < s.len() ==> white_space(#[trigger] s[i]),
        n > 0 ==> !white_space(s[n - 1]),
    ensures
        trim_end(s) == s.take(n),
    decreases s.len() - n,
{
    if n == s.len() {
        assert(s.take(n) =~= s);
    } else {
        lemma_trim_end_takes(s.drop_last(), n);
        assert(s.drop_last().take(n) =~= s.take(n));
    }
}

pub(crate) proof fn lemma_trim_end_keeps_first(s: Seq<char>)
    requires
        s.len() > 0,
        !white_space(s[0]),
    ensures
        trim_end(s).len() > 0,
        trim_end(s)[0] == s[0],
    decreases s.len(),
{
    if white_space(s.last()) {
        lemma_trim_end_keeps_first(s.drop_last());
    }
}

pub(crate) proof fn lemma_trim_push_white_space(s: Seq<char>, c: char)
    requires
        white_space(c),
    ensures
        trim(s.push(c)) == trim(s),
    decreases s.len(),
{
    if s.len() > 0 && white_space(s[0]) {
        lemma_trim_push_white_space(s.drop_first(), c);
        assert(s.push(c).drop_first() =~= s.drop_first().push(c));
    } else if s.len() == 0 {
        assert(s.push(c).drop_first() =~= s);
    } else {
        assert(s.push(c).drop_last() =~= s);
    }
}

/// Finds what is left of the range from `from` to `to` when white space is trimmed from both ends.
pub fn trim_range(s: &Vec<char>, from: usize, to: usize) -> (r: (usize, usize))
    requires
        from <= to <= s@.len(),
    ensures
        from <= r.0 <= r.1 <= to,
        s@.subrange(r.0 as int, r.1 as int) == trim(s@.subrange(from as int, to as int)),
{
    let ghost part = s@.subrange(from as int, to as int);
    let mut start: usize = from;
    while start < to && s[start].is_whitespace()
        invariant
            from <= start <= to <= s@.len(),
            part == s@.subrange(from as int, to as int),
            forall|i: int| 0 <= i < start - from ==> white_space(#[trigger] part[i]),
        decreases to - start,
    {
        assert(part[start - from] == s@[start as int]);
        start = start + 1;
    }
    let mut end: usize = to;
    while end > start && s[end - 1].is_whitespace()
        invariant
            from <= start <= end <= to <= s@.len(),
            part == s@.subrange(from as int, to as int),
            forall|i: int| end - from <= i < part.len() ==> white_space(#[trigger] part[i]),
        decreases end,
    {
        assert(part[end - 1 - from] == s@[end - 1]);
        end = end - 1;
    }
    proof {
        lemma_trim_start_skips(part, start - from);
        let rest = part.skip(start - from);
        assert forall|i: int| end - start <= i < rest.len() implies white_space(
            #[trigger] rest[i],
        ) by {
            assert(rest[i] == part[i + (start - from)]);
        }
        lemma_trim_end_takes(rest, end - start);
        assert(rest.take(end - start) =~= s@.subrange(start as int, end as int));
    }
    (start, end)
}

/// Copies the characters from `from` to `to` into a string.
pub fn copy_range(s: &Vec<char>, from: usize, to: usize) -> (r: String)
    requires
        from <= to <= s@.len(),
    ensures
        r@ == s@.subrange(from as int, to as int),
{
    let mut out: String = String::new();
    let mut i: usize = from;
    while i < to
        invariant
            from <= i <= to <= s@.len(),
            out@ =~= s@.subrange(from as int, i as int),
        decreases to - i,
    {
        out.push(s[i]);
        i = i + 1;
    }
    out
}

pub(crate) proof fn lemma_last_index_of(s: Seq<char>, c: char, at: int)
    requires
        -1 <= at < s.len(),
        at >= 0 ==> s[at] == c,
        forall|i: int| at < i < s.len() ==> #[trigger] s[i] != c,
    ensures
        last_index_of(s, c) == (if at >= 0 {
            Some(at)
        } else {
            None
        }),
    decreases s.len(),
{
    if s.len() > 0 && at < s.len() - 1 {
        lemma_last_index_of(s.drop_last(), c, at);
    }
}

/// Finds the last `c` in the range from `from` to `to`, as a distance from `from`.
pub fn find_last(s: &Vec<char>, from: usize, to: usize, c: char) -> (r: Option<usize>)
    requires
        from <= to <= s@.len(),
    ensures
        last_index_of(s@.subrange(from as int, to as int), c) == (match r {
            Some(at) => Some(at as int),
            None => None,
        }),
        r matches Some(at) ==> at < to - from,
{
    let ghost part = s@.subrange(from as int, to as int);
    let mut i: usize = to;
    while i > from
        invariant
            from <= i <= to <= s@.len(),
            part == s@.subrange(from as int, to as int),
            forall|j: int| i - from <= j < part.len() ==> #[trigger] part[j] != c,
        decreases i,
    {
        if s[i - 1] == c {
            proof {
                lemma_last_index_of(part, c, i - 1 - from);
            }
            return Some(i - 1 - from);
        }
        assert(part[i - 1 - from] == s@[i - 1]);
        i = i - 1;
    }
    proof {
        lemma_last_index_of(part, c, -1);
    }
    None
}

proof fn lemma_digits_value_grows(s: Seq<char>, n: int)
    requires
        0 <= n <= s.len(),
        forall|i: int| 0 <= i < s.len() ==> is_digit(#[trigger] s[i]),
    ensures
        digits_value(s.take(n)) <= digits_value(s),
    decreases s.len() - n,
{
    if n == s.len() {
        assert(s.take(n) =~= s);
    } else {
        lemma_digits_value_grows(s.drop_last(), n);
        assert(s.drop_last().take(n) =~= s.take(n));
        assert(is_digit(s.last()));
    }
}

/// Reads the range from `from` to `to` as a 16-bit number: an optional `+`, then digits.
pub fn parse_u16(s: &Vec<char>, from: usize, to: usize) -> (r: Option<u16>)
    requires
        from <= to <= s@.len(),
    ensures
        r == u16_value(s@.subrange(from as int, to as int)),
{
    let ghost part = s@.subrange(from as int, to as int);
    let start: usize = if from < to && s[from] == '+' {
        from + 1
    } else {
        from
    };
    let ghost digits = s@.subrange(start as int, to as int);
    proof {
        if start > from {
            assert(part[0] == '+');
            assert(part.skip(1) =~= digits);
        } else {
            assert(from < to ==> part[0] == s@[from as int]);
            assert(digits =~= part);
        }
    }
    if start == to {
        return None;
    }
    let mut value: u32 = 0;
    let mut i: usize = start;
    assert(digits.take(0) =~= Seq::<char>::empty());
    while i < to
        invariant
            start <= i <= to <= s@.len(),
            digits == s@.subrange(start as int, to as int),
            forall|j: int| 0 <= j < i - start ==> is_digit(#[trigger] digits[j]),
            value == digits_value(digits.take(i - start)),
            value <= 65535,
            u16_value(part) == (if all_digits(digits) && digits_value(digits) <= u16::MAX {
                Some(digits_value(digits) as u16)
            } else {
                None
            }),
            part == s@.subrange(from as int, to as int),
        decreases to - i,
    {
        let c: char = s[i];
        assert(digits[i - start] == c);
        if c < '0' || c > '9' {
            assert(!is_digit(digits[i - start]));
            return None;
        }
        let ghost before = digits.take(i - start);
        value = value * 10 + (c as u32 - 48);
        i = i + 1;
        assert(digits.take(i - start).drop_last() =~= before);
        assert(digits.take(i - start).last() == c);
        if value > 65535 {
            proof {
                if all_digits(digits) {
                    lemma_digits_value_grows(digits, i - start);
                }
            }
            return None;
        }
    }
    assert(digits.take(to - start) =~= digits);
    Some(value as u16)
}

/// Tells whether `pattern` stands somewhere in the text.
pub fn contains(s: &str, pattern: &str) -> (r: bool)
    ensures
        r == has_substring(s@, pattern@),
{
    let text: Vec<char> = to_chars(s);
    let wanted: Vec<char> = to_chars(pattern);
    if wanted.len() > text.len() {
        return false;
    }
    let last: usize = text.len() - wanted.len();
    let mut at: usize = 0;
    loop
        invariant
            text@ == s@,
            wanted@ == pattern@,
            text@.len() == text.len(),
            last + wanted@.len() == text@.len(),
            at <= last,
            forall|i: int| 0 <= i < at ==> !#[trigger] occurs_at(s@, pattern@, i),
        decreases last - at,
    {
        let mut n: usize = 0;
        while n < wanted.len() && text[at + n] == wanted[n]
            invariant
                at + wanted@.len() <= text@.len() <= usize::MAX,
                n <= wanted@.len(),
                text@.subrange(at as int, at + n) =~= wanted@.take(n as int),
            decreases wanted@.len() - n,
        {
            n = n + 1;
        }
        if n == wanted.len() {
            assert(wanted@.take(n as int) =~= wanted@);
            assert(occurs_at(s@, pattern@, at as int));
            return true;
        }
        assert(!occurs_at(s@, pattern@, at as int)) by {
            assert(text@.subrange(at as int, at + wanted@.len())[n as int] != wanted@[n as int]);
        }
        if at == last {
            return false;
        }
        at = at + 1;
    }
}

/// The digits of a number: one below ten is its digit, and a further digit multiplies by ten and
/// adds its value.
pub proof fn law_decimal_digits(n: nat, d: nat)
    requires
        d < 10,
    ensures
        decimal(d).len() == 1,
        decimal(d)[0] as int == '0' as int + d,
        n > 0 ==> decimal(10 * n + d) == decimal(n) + decimal(d),
{
    if n > 0 {
        assert((10 * n + d) / 10 == n);
        assert((10 * n + d) % 10 == d);
        assert(decimal(10 * n + d) =~= decimal(n) + decimal(d));
    }
}

proof fn lemma_trim_start_range(s: Seq<char>) -> (n: int)
    ensures
        0 <= n <= s.len(),
        trim_start(s) == s.skip(n),
        forall|i: int| 0 <= i < n ==> white_space(#[trigger] s[i]),
        n < s.len() ==> !white_space(s[n]),
    decreases s.len(),
{
    if s.len() > 0 && white_space(s[0]) {
        let rest = s.drop_first();
        let n = lemma_trim_start_range(rest) + 1;
        assert(rest.skip(n - 1) =~= s.skip(n));
        assert forall|i: int| 0 <= i < n implies white_space(#[trigger] s[i]) by {
            if i > 0 {
                assert(rest[i - 1] == s[i]);
            }
        }
        n
    } else {
        assert(s.skip(0) =~= s);
        0
    }
}

proof fn lemma_trim_end_range(s: Seq<char>) -> (n: int)
    ensures
        0 <= n <= s.len(),
        trim_end(s) == s.take(n),
        forall|i: int| n <= i < s.len() ==> white_space(#[trigger] s[i]),
        n > 0 ==> !white_space(s[n - 1]),
    decreases s.len(),
{
    if s.len() > 0 && white_space(s.last()) {
        let rest = s.drop_last();
        let n = lemma_trim_end_range(rest);
        assert(rest.take(n) =~= s.take(n));
        assert forall|i: int| n <= i < s.len() implies white_space(#[trigger] s[i]) by {
            if i < rest.len() {
                assert(rest[i] == s[i]);
            }
        }
        n
    } else {
        assert(s.take(s.len() as int) =~= s);
        s.len() as int
    }
}

/// Trimming cuts a text out of its white space: what goes on either side is white space, and what
/// is left neither starts nor ends with any.
pub proof fn law_trim_cuts_white_space(s: Seq<char>) -> (r: (int, int))
    ensures
        0 <= r.0 <= r.1 <= s.len(),
        trim(s) == s.subrange(r.0, r.1),
        forall|i: int| 0 <= i < r.0 ==> white_space(#[trigger] s[i]),
        forall|i: int| r.1 <= i < s.len() ==> white_space(#[trigger] s[i]),
        r.0 < r.1 ==> !white_space(s[r.0]) && !white_space(s[r.1 - 1]),
{
    let from = lemma_trim_start_range(s);
    let rest = s.skip(from);
    let n = lemma_trim_end_range(rest);
    assert(rest.take(n) =~= s.subrange(from, from + n));
    assert forall|i: int| from + n <= i < s.len() implies white_space(#[trigger] s[i]) by {
        assert(rest[i - from] == s[i]);
    }
    (from, from + n)
}

/// The last position of a character holds it, and none behind it does; where there is no such
/// position, the text is without the character.
pub proof fn law_last_index(s: Seq<char>, c: char)
    ensures
        match last_index_of(s, c) {
            Some(at) => {
                &&& 0 <= at < s.len()
                &&& s[at] == c
                &&& forall|i: int| at < i < s.len() ==> #[trigger] s[i] != c
            },
            None => forall|i: int| 0 <= i < s.len() ==> #[trigger] s[i] != c,
        },
    decreases s.len(),
{
    if s.len() > 0 && s.last() != c {
        let rest = s.drop_last();
        law_last_index(rest, c);
        assert forall|i: int| 0 <= i < rest.len() implies #[trigger] s[i] == rest[i] by {}
    }
}

/// A text stands in another one where its characters follow each other there.
pub proof fn law_substring(s: Seq<char>, pattern: Seq<char>, at: int)
    ensures
        occurs_at(s, pattern, at) <==> (0 <= at && at + pattern.len() <= s.len() && forall|i: int|
            0 <= i < pattern.len() ==> #[trigger] pattern[i] == s[at + i]),
        occurs_at(s, pattern, at) ==> has_substring(s, pattern),
        has_substring(s, pattern) ==> exists|a: int| #[trigger] occurs_at(s, pattern, a),
{
    if occurs_at(s, pattern, at) {
        assert forall|i: int| 0 <= i < pattern.len() implies #[trigger] pattern[i] == s[at + i] by {
            assert(s.subrange(at, at + pattern.len())[i] == s[at + i]);
        }
    } else if 0 <= at && at + pattern.len() <= s.len() && forall|i: int|
        0 <= i < pattern.len() ==> #[trigger] pattern[i] == s[at + i] {
        assert(s.subrange(at, at + pattern.len()) =~= pattern);
    }
}

/// How ports are read: the value of a digit is its own, a further digit multiplies by ten and adds
/// its value up to the limit of 65535, one `+` may stand in front, and nothing else is read.
pub proof fn law_u16_reading(s: Seq<char>, c: char)
    ensures
        u16_value(Seq::empty()) is None,
        u16_value(seq![c]) == (if '0' <= c && c <= '9' {
            Some((c as int - '0' as int) as u16)
        } else {
            None
        }),
        u16_value(seq!['+'] + s) == (if s.len() > 0 && s[0] == '+' {
            None
        } else {
            u16_value(s)
        }),
        s.len() > 0 && s != seq!['+'] ==> u16_value(s.push(c)) == (match u16_value(s) {
            Some(v) => if '0' <= c && c <= '9' && 10 * v + (c as int - '0' as int) <= 65535 {
                Some((10 * v + (c as int - '0' as int)) as u16)
            } else {
                None
            },
            None => None,
        }),
{
    let one = seq![c];
    if c == '+' {
        assert(one.skip(1) =~= Seq::<char>::empty());
    }
    assert(one.drop_last() =~= Seq::<char>::empty());
    assert(digits_value(one.drop_last()) == 0);
    assert(all_digits(one) <==> is_digit(c)) by {
        assert(one[0] == c);
    }
    let signed = seq!['+'] + s;
    assert(signed.skip(1) =~= s);
    if s.len() > 0 && s[0] == '+' {
        assert(!is_digit(s[0]));
        assert(!all_digits(s));
    }
    if s.len() > 0 && s != seq!['+'] {
        let t = s.push(c);
        let digits = if s[0] == '+' {
            s.skip(1)
        } else {
            s
        };
        assert(t[0] == s[0]);
        if s[0] == '+' {
            if s.len() == 1 {
                assert(s =~= seq!['+']);
            }
            assert(t.skip(1) =~= digits.push(c));
        }
        let more = digits.push(c);
        assert(more.drop_last() =~= digits);
        assert(all_digits(more) <==> all_digits(digits) && is_digit(c)) by {
            if all_digits(more) {
                assert forall|i: int| 0 <= i < digits.len() implies is_digit(
                    #[trigger] digits[i],
                ) by {
                    assert(more[i] == digits[i]);
                }
                assert(more[digits.len() as int] == c);
            }
        }
    }
}

/// Padding keeps the text and adds spaces behind it, up to the width.
pub proof fn law_padding(s: Seq<char>, width: int)
    ensures
        padded(s, width).len() == (if s.len() < width {
            width
        } else {
            s.len() as int
        }),
        padded(s, width).take(s.len() as int) == s,
        forall|i: int|
            s.len() <= i < padded(s, width).len() ==> #[trigger] padded(s, width)[i] == ' ',
{
    assert(padded(s, width).take(s.len() as int) =~= s);
}

/// A number is padded with zeros in front of its digits, up to the width, and behind its sign.
pub proof fn law_zero_padding(n: nat, width: int)
    ensures
        ({
            let digits = decimal(n);
            let out = zero_padded(n as int, width);
            let zeros = out.len() - digits.len();
            &&& out.len() == (if digits.len() < width {
                width
            } else {
                digits.len() as int
            })
            &&& out.skip(zeros) == digits
            &&& forall|i: int| 0 <= i < zeros ==> #[trigger] out[i] == '0'
        }),
        n > 0 ==> zero_padded(-(n as int), width) == seq!['-'] + zero_padded(n as int, width - 1),
{
    let digits = decimal(n);
    let out = zero_padded(n as int, width);
    assert(out.skip(out.len() - digits.len()) =~= digits);
    if n > 0 {
        assert(zero_padded(-(n as int), width) =~= seq!['-'] + zero_padded(n as int, width - 1));
    }
}

/// The length of a text in bytes is that of its UTF-8 encoding.
pub proof fn law_byte_len(s: Seq<char>)
    requires
        encode_utf8(s).len() <= usize::MAX,
    ensures
        byte_len(s) == encode_utf8(s).len(),
        s.len() <= byte_len(s),
{
    lemma_byte_len_covers(s);
}

} // verus!
