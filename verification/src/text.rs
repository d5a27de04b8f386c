//! Text as sequences of characters: trimming, searching, splitting, joining
//! and numbers in decimal.

use vstd::prelude::*;

verus! {

/// `String::push`: appends one character to the end of the string.
pub assume_specification[ String::push ](string: &mut String, ch: char)
    ensures
        final(string)@ == old(string)@.push(ch),
;

/// The view of optional text.
pub open spec fn opt_text(value: Option<String>) -> Option<Seq<char>> {
    match value {
        Some(text) => Some(text@),
        None => None,
    }
}

/// The views of a list of texts.
pub open spec fn texts(values: Seq<String>) -> Seq<Seq<char>> {
    values.map_values(|text: String| text@)
}

/// A copy of optional text.
pub fn clone_opt(value: &Option<String>) -> (copy: Option<String>)
    ensures
        opt_text(copy) == opt_text(*value),
{
    match value {
        Some(text) => Some(text.clone()),
        None => None,
    }
}

/// The characters of a text, in order.
pub fn chars_of(text: &str) -> (chars: Vec<char>)
    ensures
        chars@ == text@,
{
    let mut chars: Vec<char> = Vec::new();
    for c in iter: text.chars()
        invariant
            iter.seq() == text@,
            chars@ == text@.take(iter.index() as int),
    {
        chars.push(c);
    }
    proof {
        assert(text@.take(text@.len() as int) =~= text@);
    }
    chars
}

/// The text made of `chars[from..to]`.
pub fn text_range(chars: &Vec<char>, from: usize, to: usize) -> (text: String)
    requires
        from <= to <= chars@.len(),
    ensures
        text@ == chars@.subrange(from as int, to as int),
{
    let mut text: String = String::new();
    let mut i: usize = from;
    while i < to
        invariant
            from <= i <= to <= chars@.len(),
            text@ == chars@.subrange(from as int, i as int),
        decreases to - i,
    {
        text.push(chars[i]);
        i += 1;
    }
    text
}

/// The text made of all of `chars`.
pub fn text_of(chars: &Vec<char>) -> (text: String)
    ensures
        text@ == chars@,
{
    let text: String = text_range(chars, 0, chars.len());
    proof {
        assert(chars@.subrange(0, chars@.len() as int) =~= chars@);
    }
    text
}

/// Whether two character lists are the same.
fn same_chars(a: &Vec<char>, b: &Vec<char>) -> (same: bool)
    ensures
        same == (a@ == b@),
{
    if a.len() != b.len() {
        return false;
    }
    let mut i: usize = 0;
    while i < a.len()
        invariant
            i <= a@.len() == b@.len(),
            forall|k: int| 0 <= k < i ==> a@[k] == b@[k],
        decreases a@.len() - i,
    {
        if a[i] != b[i] {
            return false;
        }
        i += 1;
    }
    proof {
        assert(a@ =~= b@);
    }
    true
}

/// Whether two texts are the same.
pub fn same_text(a: &str, b: &str) -> (same: bool)
    ensures
        same == (a@ == b@),
{
    same_chars(&chars_of(a), &chars_of(b))
}

/// Whether two optional texts are the same.
pub fn same_opt(a: &Option<String>, b: &Option<String>) -> (same: bool)
    ensures
        same == (opt_text(*a) == opt_text(*b)),
{
    match (a, b) {
        (Some(x), Some(y)) => same_text(x, y),
        (None, None) => true,
        _ => false,
    }
}

// ---------------------------------------------------------------------------
// White space
// ---------------------------------------------------------------------------

/// The characters with the Unicode property `White_Space`.
pub open spec fn is_space(c: char) -> bool {
    ||| 0x9 <= c as u32 <= 0xd
    ||| c as u32 == 0x20
    ||| c as u32 == 0x85
    ||| c as u32 == 0xa0
    ||| c as u32 == 0x1680
    ||| 0x2000 <= c as u32 <= 0x200a
    ||| c as u32 == 0x2028
    ||| c as u32 == 0x2029
    ||| c as u32 == 0x202f
    ||| c as u32 == 0x205f
    ||| c as u32 == 0x3000
}

/// Whether a character is white space.
pub fn space(c: char) -> (yes: bool)
    ensures
        yes == is_space(c),
{
    let u: u32 = c as u32;
    (0x9 <= u && u <= 0xd) || u == 0x20 || u == 0x85 || u == 0xa0 || u == 0x1680 || (0x2000 <= u
        && u <= 0x200a) || u == 0x2028 || u == 0x2029 || u == 0x202f || u == 0x205f || u == 0x3000
}

/// Nothing but white space.
pub open spec fn is_blank(s: Seq<char>) -> bool {
    forall|i: int| 0 <= i < s.len() ==> is_space(#[trigger] s[i])
}

/// `s` without its leading white space.
pub open spec fn trim_start(s: Seq<char>) -> Seq<char>
    decreases s.len(),
{
    if s.len() > 0 && is_space(s[0]) {
        trim_start(s.skip(1))
    } else {
        s
    }
}

/// `s` without its trailing white space.
pub open spec fn trim_end(s: Seq<char>) -> Seq<char>
    decreases s.len(),
{
    if s.len() > 0 && is_space(s.last()) {
        trim_end(s.drop_last())
    } else {
        s
    }
}

/// `s` without leading and trailing white space.
pub open spec fn trimmed(s: Seq<char>) -> Seq<char> {
    trim_end(trim_start(s))
}

/// Whether a text is empty once trimmed.
pub fn blank(text: &str) -> (yes: bool)
    ensures
        yes == is_blank(text@),
{
    let chars: Vec<char> = chars_of(text);
    let mut i: usize = 0;
    while i < chars.len()
        invariant
            i <= chars@.len(),
            chars@ == text@,
            forall|k: int| 0 <= k < i ==> is_space(#[trigger] text@[k]),
        decreases chars@.len() - i,
    {
        if !space(chars[i]) {
            return false;
        }
        i += 1;
    }
    true
}

/// The range left of `chars[from..to]` without leading and trailing white
/// space.
pub fn trim_range(chars: &Vec<char>, from: usize, to: usize) -> (range: (usize, usize))
    requires
        from <= to <= chars@.len(),
    ensures
        from <= range.0 <= range.1 <= to,
        chars@.subrange(range.0 as int, range.1 as int) == trimmed(
            chars@.subrange(from as int, to as int),
        ),
{
    let ghost s = chars@.subrange(from as int, to as int);
    let mut start: usize = from;
    while start < to && space(chars[start])
        invariant
            from <= start <= to <= chars@.len(),
            trim_start(s) == trim_start(chars@.subrange(start as int, to as int)),
        decreases to - start,
    {
        proof {
            assert(chars@.subrange(start as int, to as int).skip(1) =~= chars@.subrange(
                start + 1,
                to as int,
            ));
        }
        start += 1;
    }
    let ghost head = chars@.subrange(start as int, to as int);
    let mut end: usize = to;
    while start < end && space(chars[end - 1])
        invariant
            start <= end <= to <= chars@.len(),
            trim_end(head) == trim_end(chars@.subrange(start as int, end as int)),
        decreases end,
    {
        proof {
            assert(chars@.subrange(start as int, end as int).drop_last() =~= chars@.subrange(
                start as int,
                end - 1,
            ));
        }
        end -= 1;
    }
    (start, end)
}

/// The text without leading and trailing white space.
pub fn trim(text: &str) -> (out: String)
    ensures
        out@ == trimmed(text@),
{
    let chars: Vec<char> = chars_of(text);
    let (from, to) = trim_range(&chars, 0, chars.len());
    proof {
        assert(chars@.subrange(0, chars@.len() as int) =~= text@);
    }
    text_range(&chars, from, to)
}

/// Trimming leaves nothing exactly of blank text.
pub proof fn blank_text_trims_to_nothing(s: Seq<char>)
    ensures
        is_blank(s) <==> trimmed(s).len() == 0,
    decreases s.len(),
{
    if s.len() > 0 && is_space(s[0]) {
        blank_text_trims_to_nothing(s.skip(1));
        assert(is_blank(s) <==> is_blank(s.skip(1))) by {
            if is_blank(s.skip(1)) {
                assert forall|i: int| 0 <= i < s.len() implies is_space(#[trigger] s[i]) by {
                    if i > 0 {
                        assert(s[i] == s.skip(1)[i - 1]);
                    }
                }
            }
        }
    } else if s.len() > 0 {
        lemma_trim_end_keeps_first(s);
    }
}

proof fn lemma_trim_end_keeps_first(s: Seq<char>)
    requires
        s.len() > 0,
        !is_space(s[0]),
    ensures
        trim_end(s).len() > 0,
        trim_end(s)[0] == s[0],
    decreases s.len(),
{
    if is_space(s.last()) {
        lemma_trim_end_keeps_first(s.drop_last());
    }
}

/// Trimming leaves a text alone whose ends are no white space.
pub proof fn lemma_trimmed_already(s: Seq<char>)
    requires
        s.len() > 0 ==> !is_space(s[0]) && !is_space(s.last()),
    ensures
        trimmed(s) == s,
{
}

// ---------------------------------------------------------------------------
// Numbers
// ---------------------------------------------------------------------------

/// The decimal digit of a number below ten.
pub open spec fn digit(n: nat) -> char {
    ('0' as u32 + n) as char
}

/// A number in decimal, without leading zeros.
pub open spec fn decimal(n: nat) -> Seq<char>
    decreases n,
{
    if n < 10 {
        seq![digit(n)]
    } else {
        decimal(n / 10).push(digit(n % 10))
    }
}

/// The decimal digit of a number below ten.
fn digit_char(n: u64) -> (c: char)
    requires
        n < 10,
    ensures
        c == digit(n as nat),
{
    if n == 0 {
        '0'
    } else if n == 1 {
        '1'
    } else if n == 2 {
        '2'
    } else if n == 3 {
        '3'
    } else if n == 4 {
        '4'
    } else if n == 5 {
        '5'
    } else if n == 6 {
        '6'
    } else if n == 7 {
        '7'
    } else if n == 8 {
        '8'
    } else {
        '9'
    }
}

/// A number in decimal.
pub fn decimal_text(n: u64) -> (text: String)
    ensures
        text@ == decimal(n as nat),
    decreases n,
{
    if n < 10 {
        let mut text: String = String::new();
        text.push(digit_char(n));
        proof {
            assert(text@ =~= seq![digit(n as nat)]);
        }
        text
    } else {
        let mut text: String = decimal_text(n / 10);
        text.push(digit_char(n % 10));
        text
    }
}

/// A number in decimal, with a sign where it is negative.
pub open spec fn signed_decimal(n: int) -> Seq<char> {
    if n < 0 {
        "-"@ + decimal((-n) as nat)
    } else {
        decimal(n as nat)
    }
}

/// A number in decimal, with a sign where it is negative.
pub fn signed_text(n: i64) -> (text: String)
    ensures
        text@ == signed_decimal(n as int),
{
    if n < 0 {
        let mut text: String = "-".to_string();
        let size: u64 = if n == i64::MIN {
            0x8000_0000_0000_0000
        } else {
            (-n) as u64
        };
        text.append(&decimal_text(size));
        text
    } else {
        decimal_text(n as u64)
    }
}

/// A decimal digit.
pub open spec fn is_digit(c: char) -> bool {
    '0' <= c <= '9'
}

/// The number that a sequence of digits writes.
pub open spec fn digits_value(s: Seq<char>) -> nat
    decreases s.len(),
{
    if s.len() == 0 {
        0
    } else {
        digits_value(s.drop_last()) * 10 + (s.last() as u32 - '0' as u32) as nat
    }
}

/// Nothing but decimal digits.
pub open spec fn all_digits(s: Seq<char>) -> bool {
    forall|i: int| 0 <= i < s.len() ==> is_digit(#[trigger] s[i])
}

/// The number that a text writes: digits, with an optional plus sign.
pub open spec fn parsed(s: Seq<char>) -> Option<u64> {
    let digits = if s.len() > 0 && s[0] == '+' {
        s.skip(1)
    } else {
        s
    };
    if digits.len() > 0 && all_digits(digits) && digits_value(digits) <= u64::MAX {
        Some(digits_value(digits) as u64)
    } else {
        None
    }
}

proof fn lemma_value_grows(s: Seq<char>, n: int)
    requires
        all_digits(s),
        0 <= n <= s.len(),
    ensures
        digits_value(s.take(n)) <= digits_value(s),
    decreases s.len() - n,
{
    if n < s.len() {
        lemma_value_grows(s, n + 1);
        assert(s.take(n + 1).drop_last() =~= s.take(n));
        assert(is_digit(s[n]));
    } else {
        assert(s.take(n) =~= s);
    }
}

/// The number that a text writes.
pub fn parse_u64(text: &str) -> (number: Option<u64>)
    ensures
        number == parsed(text@),
{
    let chars: Vec<char> = chars_of(text);
    let from: usize = if chars.len() > 0 && chars[0] == '+' {
        1
    } else {
        0
    };
    let ghost digits = text@.skip(from as int);
    proof {
        assert(text@.skip(0) =~= text@);
    }
    if from == chars.len() {
        return None;
    }
    let mut value: u64 = 0;
    let mut i: usize = from;
    proof {
        assert(digits.take(0) =~= Seq::empty());
    }
    while i < chars.len()
        invariant
            from <= i <= chars@.len(),
            chars@ == text@,
            digits == text@.skip(from as int),
            digits.len() > 0,
            parsed(text@) == (if all_digits(digits) && digits_value(digits) <= u64::MAX {
                Some(digits_value(digits) as u64)
            } else {
                None
            }),
            all_digits(digits.take(i - from)),
            value == digits_value(digits.take(i - from)),
        decreases chars@.len() - i,
    {
        let c: char = chars[i];
        let ghost k = i - from;
        assert(digits[k] == c);
        if c < '0' || c > '9' {
            assert(!is_digit(digits[k]));
            return None;
        }
        let d: u64 = (c as u32 - '0' as u32) as u64;
        proof {
            assert(digits.take(k + 1).drop_last() =~= digits.take(k));
            assert(digits_value(digits.take(k + 1)) == value * 10 + d);
            if all_digits(digits) {
                lemma_value_grows(digits, k + 1);
            }
        }
        let grown: Option<u64> = value.checked_mul(10);
        match grown {
            Some(tens) => {
                match tens.checked_add(d) {
                    Some(sum) => {
                        value = sum;
                    },
                    None => {
                        return None;
                    },
                }
            },
            None => {
                return None;
            },
        }
        i += 1;
    }
    proof {
        assert(digits.take(i - from) =~= digits);
    }
    Some(value)
}

/// A number in decimal is digits that write that number.
pub proof fn lemma_decimal_value(n: nat)
    ensures
        decimal(n).len() > 0,
        all_digits(decimal(n)),
        digits_value(decimal(n)) == n,
    decreases n,
{
    if n < 10 {
        let s = seq![digit(n)];
        assert(s.drop_last() =~= Seq::empty());
        assert(digits_value(s) == digits_value(s.drop_last()) * 10 + n);
    } else {
        lemma_decimal_value(n / 10);
        let s = decimal(n);
        assert(s.drop_last() =~= decimal(n / 10));
        assert forall|i: int| 0 <= i < s.len() implies is_digit(#[trigger] s[i]) by {
            if i < s.len() - 1 {
                assert(s[i] == decimal(n / 10)[i]);
            }
        }
    }
}

/// Writing a number in decimal and reading it back gives the number.
pub proof fn decimals_read_back(n: u64)
    ensures
        parsed(decimal(n as nat)) == Some(n),
{
    lemma_decimal_value(n as nat);
    assert(is_digit(decimal(n as nat)[0]));
}

// ---------------------------------------------------------------------------
// Cutting
// ---------------------------------------------------------------------------

/// Where `c` first occurs; the length where it does not.
pub open spec fn place_of(s: Seq<char>, c: char) -> int
    decreases s.len(),
{
    if s.len() == 0 || s[0] == c {
        0
    } else {
        1 + place_of(s.skip(1), c)
    }
}

/// The parts before and after the first `c`.
pub open spec fn cut(s: Seq<char>, c: char) -> Option<(Seq<char>, Seq<char>)> {
    let p = place_of(s, c);
    if p < s.len() {
        Some((s.take(p), s.skip(p + 1)))
    } else {
        None
    }
}

/// `place_of` is the first occurrence.
pub proof fn lemma_place_of(s: Seq<char>, c: char)
    ensures
        0 <= place_of(s, c) <= s.len(),
        forall|i: int| 0 <= i < place_of(s, c) ==> (#[trigger] s[i]) != c,
        place_of(s, c) < s.len() ==> s[place_of(s, c)] == c,
    decreases s.len(),
{
    if s.len() > 0 && s[0] != c {
        let rest = s.skip(1);
        lemma_place_of(rest, c);
        assert forall|i: int| 0 <= i < place_of(s, c) implies (#[trigger] s[i]) != c by {
            if i > 0 {
                assert(s[i] == rest[i - 1]);
            }
        }
    }
}

/// What is first without an earlier occurrence is the first.
pub proof fn lemma_place_is(s: Seq<char>, c: char, p: int)
    requires
        0 <= p <= s.len(),
        forall|i: int| 0 <= i < p ==> (#[trigger] s[i]) != c,
        p < s.len() ==> s[p] == c,
    ensures
        place_of(s, c) == p,
{
    lemma_place_of(s, c);
    let q = place_of(s, c);
    if q < p {
        assert(s[q] != c);
    }
}

/// Where `c` first occurs in `chars[from..to]`; `to` where it does not.
pub fn find_in(chars: &Vec<char>, from: usize, to: usize, c: char) -> (place: usize)
    requires
        from <= to <= chars@.len(),
    ensures
        from <= place <= to,
        place - from == place_of(chars@.subrange(from as int, to as int), c),
{
    let ghost s = chars@.subrange(from as int, to as int);
    let mut i: usize = from;
    while i < to && chars[i] != c
        invariant
            from <= i <= to <= chars@.len(),
            s == chars@.subrange(from as int, to as int),
            forall|k: int| 0 <= k < i - from ==> (#[trigger] s[k]) != c,
        decreases to - i,
    {
        assert(s[i - from] == chars@[i as int]);
        i += 1;
    }
    proof {
        if i < to {
            assert(s[i - from] == c);
        }
        lemma_place_is(s, c, i - from);
    }
    i
}

/// The parts before and after the first `c`.
pub fn split_once(text: &str, c: char) -> (parts: Option<(String, String)>)
    ensures
        match parts {
            Some((head, tail)) => cut(text@, c) == Some((head@, tail@)),
            None => cut(text@, c) is None,
        },
{
    let chars: Vec<char> = chars_of(text);
    let p: usize = find_in(&chars, 0, chars.len(), c);
    proof {
        assert(chars@.subrange(0, chars@.len() as int) =~= text@);
    }
    if p == chars.len() {
        return None;
    }
    let head: String = text_range(&chars, 0, p);
    let tail: String = text_range(&chars, p + 1, chars.len());
    proof {
        assert(head@ =~= text@.take(p as int));
        assert(tail@ =~= text@.skip(p + 1));
    }
    Some((head, tail))
}

/// `s` without the `c`s at its end.
pub open spec fn strip_end(s: Seq<char>, c: char) -> Seq<char>
    decreases s.len(),
{
    if s.len() > 0 && s.last() == c {
        strip_end(s.drop_last(), c)
    } else {
        s
    }
}

/// The text without the `c`s at its end.
pub fn trim_end_char(text: &str, c: char) -> (out: String)
    ensures
        out@ == strip_end(text@, c),
{
    let chars: Vec<char> = chars_of(text);
    let mut end: usize = chars.len();
    proof {
        assert(text@.take(text@.len() as int) =~= text@);
    }
    while end > 0 && chars[end - 1] == c
        invariant
            end <= chars@.len(),
            chars@ == text@,
            strip_end(text@, c) == strip_end(text@.take(end as int), c),
        decreases end,
    {
        proof {
            assert(text@.take(end as int).drop_last() =~= text@.take(end - 1));
        }
        end -= 1;
    }
    let out: String = text_range(&chars, 0, end);
    proof {
        assert(out@ =~= text@.take(end as int));
    }
    out
}

// ---------------------------------------------------------------------------
// Letters
// ---------------------------------------------------------------------------

/// The lower-case form of an ASCII letter; any other character as it is.
pub open spec fn lower(c: char) -> char {
    if 'A' <= c <= 'Z' {
        (c as u32 + 32) as char
    } else {
        c
    }
}

/// `s` with its ASCII letters in lower case.
pub open spec fn lowered(s: Seq<char>) -> Seq<char> {
    s.map_values(|c: char| lower(c))
}

/// The lower-case form of an ASCII letter; any other character as it is.
pub fn lower_char(c: char) -> (out: char)
    ensures
        out == lower(c),
{
    if 'A' <= c && c <= 'Z' {
        let byte: u8 = c as u8;
        (byte + 32) as char
    } else {
        c
    }
}

/// The text with its ASCII letters in lower case.
pub fn to_lower(text: &str) -> (out: String)
    ensures
        out@ == lowered(text@),
{
    let chars: Vec<char> = chars_of(text);
    let mut out: String = String::new();
    let mut i: usize = 0;
    while i < chars.len()
        invariant
            i <= chars@.len(),
            chars@ == text@,
            out@ == lowered(text@).take(i as int),
        decreases chars@.len() - i,
    {
        out.push(lower_char(chars[i]));
        proof {
            assert(lowered(text@).take(i + 1) =~= lowered(text@).take(i as int).push(
                lowered(text@)[i as int],
            ));
        }
        i += 1;
    }
    proof {
        assert(lowered(text@).take(i as int) =~= lowered(text@));
    }
    out
}

// ---------------------------------------------------------------------------
// Searching
// ---------------------------------------------------------------------------

/// `part` stands in `s` at `i`.
pub open spec fn occurs_at(s: Seq<char>, part: Seq<char>, i: int) -> bool {
    0 <= i && i + part.len() <= s.len() && s.subrange(i, i + part.len()) == part
}

/// `part` stands somewhere in `s`.
pub open spec fn holds(s: Seq<char>, part: Seq<char>) -> bool {
    exists|i: int| #[trigger] occurs_at(s, part, i)
}

/// Whether `part` stands in `chars` at `i`.
fn part_at(chars: &Vec<char>, part: &Vec<char>, i: usize) -> (yes: bool)
    requires
        i + part@.len() <= chars@.len(),
    ensures
        yes == occurs_at(chars@, part@, i as int),
{
    let n: usize = chars.len();
    let mut k: usize = 0;
    while k < part.len()
        invariant
            k <= part@.len(),
            i + part@.len() <= n == chars@.len(),
            forall|m: int| 0 <= m < k ==> chars@[i + m] == part@[m],
        decreases part@.len() - k,
    {
        if chars[i + k] != part[k] {
            proof {
                let sub = chars@.subrange(i as int, i + part@.len());
                assert(sub[k as int] != part@[k as int]);
            }
            return false;
        }
        k += 1;
    }
    proof {
        assert(chars@.subrange(i as int, i + part@.len()) =~= part@);
    }
    true
}

/// Whether a text holds another.
pub fn contains(text: &str, part: &str) -> (yes: bool)
    ensures
        yes == holds(text@, part@),
{
    let chars: Vec<char> = chars_of(text);
    let wanted: Vec<char> = chars_of(part);
    if wanted.len() > chars.len() {
        return false;
    }
    let last: usize = chars.len() - wanted.len();
    let mut i: usize = 0;
    loop
        invariant
            i <= last,
            last + wanted@.len() == chars@.len(),
            chars@ == text@,
            wanted@ == part@,
            forall|k: int| 0 <= k < i ==> !#[trigger] occurs_at(text@, part@, k),
        decreases last - i,
    {
        if part_at(&chars, &wanted, i) {
            assert(occurs_at(text@, part@, i as int));
            return true;
        }
        if i == last {
            return false;
        }
        i += 1;
    }
}

/// Whether a text begins with another.
pub fn starts_with(text: &str, part: &str) -> (yes: bool)
    ensures
        yes == occurs_at(text@, part@, 0),
{
    let chars: Vec<char> = chars_of(text);
    let wanted: Vec<char> = chars_of(part);
    wanted.len() <= chars.len() && part_at(&chars, &wanted, 0)
}

// ---------------------------------------------------------------------------
// Joining
// ---------------------------------------------------------------------------

/// The parts, one after the other, with `sep` between them.
pub open spec fn joined(parts: Seq<Seq<char>>, sep: Seq<char>) -> Seq<char>
    decreases parts.len(),
{
    if parts.len() == 0 {
        Seq::empty()
    } else if parts.len() == 1 {
        parts[0]
    } else {
        joined(parts.drop_last(), sep) + sep + parts.last()
    }
}

/// The parts, one after the other.
pub open spec fn together(parts: Seq<Seq<char>>) -> Seq<char>
    decreases parts.len(),
{
    if parts.len() == 0 {
        Seq::empty()
    } else {
        together(parts.drop_last()) + parts.last()
    }
}

/// The parts of a list, one after the other, with `sep` between them.
pub fn join(parts: &Vec<String>, sep: &str) -> (out: String)
    ensures
        out@ == joined(texts(parts@), sep@),
{
    let ghost all = texts(parts@);
    let mut out: String = String::new();
    let mut i: usize = 0;
    proof {
        assert(out@ =~= joined(all.take(0), sep@));
    }
    while i < parts.len()
        invariant
            i <= parts@.len(),
            all == texts(parts@),
            out@ == joined(all.take(i as int), sep@),
        decreases parts@.len() - i,
    {
        let ghost before = out@;
        if i > 0 {
            out.append(sep);
        }
        out.append(&parts[i]);
        proof {
            let now = all.take(i + 1);
            assert(now.drop_last() =~= all.take(i as int));
            assert(now.last() == parts@[i as int]@);
            if i == 0 {
                assert(out@ =~= parts@[0]@);
                assert(now[0] == parts@[0]@);
            }
        }
        i += 1;
    }
    proof {
        assert(all.take(i as int) =~= all);
    }
    out
}

/// The parts of a list, one after the other.
pub fn concat(parts: &Vec<String>) -> (out: String)
    ensures
        out@ == together(texts(parts@)),
{
    let ghost all = texts(parts@);
    let mut out: String = String::new();
    let mut i: usize = 0;
    proof {
        assert(out@ =~= together(all.take(0)));
    }
    while i < parts.len()
        invariant
            i <= parts@.len(),
            all == texts(parts@),
            out@ == together(all.take(i as int)),
        decreases parts@.len() - i,
    {
        out.append(&parts[i]);
        proof {
            let now = all.take(i + 1);
            assert(now.drop_last() =~= all.take(i as int));
            assert(now.last() == parts@[i as int]@);
        }
        i += 1;
    }
    proof {
        assert(all.take(i as int) =~= all);
    }
    out
}

// ---------------------------------------------------------------------------
// Shortening
// ---------------------------------------------------------------------------

/// At most `max` characters, with an ellipsis where something was cut off and
/// there is room for one.
pub open spec fn truncated(s: Seq<char>, max: int) -> Seq<char> {
    if s.len() <= max {
        s
    } else if max <= 3 {
        s.take(max)
    } else {
        s.take(max - 3) + "..."@
    }
}

/// The last `max` characters of the trimmed text, with an ellipsis in front
/// where something was cut off.
pub open spec fn tail_of(s: Seq<char>, max: int) -> Seq<char> {
    let t = trimmed(s);
    if t.len() <= max {
        t
    } else {
        "..."@ + t.skip(t.len() - max)
    }
}

/// At most `max` characters of a text.
pub fn truncate_chars(input: &str, max: usize) -> (out: String)
    ensures
        out@ == truncated(input@, max as int),
{
    let chars: Vec<char> = chars_of(input);
    if chars.len() <= max {
        return text_of(&chars);
    }
    if max <= 3 {
        let out: String = text_range(&chars, 0, max);
        assert(out@ =~= input@.take(max as int));
        return out;
    }
    let mut out: String = text_range(&chars, 0, max - 3);
    assert(out@ =~= input@.take(max - 3));
    out.append("...");
    out
}

/// The last `max` characters of a text.
pub fn tail_chars(input: &str, max: usize) -> (out: String)
    ensures
        out@ == tail_of(input@, max as int),
{
    let chars: Vec<char> = chars_of(input);
    let (from, to) = trim_range(&chars, 0, chars.len());
    proof {
        assert(chars@.subrange(0, chars@.len() as int) =~= input@);
    }
    if to - from <= max {
        return text_range(&chars, from, to);
    }
    let tail: String = text_range(&chars, to - max, to);
    let mut out: String = "...".to_string();
    out.append(&tail);
    proof {
        let t = trimmed(input@);
        assert(tail@ =~= t.skip(t.len() - max));
    }
    out
}

/// A truncated text is no longer than it may be.
pub proof fn truncation_is_short(s: Seq<char>, max: int)
    requires
        0 <= max,
    ensures
        truncated(s, max).len() <= max,
{
    reveal_strlit("...");
}

/// The end of a text, with its ellipsis, is at most three characters longer
/// than asked for.
pub proof fn tails_are_short(s: Seq<char>, max: int)
    requires
        0 <= max,
    ensures
        tail_of(s, max).len() <= max + 3,
{
    reveal_strlit("...");
}

// ---------------------------------------------------------------------------
// Lines
// ---------------------------------------------------------------------------

/// The first line that is not blank, trimmed.
pub open spec fn first_line(s: Seq<char>) -> Option<Seq<char>>
    decreases s.len(),
{
    proof {
        lemma_place_of(s, '\n');
    }
    let p = place_of(s, '\n');
    let line = trimmed(s.take(p));
    if line.len() > 0 {
        Some(line)
    } else if p < s.len() {
        first_line(s.skip(p + 1))
    } else {
        None
    }
}

/// The first line that is not blank, trimmed.
pub fn find_line(text: &str) -> (line: Option<String>)
    ensures
        opt_text(line) == first_line(text@),
{
    let chars: Vec<char> = chars_of(text);
    let n: usize = chars.len();
    let mut from: usize = 0;
    proof {
        assert(chars@.subrange(0, n as int) =~= text@);
    }
    loop
        invariant
            from <= n == chars@.len(),
            first_line(chars@.subrange(from as int, n as int)) == first_line(text@),
        decreases n - from,
    {
        let ghost rest = chars@.subrange(from as int, n as int);
        let p: usize = find_in(&chars, from, n, '\n');
        let (a, b) = trim_range(&chars, from, p);
        assert(chars@.subrange(from as int, p as int) =~= rest.take(p - from));
        if a < b {
            return Some(text_range(&chars, a, b));
        }
        if p >= n {
            return None;
        }
        assert(rest.skip(p - from + 1) =~= chars@.subrange(p + 1, n as int));
        from = p + 1;
    }
}

/// Some line of `s`, trimmed, is `wanted`.
pub open spec fn has_line(s: Seq<char>, wanted: Seq<char>) -> bool
    decreases s.len(),
{
    proof {
        lemma_place_of(s, '\n');
    }
    if s.len() == 0 {
        false
    } else {
        let p = place_of(s, '\n');
        trimmed(s.take(p)) == wanted || (p < s.len() && has_line(s.skip(p + 1), wanted))
    }
}

/// Whether some line of a text, trimmed, is the one wanted.
pub fn any_line_is(text: &str, wanted: &str) -> (yes: bool)
    ensures
        yes == has_line(text@, wanted@),
{
    let chars: Vec<char> = chars_of(text);
    let n: usize = chars.len();
    let mut from: usize = 0;
    proof {
        assert(chars@.subrange(0, n as int) =~= text@);
    }
    while from < n
        invariant
            from <= n == chars@.len(),
            has_line(chars@.subrange(from as int, n as int), wanted@) == has_line(
                text@,
                wanted@,
            ),
        decreases n - from,
    {
        let ghost rest = chars@.subrange(from as int, n as int);
        let p: usize = find_in(&chars, from, n, '\n');
        let (a, b) = trim_range(&chars, from, p);
        assert(chars@.subrange(from as int, p as int) =~= rest.take(p - from));
        if same_text(&text_range(&chars, a, b), wanted) {
            return true;
        }
        if p >= n {
            return false;
        }
        assert(rest.skip(p - from + 1) =~= chars@.subrange(p + 1, n as int));
        from = p + 1;
    }
    false
}

/// A text that is put together holds each of its parts.
pub proof fn parts_are_held(front: Seq<char>, part: Seq<char>, back: Seq<char>)
    ensures
        holds(front + part + back, part),
{
    let s = front + part + back;
    assert(s.subrange(front.len() as int, (front.len() + part.len()) as int) =~= part);
    assert(occurs_at(s, part, front.len() as int));
}

/// What a part holds, the whole holds.
pub proof fn parts_of_parts_are_held(s: Seq<char>, part: Seq<char>, inner: Seq<char>)
    requires
        holds(s, part),
        holds(part, inner),
    ensures
        holds(s, inner),
{
    let i = choose|i: int| #[trigger] occurs_at(s, part, i);
    let j = choose|j: int| #[trigger] occurs_at(part, inner, j);
    assert(s.subrange(i + j, i + j + inner.len()) =~= s.subrange(i, i + part.len()).subrange(
        j,
        j + inner.len(),
    ));
    assert(occurs_at(s, inner, i + j));
}

} // verus!
