//! What the operations on text give, in terms of the characters that go in and
//! come out.

use vstd::prelude::*;

use crate::access;
use crate::auth;
use crate::text;

verus! {

// ---------------------------------------------------------------------------
// Cutting
// ---------------------------------------------------------------------------

/// What is between `from` and `to` is all of the text but space around it.
pub open spec fn is_middle(s: Seq<char>, from: int, to: int, middle: Seq<char>) -> bool {
    &&& 0 <= from <= to <= s.len()
    &&& middle == s.subrange(from, to)
    &&& text::is_blank(s.take(from))
    &&& text::is_blank(s.skip(to))
}

proof fn lemma_trim_start(s: Seq<char>) -> (from: int)
    ensures
        0 <= from <= s.len(),
        text::trim_start(s) == s.skip(from),
        text::is_blank(s.take(from)),
        from < s.len() ==> !text::is_space(s[from]),
    decreases s.len(),
{
    if s.len() > 0 && text::is_space(s[0]) {
        let rest = s.skip(1);
        let from = lemma_trim_start(rest);
        assert(s.skip(from + 1) =~= rest.skip(from));
        assert forall|i: int| 0 <= i < from + 1 implies text::is_space(
            #[trigger] s.take(from + 1)[i],
        ) by {
            if i > 0 {
                assert(s[i] == rest.take(from)[i - 1]);
            }
        }
        from + 1
    } else {
        assert(s.skip(0) =~= s);
        0
    }
}

proof fn lemma_trim_end(s: Seq<char>) -> (to: int)
    ensures
        0 <= to <= s.len(),
        text::trim_end(s) == s.take(to),
        text::is_blank(s.skip(to)),
        to > 0 ==> !text::is_space(s[to - 1]),
    decreases s.len(),
{
    if s.len() > 0 && text::is_space(s.last()) {
        let rest = s.drop_last();
        let to = lemma_trim_end(rest);
        assert(s.take(to) =~= rest.take(to));
        assert forall|i: int| 0 <= i < s.skip(to).len() implies text::is_space(
            #[trigger] s.skip(to)[i],
        ) by {
            if i + to < rest.len() {
                assert(s[i + to] == rest.skip(to)[i]);
            }
        }
        to
    } else {
        assert(s.take(s.len() as int) =~= s);
        s.len() as int
    }
}

/// Trimming takes the space off both ends, all of it and nothing else.
pub proof fn trimming_takes_the_ends_off(s: Seq<char>)
    ensures
        exists|from: int, to: int| #[trigger] is_middle(s, from, to, text::trimmed(s)),
        text::trimmed(s).len() > 0 ==> !text::is_space(text::trimmed(s)[0]) && !text::is_space(
            text::trimmed(s).last(),
        ),
{
    let from = lemma_trim_start(s);
    let rest = s.skip(from);
    let size = lemma_trim_end(rest);
    let to = from + size;
    assert(text::trimmed(s) =~= s.subrange(from, to));
    assert(s.skip(to) =~= rest.skip(size));
    assert(is_middle(s, from, to, text::trimmed(s)));
    if size > 0 {
        assert(rest[0] == s[from]);
    }
}

/// A text is cut where the character first stands: what comes before and what
/// comes after make it up again. Without the character there is no cut.
pub proof fn a_cut_is_at_the_first(s: Seq<char>, c: char)
    ensures
        text::cut(s, c) is Some <==> s.contains(c),
        text::cut(s, c) matches Some((a, b)) ==> s == a.push(c) + b && !a.contains(c),
{
    text::lemma_place_of(s, c);
    let p = text::place_of(s, c);
    if p < s.len() {
        assert(s =~= s.take(p).push(c) + s.skip(p + 1));
        assert forall|i: int| 0 <= i < p implies #[trigger] s.take(p)[i] != c by {
            assert(s[i] != c);
        }
    }
}

/// What is stripped off the end of a text is the character, and none is left
/// there.
pub proof fn ends_are_stripped(s: Seq<char>, c: char)
    ensures
        text::strip_end(s, c).len() <= s.len(),
        text::strip_end(s, c) == s.take(text::strip_end(s, c).len() as int),
        forall|i: int| text::strip_end(s, c).len() <= i < s.len() ==> #[trigger] s[i] == c,
        text::strip_end(s, c).len() > 0 ==> text::strip_end(s, c).last() != c,
    decreases s.len(),
{
    if s.len() > 0 && s.last() == c {
        let rest = s.drop_last();
        ends_are_stripped(rest, c);
        let n = text::strip_end(rest, c).len();
        assert(s.take(n as int) =~= rest.take(n as int));
        assert forall|i: int| n <= i < s.len() implies #[trigger] s[i] == c by {
            if i < rest.len() {
                assert(rest[i] == c);
            }
        }
    } else {
        assert(s.take(s.len() as int) =~= s);
    }
}

/// A text that fits stays as it is; one that does not keeps its start.
pub proof fn truncation_keeps_the_start(s: Seq<char>, max: int)
    requires
        max >= 3,
    ensures
        s.len() <= max ==> text::truncated(s, max) == s,
        s.len() > max ==> {
            &&& text::truncated(s, max).len() == max
            &&& text::truncated(s, max).take(max - 3) == s.take(max - 3)
            &&& max > 3 ==> text::truncated(s, max).skip(max - 3) == "..."@
        },
{
    reveal_strlit("...");
    if s.len() > max {
        assert(text::truncated(s, max).take(max - 3) =~= s.take(max - 3));
        if max > 3 {
            assert(text::truncated(s, max).skip(max - 3) =~= "..."@);
        }
    }
}

/// A tail is the end of the text without the space around it: all of it where
/// that fits, else its last characters.
pub proof fn tails_are_the_end(s: Seq<char>, max: int)
    requires
        max >= 0,
    ensures
        text::trimmed(s).len() <= max ==> text::tail_of(s, max) == text::trimmed(s),
        text::trimmed(s).len() > max ==> text::tail_of(s, max).len() == max + 3
            && text::tail_of(s, max).take(3) == "..."@ && text::tail_of(s, max).skip(3)
            == text::trimmed(s).skip(text::trimmed(s).len() - max),
{
    reveal_strlit("...");
    let t = text::trimmed(s);
    if t.len() > max {
        assert(text::tail_of(s, max).take(3) =~= "..."@);
        assert(text::tail_of(s, max).skip(3) =~= t.skip(t.len() - max));
    }
}

// ---------------------------------------------------------------------------
// Lists and lines
// ---------------------------------------------------------------------------

/// What stands between two separators, or a separator and an end.
pub open spec fn is_part(s: Seq<char>, c: char, from: int, to: int) -> bool {
    &&& 0 <= from <= to <= s.len()
    &&& from == 0 || s[from - 1] == c
    &&& to == s.len() || s[to] == c
    &&& forall|i: int| from <= i < to ==> #[trigger] s[i] != c
}

/// A part behind the first separator is a part of the rest.
proof fn lemma_part_of_rest(s: Seq<char>, c: char, from: int, to: int)
    requires
        is_part(s, c, from, to),
        from > 0,
    ensures
        text::place_of(s, c) < from,
        is_part(
            s.skip(text::place_of(s, c) + 1),
            c,
            from - text::place_of(s, c) - 1,
            to - text::place_of(s, c) - 1,
        ),
        s.skip(text::place_of(s, c) + 1).subrange(
            from - text::place_of(s, c) - 1,
            to - text::place_of(s, c) - 1,
        ) == s.subrange(from, to),
{
    text::lemma_place_of(s, c);
    let p = text::place_of(s, c);
    if from - 1 < p {
        assert(s[from - 1] != c);
    }
    let rest = s.skip(p + 1);
    let (a, b) = (from - p - 1, to - p - 1);
    assert(a == 0 || rest[a - 1] == s[from - 1]);
    assert(b == rest.len() || rest[b] == s[to]);
    assert forall|i: int| a <= i < b implies #[trigger] rest[i] != c by {
        assert(rest[i] == s[i + p + 1]);
    }
    assert(rest.subrange(a, b) =~= s.subrange(from, to));
}

/// A part of what follows the first separator is a part of the whole.
pub proof fn parts_of_the_rest_are_parts(s: Seq<char>, c: char, a: int, b: int)
    requires
        text::place_of(s, c) < s.len(),
        is_part(s.skip(text::place_of(s, c) + 1), c, a, b),
    ensures
        is_part(s, c, a + text::place_of(s, c) + 1, b + text::place_of(s, c) + 1),
        s.skip(text::place_of(s, c) + 1).subrange(a, b) == s.subrange(
            a + text::place_of(s, c) + 1,
            b + text::place_of(s, c) + 1,
        ),
{
    text::lemma_place_of(s, c);
    let p = text::place_of(s, c);
    let rest = s.skip(p + 1);
    let (from, to) = (a + p + 1, b + p + 1);
    if a > 0 {
        assert(s[from - 1] == rest[a - 1]);
    }
    if b < rest.len() {
        assert(s[to] == rest[b]);
    }
    assert forall|i: int| from <= i < to implies #[trigger] s[i] != c by {
        assert(rest[i - p - 1] == s[i]);
    }
    assert(rest.subrange(a, b) =~= s.subrange(from, to));
}

/// The text up to the first separator is a part.
proof fn lemma_first_part(s: Seq<char>, c: char)
    ensures
        is_part(s, c, 0, text::place_of(s, c)),
        s.take(text::place_of(s, c)) == s.subrange(0, text::place_of(s, c)),
{
    text::lemma_place_of(s, c);
    assert(s.take(text::place_of(s, c)) =~= s.subrange(0, text::place_of(s, c)));
}

/// A line of the text is the wanted one, but for space around it.
pub open spec fn is_line(s: Seq<char>, wanted: Seq<char>, from: int, to: int) -> bool {
    is_part(s, '\n', from, to) && text::trimmed(s.subrange(from, to)) == wanted
}

/// A text has a line where it stands among its lines, with or without space
/// around it, and only there.
pub proof fn lines_are_found(s: Seq<char>, wanted: Seq<char>)
    requires
        wanted.len() > 0,
    ensures
        text::has_line(s, wanted) <==> exists|from: int, to: int| #[trigger]
            is_line(s, wanted, from, to),
    decreases s.len(),
{
    text::lemma_place_of(s, '\n');
    let p = text::place_of(s, '\n');
    lemma_first_part(s, '\n');
    let rest = s.skip(p + 1);
    if s.len() > 0 && p < s.len() {
        lines_are_found(rest, wanted);
    }
    if text::has_line(s, wanted) {
        if text::trimmed(s.take(p)) == wanted {
            assert(is_line(s, wanted, 0, p));
        } else {
            let (a, b) = choose|a: int, b: int| #[trigger] is_line(rest, wanted, a, b);
            parts_of_the_rest_are_parts(s, '\n', a, b);
            assert(is_line(s, wanted, a + p + 1, b + p + 1));
        }
    }
    if exists|from: int, to: int| #[trigger] is_line(s, wanted, from, to) {
        let (from, to) = choose|from: int, to: int| #[trigger] is_line(s, wanted, from, to);
        if s.len() == 0 {
            assert(s.subrange(from, to) =~= Seq::empty());
            text::blank_text_trims_to_nothing(s.subrange(from, to));
        } else if from == 0 {
            text::lemma_place_is(s, '\n', to);
        } else {
            lemma_part_of_rest(s, '\n', from, to);
            assert(is_line(rest, wanted, from - p - 1, to - p - 1));
        }
    }
}

/// Every line that ends before `from` is blank.
pub open spec fn blank_before(s: Seq<char>, from: int) -> bool {
    forall|a: int, b: int| #[trigger]
        is_part(s, '\n', a, b) && b < from ==> text::is_blank(s.subrange(a, b))
}

/// The first line is the first that is not blank, without the space around it;
/// where every line is blank there is none.
pub proof fn the_first_line_is_the_first_that_says_something(s: Seq<char>)
    ensures
        text::first_line(s) is None ==> forall|from: int, to: int| #[trigger]
            is_part(s, '\n', from, to) ==> text::is_blank(s.subrange(from, to)),
        text::first_line(s) matches Some(line) ==> line.len() > 0 && exists|from: int, to: int|
            #[trigger]
            is_line(s, line, from, to) && blank_before(s, from),
    decreases s.len(),
{
    text::lemma_place_of(s, '\n');
    let p = text::place_of(s, '\n');
    lemma_first_part(s, '\n');
    text::blank_text_trims_to_nothing(s.take(p));
    let head = text::trimmed(s.take(p));
    let rest = s.skip(p + 1);
    if head.len() > 0 {
        assert(is_line(s, head, 0, p));
        assert(blank_before(s, 0));
    } else if p < s.len() {
        the_first_line_is_the_first_that_says_something(rest);
        if let Some(line) = text::first_line(s) {
            let (a, b) = choose|a: int, b: int| #[trigger]
                is_line(rest, line, a, b) && blank_before(rest, a);
            parts_of_the_rest_are_parts(s, '\n', a, b);
            assert(is_line(s, line, a + p + 1, b + p + 1));
            assert forall|c: int, d: int| #[trigger]
                is_part(s, '\n', c, d) && d < a + p + 1 implies text::is_blank(
                s.subrange(c, d),
            ) by {
                if c == 0 {
                    text::lemma_place_is(s, '\n', d);
                } else {
                    lemma_part_of_rest(s, '\n', c, d);
                }
            }
            assert(blank_before(s, a + p + 1));
        } else {
            assert forall|c: int, d: int| #[trigger] is_part(s, '\n', c, d) implies text::is_blank(
                s.subrange(c, d),
            ) by {
                if c == 0 {
                    text::lemma_place_is(s, '\n', d);
                } else {
                    lemma_part_of_rest(s, '\n', c, d);
                }
            }
        }
    } else {
        assert forall|c: int, d: int| #[trigger] is_part(s, '\n', c, d) implies text::is_blank(
            s.subrange(c, d),
        ) by {
            if c > 0 {
                lemma_part_of_rest(s, '\n', c, d);
            } else {
                text::lemma_place_is(s, '\n', d);
            }
        }
    }
}

/// The email of an entry of the operator's list, in the form that is compared.
pub open spec fn is_entry(list: Seq<char>, email: Seq<char>, from: int, to: int) -> bool {
    is_part(list, ',', from, to) && text::lowered(text::trimmed(list.subrange(from, to))) == email
}

/// Only the emails of the operator's list are on it.
pub proof fn only_listed_emails_are_allowed(list: Seq<char>, email: Seq<char>)
    requires
        auth::email_list(list).contains(email),
    ensures
        email.len() > 0,
        exists|from: int, to: int| #[trigger] is_entry(list, email, from, to),
    decreases list.len(),
{
    text::lemma_place_of(list, ',');
    let p = text::place_of(list, ',');
    lemma_first_part(list, ',');
    let first = auth::email_key(list.take(p));
    let rest = list.skip(p + 1);
    if first.len() > 0 && email == first {
        assert(is_entry(list, email, 0, p));
    } else {
        let k = auth::email_list(list).index_of(email);
        if p < list.len() {
            let later = auth::email_list(rest);
            if first.len() > 0 {
                assert(later[k - 1] == email);
            } else {
                assert(later[k] == email);
            }
            only_listed_emails_are_allowed(rest, email);
            let (a, b) = choose|a: int, b: int| #[trigger] is_entry(rest, email, a, b);
            parts_of_the_rest_are_parts(list, ',', a, b);
            assert(is_entry(list, email, a + p + 1, b + p + 1));
        }
    }
}

/// Parts that are joined are all held, in their order.
pub proof fn joined_parts_are_held(parts: Seq<Seq<char>>, sep: Seq<char>, i: int)
    requires
        0 <= i < parts.len(),
    ensures
        text::holds(text::joined(parts, sep), parts[i]),
        i + 1 < parts.len() ==> text::holds(
            text::joined(parts, sep),
            parts[i] + sep + parts[i + 1],
        ),
    decreases parts.len(),
{
    let all = text::joined(parts, sep);
    if parts.len() == 1 {
        assert(all.subrange(0, all.len() as int) =~= all);
        assert(text::occurs_at(all, parts[i], 0));
    } else {
        let rest = parts.drop_last();
        let front = text::joined(rest, sep);
        if i < rest.len() {
            joined_parts_are_held(rest, sep, i);
            let a = choose|a: int| #[trigger] text::occurs_at(front, parts[i], a);
            assert(all.subrange(a, a + parts[i].len()) =~= front.subrange(a, a + parts[i].len()));
            assert(text::occurs_at(all, parts[i], a));
            if i + 1 < rest.len() {
                let pair = parts[i] + sep + parts[i + 1];
                let b = choose|b: int| #[trigger] text::occurs_at(front, pair, b);
                assert(all.subrange(b, b + pair.len()) =~= front.subrange(b, b + pair.len()));
                assert(text::occurs_at(all, pair, b));
            } else {
                let pair = parts[i] + sep + parts[i + 1];
                let at = lemma_joined_end(rest, sep);
                assert(all.subrange(at, at + pair.len()) =~= pair);
                assert(text::occurs_at(all, pair, at));
            }
        } else {
            let at = (front + sep).len() as int;
            assert(all.subrange(at, at + parts[i].len()) =~= parts[i]);
            assert(text::occurs_at(all, parts[i], at));
        }
    }
}

/// What is joined ends with the last part.
proof fn lemma_joined_end(parts: Seq<Seq<char>>, sep: Seq<char>) -> (at: int)
    requires
        parts.len() > 0,
    ensures
        0 <= at,
        at + parts.last().len() == text::joined(parts, sep).len(),
        text::joined(parts, sep).skip(at) == parts.last(),
{
    let all = text::joined(parts, sep);
    if parts.len() == 1 {
        assert(all.skip(0) =~= all);
        0
    } else {
        let at = (text::joined(parts.drop_last(), sep) + sep).len() as int;
        assert(all.skip(at) =~= parts.last());
        at
    }
}

// ---------------------------------------------------------------------------
// Letters, numbers and escapes
// ---------------------------------------------------------------------------

/// Lower case leaves no capital and changes nothing but capitals, each for its
/// own small letter.
pub proof fn capitals_become_small(s: Seq<char>, i: int)
    requires
        0 <= i < s.len(),
    ensures
        text::lowered(s).len() == s.len(),
        !('A' <= text::lowered(s)[i] <= 'Z'),
        !('A' <= s[i] <= 'Z') ==> text::lowered(s)[i] == s[i],
        'A' <= s[i] <= 'Z' ==> text::lowered(s)[i] as u32 - 'a' as u32 == s[i] as u32 - 'A' as u32,
{
}

/// A number below nothing is told with a sign before its digits.
pub proof fn signs_are_told(n: int)
    ensures
        n >= 0 ==> text::signed_decimal(n) == text::decimal(n as nat),
        n < 0 ==> text::signed_decimal(n).len() > 1 && text::signed_decimal(n)[0] == '-'
            && text::signed_decimal(n).skip(1) == text::decimal((-n) as nat),
{
    reveal_strlit("-");
    if n < 0 {
        assert(text::signed_decimal(n).skip(1) =~= text::decimal((-n) as nat));
    }
}

/// What a hexadecimal digit stands for.
pub open spec fn hex_value(c: char) -> int {
    if '0' <= c <= '9' {
        c as u32 - '0' as u32
    } else if 'A' <= c <= 'F' {
        c as u32 - 'A' as u32 + 10
    } else {
        -1
    }
}

/// In an address a plain byte stands for itself, and any other is told by its
/// two digits.
pub proof fn url_bytes_are_told(b: u8)
    ensures
        auth::url_byte(b).len() == 1 ==> auth::url_byte(b)[0] as u32 == b as u32 && b != 0x25
            && b != 0x26 && b != 0x3d && b != 0x20,
        auth::url_byte(b).len() != 1 ==> {
            &&& auth::url_byte(b).len() == 3
            &&& auth::url_byte(b)[0] == '%'
            &&& hex_value(auth::url_byte(b)[1]) * 16 + hex_value(auth::url_byte(b)[2]) == b
        },
        0x61 <= b <= 0x7a || 0x41 <= b <= 0x5a || 0x30 <= b <= 0x39 ==> auth::url_byte(b).len()
            == 1,
{
}

/// The bytes of an address are told one after the other.
pub proof fn url_texts_are_told_in_order(a: Seq<u8>, b: Seq<u8>)
    ensures
        auth::url_bytes(a + b) == auth::url_bytes(a) + auth::url_bytes(b),
    decreases b.len(),
{
    if b.len() == 0 {
        assert(a + b =~= a);
        assert(auth::url_bytes(a) + auth::url_bytes(b) =~= auth::url_bytes(a));
    } else {
        url_texts_are_told_in_order(a, b.drop_last());
        assert((a + b).drop_last() =~= a + b.drop_last());
        assert(auth::url_bytes(a + b) =~= auth::url_bytes(a) + auth::url_bytes(b));
    }
}

/// Text that needs no escape is shown as it is.
pub proof fn plain_text_is_shown_as_it_is(s: Seq<char>)
    requires
        forall|i: int|
            0 <= i < s.len() ==> #[trigger] s[i] != '&' && s[i] != '<' && s[i] != '>' && s[i]
                != '"',
    ensures
        access::html_text(s) == s,
    decreases s.len(),
{
    if s.len() > 0 {
        let rest = s.drop_last();
        assert forall|i: int| 0 <= i < rest.len() implies #[trigger] rest[i] != '&' && rest[i]
            != '<' && rest[i] != '>' && rest[i] != '"' by {
            assert(rest[i] == s[i]);
        }
        plain_text_is_shown_as_it_is(rest);
        assert(s[s.len() - 1] == s.last());
        assert(access::html_text(s) =~= s);
    }
}

} // verus!
