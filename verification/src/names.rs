//! What harnesses are called: on the wire, by their command-line tools, and in
//! the names of the models they play.

use vstd::prelude::*;

use crate::protocol::Harness;
use crate::text;

verus! {

/// A harness's name in code.
pub open spec fn variant_name(harness: Harness) -> Seq<char> {
    match harness {
        Harness::ClaudeCode => "ClaudeCode"@,
        Harness::Codex => "Codex"@,
        Harness::Cursor => "Cursor"@,
        Harness::Mock => "Mock"@,
    }
}

/// A harness's name in code.
pub fn variant(harness: Harness) -> (name: &'static str)
    ensures
        name@ == variant_name(harness),
{
    match harness {
        Harness::ClaudeCode => "ClaudeCode",
        Harness::Codex => "Codex",
        Harness::Cursor => "Cursor",
        Harness::Mock => "Mock",
    }
}

/// An upper-case ASCII letter.
pub open spec fn is_upper(c: char) -> bool {
    'A' <= c <= 'Z'
}

/// A name in kebab case: lower case, with a dash before each word but the
/// first.
pub open spec fn kebab(s: Seq<char>) -> Seq<char>
    decreases s.len(),
{
    if s.len() == 0 {
        Seq::empty()
    } else {
        let rest = kebab(s.drop_last());
        if is_upper(s.last()) && s.len() > 1 {
            rest.push('-').push(text::lower(s.last()))
        } else {
            rest.push(text::lower(s.last()))
        }
    }
}

/// A name in kebab case.
pub fn kebab_case(name: &str) -> (out: String)
    ensures
        out@ == kebab(name@),
{
    let chars: Vec<char> = text::chars_of(name);
    let mut out: String = String::new();
    let mut i: usize = 0;
    assert(name@.take(0) =~= Seq::empty());
    assert(out@ =~= Seq::empty());
    while i < chars.len()
        invariant
            i <= chars@.len(),
            chars@ == name@,
            out@ == kebab(name@.take(i as int)),
        decreases chars@.len() - i,
    {
        let c: char = chars[i];
        proof {
            assert(name@.take(i + 1).drop_last() =~= name@.take(i as int));
            assert(name@.take(i + 1).last() == c);
        }
        if 'A' <= c && c <= 'Z' && i > 0 {
            out.push('-');
        }
        out.push(text::lower_char(c));
        i += 1;
    }
    assert(name@.take(i as int) =~= name@);
    out
}

/// A harness as it is written: its name in kebab case.
pub open spec fn name_of(harness: Harness) -> Seq<char> {
    kebab(variant_name(harness))
}

/// A harness as it is written.
pub fn harness_name(harness: Harness) -> (name: String)
    ensures
        name@ == name_of(harness),
{
    kebab_case(variant(harness))
}

/// What a name says before its first dash.
pub open spec fn first_word(name: Seq<char>) -> Seq<char> {
    match text::cut(name, '-') {
        Some((word, _)) => word,
        None => name,
    }
}

/// The word that Anthropic's command-line tool goes by.
pub open spec fn anthropic_cli() -> Seq<char> {
    first_word(name_of(Harness::ClaudeCode))
}

/// The word that Anthropic's command-line tool goes by.
pub fn anthropic_cli_name() -> (word: String)
    ensures
        word@ == anthropic_cli(),
{
    let name: String = harness_name(Harness::ClaudeCode);
    match text::split_once(&name, '-') {
        Some((word, _)) => word,
        None => name,
    }
}

/// The same word as a proper name: the six letters that the harness's name in
/// code starts with.
pub open spec fn anthropic_model_word() -> Seq<char> {
    variant_name(Harness::ClaudeCode).take(6)
}

/// The word that Anthropic's models go by.
pub fn anthropic_model_name() -> (word: String)
    ensures
        word@ == anthropic_model_word(),
{
    proof {
        reveal_strlit("ClaudeCode");
    }
    let chars: Vec<char> = text::chars_of(variant(Harness::ClaudeCode));
    let word: String = text::text_range(&chars, 0, 6);
    assert(word@ =~= anthropic_model_word());
    word
}

/// The letters of the name of Anthropic's harness.
pub proof fn lemma_anthropic_name()
    ensures
        name_of(Harness::ClaudeCode).len() == 11,
        name_of(Harness::ClaudeCode)[0] == 'c',
        name_of(Harness::ClaudeCode)[1] == 'l',
        name_of(Harness::ClaudeCode)[6] == '-',
        name_of(Harness::ClaudeCode)[10] == 'e',
        forall|i: int|
            0 <= i < 11 && i != 6 ==> 'a' <= #[trigger] name_of(Harness::ClaudeCode)[i] <= 'z',
{
    reveal_strlit("ClaudeCode");
    reveal_with_fuel(kebab, 11);
}

/// The other harnesses are written as they are called, in lower case.
pub proof fn lemma_short_names()
    ensures
        name_of(Harness::Codex) == "codex"@,
        name_of(Harness::Cursor) == "cursor"@,
        name_of(Harness::Mock) == "mock"@,
{
    reveal_strlit("Codex");
    reveal_strlit("Cursor");
    reveal_strlit("Mock");
    reveal_strlit("codex");
    reveal_strlit("cursor");
    reveal_strlit("mock");
    lemma_one_word("Codex"@);
    lemma_one_word("Cursor"@);
    lemma_one_word("Mock"@);
    assert(text::lowered("Codex"@) =~= "codex"@);
    assert(text::lowered("Cursor"@) =~= "cursor"@);
    assert(text::lowered("Mock"@) =~= "mock"@);
}

proof fn lemma_one_word(s: Seq<char>)
    requires
        forall|i: int| 0 < i < s.len() ==> !is_upper(#[trigger] s[i]),
    ensures
        kebab(s) == text::lowered(s),
    decreases s.len(),
{
    if s.len() > 0 {
        lemma_one_word(s.drop_last());
        assert(text::lowered(s) =~= text::lowered(s.drop_last()).push(text::lower(s.last())));
    } else {
        assert(text::lowered(s) =~= Seq::empty());
    }
}

} // verus!
