//! Escaping of attribute values.
//!
//! A value is made safe for a double-quoted attribute by five replacements
//! made one after the other, `&` first. [`lemma_escaped_is_one_pass`] shows
//! that this is the same as replacing each character of the value once.

use vstd::prelude::*;

verus! {

/// What `String::push` of the standard library does, taken on trust: it
/// appends the given character to the end of the string and changes nothing
/// else of it.
pub assume_specification[ String::push ](s: &mut String, c: char)
    ensures
        final(s)@ == old(s)@.push(c),
;

/// `s` with every occurrence of the character `from` replaced by `to`.
pub open spec fn replace_char(s: Seq<char>, from: char, to: Seq<char>) -> Seq<char>
    decreases s.len(),
{
    if s.len() == 0 {
        Seq::empty()
    } else if s.last() == from {
        replace_char(s.drop_last(), from, to) + to
    } else {
        replace_char(s.drop_last(), from, to).push(s.last())
    }
}

/// The attribute-safe form of `s`: `&`, `"`, `'`, `<` and `>` replaced, in
/// this order, by `&amp;`, `&quot;`, `&apos;`, `&lt;` and `&gt;`.
pub open spec fn escaped(s: Seq<char>) -> Seq<char> {
    replace_char(
        replace_char(
            replace_char(
                replace_char(replace_char(s, '&', "&amp;"@), '"', "&quot;"@),
                '\'',
                "&apos;"@,
            ),
            '<',
            "&lt;"@,
        ),
        '>',
        "&gt;"@,
    )
}

/// What a single character is written as in an attribute value.
pub open spec fn escaped_char(c: char) -> Seq<char> {
    if c == '&' {
        "&amp;"@
    } else if c == '"' {
        "&quot;"@
    } else if c == '\'' {
        "&apos;"@
    } else if c == '<' {
        "&lt;"@
    } else if c == '>' {
        "&gt;"@
    } else {
        seq![c]
    }
}

/// `s` with each character written by [`escaped_char`].
pub open spec fn escaped_each(s: Seq<char>) -> Seq<char>
    decreases s.len(),
{
    if s.len() == 0 {
        Seq::empty()
    } else {
        escaped_each(s.drop_last()) + escaped_char(s.last())
    }
}

/// Replacing a character distributes over concatenation.
pub proof fn lemma_replace_char_concat(a: Seq<char>, b: Seq<char>, from: char, to: Seq<char>)
    ensures
        replace_char(a + b, from, to) == replace_char(a, from, to) + replace_char(b, from, to),
    decreases b.len(),
{
    if b.len() > 0 {
        assert((a + b).drop_last() =~= a + b.drop_last());
        lemma_replace_char_concat(a, b.drop_last(), from, to);
    }
}

/// Replacing a character that does not occur changes nothing.
pub proof fn lemma_replace_char_absent(s: Seq<char>, from: char, to: Seq<char>)
    requires
        forall|i: int| 0 <= i < s.len() ==> s[i] != from,
    ensures
        replace_char(s, from, to) == s,
    decreases s.len(),
{
    if s.len() > 0 {
        lemma_replace_char_absent(s.drop_last(), from, to);
    }
}

/// Replacing a character in the text that consists of just that character
/// gives the replacement.
proof fn lemma_replace_char_single(c: char, from: char, to: Seq<char>)
    ensures
        replace_char(seq![c], from, to) == if c == from {
            to
        } else {
            seq![c]
        },
{
    assert(replace_char(seq![c].drop_last(), from, to) =~= Seq::<char>::empty());
}

/// The five replacements, made on a single character, give what
/// [`escaped_char`] gives: no replacement touches what an earlier one wrote.
pub proof fn lemma_escaped_single(c: char)
    ensures
        escaped(seq![c]) == escaped_char(c),
{
    reveal_strlit("&amp;");
    reveal_strlit("&quot;");
    reveal_strlit("&apos;");
    reveal_strlit("&lt;");
    reveal_strlit("&gt;");
    let s0 = seq![c];
    let s1 = replace_char(s0, '&', "&amp;"@);
    lemma_replace_char_single(c, '&', "&amp;"@);
    let s2 = replace_char(s1, '"', "&quot;"@);
    if c == '&' {
        lemma_replace_char_absent(s1, '"', "&quot;"@);
    } else {
        lemma_replace_char_single(c, '"', "&quot;"@);
    }
    let s3 = replace_char(s2, '\'', "&apos;"@);
    if c == '&' || c == '"' {
        lemma_replace_char_absent(s2, '\'', "&apos;"@);
    } else {
        lemma_replace_char_single(c, '\'', "&apos;"@);
    }
    let s4 = replace_char(s3, '<', "&lt;"@);
    if c == '&' || c == '"' || c == '\'' {
        lemma_replace_char_absent(s3, '<', "&lt;"@);
    } else {
        lemma_replace_char_single(c, '<', "&lt;"@);
    }
    if c == '&' || c == '"' || c == '\'' || c == '<' {
        lemma_replace_char_absent(s4, '>', "&gt;"@);
    } else {
        lemma_replace_char_single(c, '>', "&gt;"@);
    }
}

/// Escaping distributes over concatenation.
pub proof fn lemma_escaped_concat(a: Seq<char>, b: Seq<char>)
    ensures
        escaped(a + b) == escaped(a) + escaped(b),
{
    lemma_replace_char_concat(a, b, '&', "&amp;"@);
    let a1 = replace_char(a, '&', "&amp;"@);
    let b1 = replace_char(b, '&', "&amp;"@);
    lemma_replace_char_concat(a1, b1, '"', "&quot;"@);
    let a2 = replace_char(a1, '"', "&quot;"@);
    let b2 = replace_char(b1, '"', "&quot;"@);
    lemma_replace_char_concat(a2, b2, '\'', "&apos;"@);
    let a3 = replace_char(a2, '\'', "&apos;"@);
    let b3 = replace_char(b2, '\'', "&apos;"@);
    lemma_replace_char_concat(a3, b3, '<', "&lt;"@);
    let a4 = replace_char(a3, '<', "&lt;"@);
    let b4 = replace_char(b3, '<', "&lt;"@);
    lemma_replace_char_concat(a4, b4, '>', "&gt;"@);
}

/// Escaping replaces each character exactly once: the five replacements made
/// in order give the text in which every character stands as
/// [`escaped_char`] writes it, so that no `&` written by a replacement is
/// escaped again.
pub proof fn lemma_escaped_is_one_pass(s: Seq<char>)
    ensures
        escaped(s) == escaped_each(s),
    decreases s.len(),
{
    if s.len() > 0 {
        lemma_escaped_is_one_pass(s.drop_last());
        lemma_escaped_single(s.last());
        lemma_escaped_concat(s.drop_last(), seq![s.last()]);
        assert(s.drop_last() + seq![s.last()] =~= s);
    }
}

/// Returns the attribute-safe form of `input`.
pub fn escape_str(input: &str) -> (output: String)
    ensures
        output@ == escaped(input@),
{
    let mut output = String::new();
    for c in it: input.chars()
        invariant
            it.seq() == input@,
            output@ == escaped_each(input@.take(it.index())),
    {
        assert(input@.take(it.index() + 1).drop_last() =~= input@.take(it.index()));
        if c == '&' {
            output.append("&amp;");
        } else if c == '"' {
            output.append("&quot;");
        } else if c == '\'' {
            output.append("&apos;");
        } else if c == '<' {
            output.append("&lt;");
        } else if c == '>' {
            output.append("&gt;");
        } else {
            output.push(c);
        }
    }
    proof {
        assert(input@.take(input@.len() as int) =~= input@);
        lemma_escaped_is_one_pass(input@);
    }
    output
}

} // verus!
