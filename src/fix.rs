use vstd::prelude::*;

verus! {

/// The replacement for one character: the six letters that a Latin-1
/// reading of Turkish text produces are mapped back to the Turkish letters.
pub open spec fn fix_char(c: char) -> char {
    if c == '\u{fd}' {
        '\u{131}'
    } else if c == '\u{fe}' {
        '\u{15f}'
    } else if c == '\u{f0}' {
        '\u{11f}'
    } else if c == '\u{de}' {
        '\u{15e}'
    } else if c == '\u{dd}' {
        '\u{130}'
    } else if c == '\u{d0}' {
        '\u{11e}'
    } else {
        c
    }
}

/// Whether `c` is one of the six characters that the table replaces.
pub open spec fn is_mapped(c: char) -> bool {
    fix_char(c) != c
}

/// The whole text with every character replaced by `fix_char`.
pub open spec fn fix_text(s: Seq<char>) -> Seq<char> {
    Seq::new(s.len(), |i: int| fix_char(s[i]))
}

/// Relies on String::push: the character is appended at the end.
#[verifier::external_body]
pub(crate) fn push_char(s: &mut String, c: char)
    ensures
        final(s)@ == old(s)@.push(c),
{
    s.push(c)
}

/// Relies on String::with_capacity: the new string is empty.
#[verifier::external_body]
pub(crate) fn string_with_capacity(n: usize) -> (r: String)
    requires
        n <= isize::MAX,
    ensures
        r@ == Seq::<char>::empty(),
{
    String::with_capacity(n)
}

/// Executable counterpart of `fix_char`.
pub fn fix_one(c: char) -> (r: char)
    ensures
        r == fix_char(c),
{
    if c == '\u{fd}' {
        '\u{131}'
    } else if c == '\u{fe}' {
        '\u{15f}'
    } else if c == '\u{f0}' {
        '\u{11f}'
    } else if c == '\u{de}' {
        '\u{15e}'
    } else if c == '\u{dd}' {
        '\u{130}'
    } else if c == '\u{d0}' {
        '\u{11e}'
    } else {
        c
    }
}

/// Applies the substitution table to the whole text.
pub fn fix_string(input: &String) -> (r: String)
    ensures
        r@ == fix_text(input@),
{
    let mut out = String::new();
    for c in it: input.as_str().chars()
        invariant
            it.seq() == input@,
            out@ == fix_text(input@.take(it.index() as int)),
    {
        push_char(&mut out, fix_one(c));
        assert(fix_text(input@.take(it.index() as int + 1)) =~= fix_text(
            input@.take(it.index() as int),
        ).push(fix_char(c)));
    }
    assert(input@.take(input@.len() as int) =~= input@);
    out
}

/// Applying the table a second time changes nothing: no replacement is
/// itself one of the replaced characters.
pub proof fn lemma_fix_idempotent(s: Seq<char>)
    ensures
        fix_text(fix_text(s)) == fix_text(s),
{
    assert(fix_text(fix_text(s)) =~= fix_text(s));
}

/// A text without any of the six replaced characters is left as it is.
pub proof fn lemma_fix_unmapped(s: Seq<char>)
    requires
        forall|i: int| 0 <= i < s.len() ==> !is_mapped(#[trigger] s[i]),
    ensures
        fix_text(s) == s,
{
    assert(fix_text(s) =~= s);
}

} // verus!
