//! Cleaning of free text before it is written to an output column.

use vstd::prelude::*;

verus! {

/// Whether `c` is removed from free text: a line feed or a backslash.
pub open spec fn is_stripped(c: char) -> bool {
    c == '\n' || c == '\\'
}

/// `s` without its line feeds and backslashes; every other character stays,
/// in order.
pub open spec fn sanitized(s: Seq<char>) -> Seq<char> {
    s.filter(|c: char| !is_stripped(c))
}

/// The characters of an optional string.
pub open spec fn optional_view(text: Option<String>) -> Option<Seq<char>> {
    match text {
        Some(s) => Some(s@),
        None => None,
    }
}

/// `String::push` appends one character to the end of the string.
pub assume_specification[ String::push ](s: &mut String, c: char)
    ensures
        final(s)@ == old(s)@.push(c),
;

/// `eq` of `PartialEq` for `str`: two string slices are equal exactly when
/// they hold the same characters.
pub assume_specification[ <str as PartialEq>::eq ](a: &str, b: &str) -> (same: bool)
    ensures
        same == (a@ == b@),
;

/// Sanitizing a text extended by one character either keeps or drops that
/// character and leaves the rest as it was.
pub proof fn lemma_sanitized_push(s: Seq<char>, c: char)
    ensures
        sanitized(s.push(c)) == if is_stripped(c) {
            sanitized(s)
        } else {
            sanitized(s).push(c)
        },
{
    reveal(Seq::filter);
    assert(s.push(c).drop_last() =~= s);
}

/// A sanitized text holds neither a line feed nor a backslash.
pub proof fn lemma_sanitized_is_clean(s: Seq<char>)
    ensures
        forall|i: int| 0 <= i < sanitized(s).len() ==> !is_stripped(#[trigger] sanitized(s)[i]),
    decreases s.len(),
{
    if s.len() > 0 {
        lemma_sanitized_is_clean(s.drop_last());
        lemma_sanitized_push(s.drop_last(), s.last());
    }
}

/// A text that holds neither a line feed nor a backslash is sanitized to
/// itself.
pub proof fn lemma_sanitized_keeps_clean_text(s: Seq<char>)
    requires
        forall|i: int| 0 <= i < s.len() ==> !is_stripped(#[trigger] s[i]),
    ensures
        sanitized(s) == s,
    decreases s.len(),
{
    if s.len() > 0 {
        lemma_sanitized_keeps_clean_text(s.drop_last());
        lemma_sanitized_push(s.drop_last(), s.last());
        assert(s.drop_last().push(s.last()) =~= s);
    }
}

/// Sanitizing is idempotent: a second pass changes nothing.
pub proof fn lemma_sanitized_idempotent(s: Seq<char>)
    ensures
        sanitized(sanitized(s)) == sanitized(s),
{
    lemma_sanitized_is_clean(s);
    lemma_sanitized_keeps_clean_text(sanitized(s));
}

/// Returns a copy of `arg` with every line feed and every backslash deleted.
pub fn clean_string(arg: &str) -> (cleaned: String)
    ensures
        cleaned@ == sanitized(arg@),
        forall|i: int| 0 <= i < cleaned@.len() ==> !is_stripped(#[trigger] cleaned@[i]),
{
    proof {
        lemma_sanitized_is_clean(arg@);
    }
    let mut cleaned = String::new();
    for c in it: arg.chars()
        invariant
            it.seq() == arg@,
            cleaned@ == sanitized(arg@.take(it.index())),
    {
        proof {
            lemma_sanitized_push(arg@.take(it.index()), c);
            assert(arg@.take(it.index()).push(c) =~= arg@.take(it.index() + 1));
        }
        if c != '\n' && c != '\\' {
            cleaned.push(c);
        }
    }
    assert(arg@.take(arg@.len() as int) =~= arg@);
    cleaned
}

} // verus!
