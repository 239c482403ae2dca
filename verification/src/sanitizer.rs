//! Turning arbitrary text into a path segment that is safe on any filesystem.
use crate::text::push_char;
use vstd::prelude::*;

verus! {

/// A character that may stand in a path segment as it is: an ASCII letter,
/// an ASCII digit or the underscore.
pub open spec fn is_word_char(c: char) -> bool {
    ('a' <= c && c <= 'z') || ('A' <= c && c <= 'Z') || ('0' <= c && c <= '9') || c == '_'
}

/// What a single character becomes: itself if it is a word character, a
/// space otherwise.
pub open spec fn sanitized_char(c: char) -> char {
    if is_word_char(c) {
        c
    } else {
        ' '
    }
}

/// The sanitized form of a text: every character replaced on its own, at its
/// own position.
pub open spec fn sanitized(text: Seq<char>) -> Seq<char> {
    Seq::new(text.len(), |i: int| sanitized_char(text[i]))
}

/// A character that a sanitized text may hold.
pub open spec fn is_safe_char(c: char) -> bool {
    is_word_char(c) || c == ' '
}

/// A text made of safe characters only.
pub open spec fn is_safe(text: Seq<char>) -> bool {
    forall|i: int| 0 <= i < text.len() ==> is_safe_char(#[trigger] text[i])
}

fn sanitize_char(c: char) -> (r: char)
    ensures
        r == sanitized_char(c),
{
    if (c >= 'a' && c <= 'z') || (c >= 'A' && c <= 'Z') || (c >= '0' && c <= '9') || c == '_' {
        c
    } else {
        ' '
    }
}

/// Replaces every character of `text` that is not an ASCII letter, an ASCII
/// digit or an underscore by one space. Nothing is collapsed or dropped: the
/// result has as many characters as `text`.
pub fn sanitize(text: &str) -> (r: String)
    ensures
        r@ == sanitized(text@),
        is_safe(r@),
{
    let mut out = String::new();
    for c in it: text.chars()
        invariant
            it.seq() == text@,
            out@ == sanitized(text@.take(it.index() as int)),
    {
        let safe = sanitize_char(c);
        push_char(&mut out, safe);
        assert(out@ =~= sanitized(text@.take(it.index() + 1)));
    }
    assert(text@.take(text@.len() as int) =~= text@);
    out
}

/// The name of a directory: a text that holds letters, digits, underscores
/// and spaces only.
#[derive(Debug, PartialEq, Eq)]
pub struct Directory(String);

impl Clone for Directory {
    fn clone(&self) -> (r: Self)
        ensures
            r@ == self@,
    {
        proof {
            use_type_invariant(self);
        }
        Directory(self.0.clone())
    }
}

impl View for Directory {
    type V = Seq<char>;

    closed spec fn view(&self) -> Seq<char> {
        self.0@
    }
}

impl Directory {
    #[verifier::type_invariant]
    spec fn holds_safe_text(self) -> bool {
        is_safe(self.0@)
    }

    /// Makes a directory name of any text, by sanitizing it.
    pub fn parse(s: String) -> (d: Directory)
        ensures
            d@ == sanitized(s@),
    {
        Directory(sanitize(s.as_str()))
    }

    /// The name.
    pub fn get(&self) -> (r: &String)
        ensures
            r@ == self@,
            is_safe(r@),
    {
        proof {
            use_type_invariant(self);
        }
        &self.0
    }
}

/// Sanitizing leaves only letters, digits, underscores and spaces.
pub proof fn lemma_sanitized_is_safe(text: Seq<char>)
    ensures
        is_safe(sanitized(text)),
        sanitized(text).len() == text.len(),
{
}

/// A text that is safe already is left as it is.
pub proof fn lemma_sanitized_fixes_safe(text: Seq<char>)
    requires
        is_safe(text),
    ensures
        sanitized(text) == text,
{
    assert(sanitized(text) =~= text);
}

/// Sanitizing twice gives what sanitizing once gives.
pub proof fn lemma_sanitized_idempotent(text: Seq<char>)
    ensures
        sanitized(sanitized(text)) == sanitized(text),
{
    lemma_sanitized_fixes_safe(sanitized(text));
}

} // verus!
