//! What the library takes on trust: the calls into the Rust parser, of
//! whose answers nothing is claimed, and two functions of the standard
//! library's strings.

use vstd::prelude::*;

verus! {

/// The lowercase form of a text, as the standard library computes it.
pub uninterp spec fn lowercased(text: Seq<char>) -> Seq<char>;

/// Calls `syn::parse_str::<syn::Ident>`: whether the parser takes the whole
/// text as a single identifier that is no keyword. Nothing is claimed of the
/// answer: which lexer reads the text depends on the process.
#[verifier::external_body]
pub(crate) fn parses_as_ident(text: &str) -> (ok: bool) {
    syn::parse_str::<syn::Ident>(text).is_ok()
}

/// Calls `syn::parse_str::<syn::Type>`: whether the parser takes the whole
/// text as a type. Nothing is claimed of the answer: which lexer reads the
/// text depends on the process. The parser's own `unwrap` and `unreachable!`
/// stand behind its own guards; no text is known that reaches one.
#[verifier::external_body]
pub(crate) fn parses_as_type(text: &str) -> (ok: bool) {
    syn::parse_str::<syn::Type>(text).is_ok()
}

/// Calls `str::to_lowercase`. Trusted: the result depends on the text alone.
#[verifier::external_body]
pub(crate) fn lowercase(text: &str) -> (r: String)
    ensures
        r@ == lowercased(text@),
{
    text.to_lowercase()
}

/// `String::push` appends the character to the string.
pub assume_specification[ String::push ](s: &mut String, ch: char)
    ensures
        final(s)@ == old(s)@.push(ch),
;

} // verus!
