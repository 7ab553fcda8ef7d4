//! Tokens: the literal that stands for a string in the emitted code, and the
//! token stream of an emitted text. Both are the work of `proc_macro2`.

use vstd::prelude::*;

verus! {

#[verifier::external_type_specification]
#[verifier::external_body]
pub struct ExTokenStream(proc_macro2::TokenStream);

#[verifier::external_type_specification]
#[verifier::external_body]
pub struct ExLexError(proc_macro2::LexError);

/// The string literal that denotes `text`, quotes included.
pub uninterp spec fn string_literal(text: Seq<char>) -> Seq<char>;

/// What a token stream holds: the text that its `Display` writes.
pub uninterp spec fn stream_text(stream: proc_macro2::TokenStream) -> Seq<char>;

/// What the lexer makes of a text: the text of the token stream it gives,
/// or nothing where it rejects the text.
pub uninterp spec fn lexed(text: Seq<char>) -> Option<Seq<char>>;

/// The string literal that denotes `text`.
///
/// Trusted: the body calls `proc_macro2::Literal::string` and writes the
/// literal out with its `Display`. The literal is `text` between double
/// quotes with its characters escaped; the contract only names it. This
/// package takes `proc_macro2` without its `proc-macro` feature, so the
/// literal is made by that crate's own code in every process.
#[verifier::external_body]
pub(crate) fn string_literal_text(text: &str) -> (literal: String)
    ensures
        literal@ == string_literal(text@),
{
    proc_macro2::Literal::string(text).to_string()
}

/// Lexes `text` into a token stream.
///
/// Trusted: the body calls `str::parse`, that is the `FromStr` of
/// `proc_macro2::TokenStream`, which gives a stream or a `LexError` and
/// depends on `text` alone. The contract names what the stream holds.
#[verifier::external_body]
pub(crate) fn lex(text: &str) -> (made: Result<proc_macro2::TokenStream, proc_macro2::LexError>)
    ensures
        match made {
            Ok(stream) => lexed(text@) == Some(stream_text(stream)),
            Err(_) => lexed(text@) is None,
        },
{
    text.parse::<proc_macro2::TokenStream>()
}

/// The attribute that attaches the documentation whose string literal is
/// `literal`.
pub open spec fn doc_attribute(literal: Seq<char>) -> Seq<char> {
    "#[doc = "@ + literal + "]\n"@
}

/// Appends the attribute that attaches the documentation whose string
/// literal is `literal`.
pub fn push_doc_attribute(out: &mut String, literal: &str)
    ensures
        final(out)@ == old(out)@ + doc_attribute(literal@),
{
    out.append("#[doc = ");
    out.append(literal);
    out.append("]\n");
    assert(out@ =~= old(out)@ + doc_attribute(literal@));
}

/// The declaration of the address that a builder's requests go to, given the
/// string literal of the address.
pub open spec fn base_url_item(literal: Seq<char>) -> Seq<char> {
    "pub const BASE_URL: &'static str = "@ + literal + ";\n"@
}

/// Appends the declaration of the address whose string literal is `literal`.
pub fn push_base_url_item(out: &mut String, literal: &str)
    ensures
        final(out)@ == old(out)@ + base_url_item(literal@),
{
    out.append("pub const BASE_URL: &'static str = ");
    out.append(literal);
    out.append(";\n");
    assert(out@ =~= old(out)@ + base_url_item(literal@));
}

} // verus!
