//! What the parser says of a text: whether it is a source file, and which
//! outer attributes it holds. The parser's answers are taken on trust.

use quote::ToTokens;
use vstd::prelude::*;
use crate::model::{Attribute, AttributeView};
use crate::text::views_of;

verus! {

/// `syn::File`, the parser's tree of a source file. Nothing of its inside
/// is known here: it is only handed through.
#[verifier::external_type_specification]
#[verifier::external_body]
pub struct ExFile(syn::File);

/// `syn::Error`, what the parser gives for a text that it does not take.
#[verifier::external_type_specification]
#[verifier::external_body]
pub struct ExError(syn::Error);

/// Whether the parser takes `text` as a whole source file.
pub uninterp spec fn well_formed(text: Seq<char>) -> bool;

/// The outer attributes that the parser finds in `text`, each as its path
/// and the text between its brackets, if `text` is outer attributes and
/// nothing else.
pub uninterp spec fn outer_attributes(text: Seq<char>) -> Option<Seq<(Seq<char>, Seq<char>)>>;

/// Attributes as pairs of path and text.
pub open spec fn pairs(attrs: Seq<AttributeView>) -> Seq<(Seq<char>, Seq<char>)> {
    Seq::new(attrs.len(), |i: int| (attrs[i].name, attrs[i].text))
}

/// `syn::parse_file`. Trusted: it gives a file exactly for the texts that
/// `well_formed` names, and the same answer for the same text.
#[verifier::external_body]
fn parse_file(text: &str) -> (parsed: Result<syn::File, syn::Error>)
    ensures
        parsed is Ok == well_formed(text@),
{
    syn::parse_file(text)
}

/// `syn::Attribute::parse_outer`, run over a string by
/// `syn::parse::Parser::parse_str`. Trusted: it gives the attributes that
/// `outer_attributes` names, in order, each with its path and its content
/// as token text.
#[verifier::external_body]
fn parse_outer(text: &str) -> (parsed: Result<Vec<Attribute>, syn::Error>)
    ensures
        parsed is Ok == outer_attributes(text@) is Some,
        parsed matches Ok(attrs) ==> outer_attributes(text@) == Some(pairs(views_of(attrs@))),
{
    let attrs = syn::parse::Parser::parse_str(syn::Attribute::parse_outer, text)?;
    Ok(
        attrs.iter().map(
            |a| Attribute {
                name: a.path().to_token_stream().to_string(),
                text: a.meta.to_token_stream().to_string(),
            },
        ).collect(),
    )
}

/// The message of a `syn::Error`, by its `Display`. Nothing is claimed of it.
#[verifier::external_body]
fn message_of(error: &syn::Error) -> (message: String) {
    error.to_string()
}

/// The tree that the parser makes of `text`, if `text` is a whole source
/// file; if not, what the parser said.
pub fn parse_source(text: &str) -> (parsed: Result<syn::File, String>)
    ensures
        parsed is Ok == well_formed(text@),
{
    match parse_file(text) {
        Ok(file) => Ok(file),
        Err(e) => Err(message_of(&e)),
    }
}

/// Whether `text` is a whole source file; if not, what the parser said.
pub fn check_text(text: &str) -> (checked: Result<(), String>)
    ensures
        checked is Ok == well_formed(text@),
{
    match parse_source(text) {
        Ok(_) => Ok(()),
        Err(reason) => Err(reason),
    }
}

/// The outer attributes in `text`; if `text` is not outer attributes and
/// nothing else, what the parser said.
pub fn read_attributes(text: &str) -> (read: Result<Vec<Attribute>, String>)
    ensures
        read is Ok == outer_attributes(text@) is Some,
        read matches Ok(attrs) ==> outer_attributes(text@) == Some(pairs(views_of(attrs@))),
{
    match parse_outer(text) {
        Ok(attrs) => Ok(attrs),
        Err(e) => Err(message_of(&e)),
    }
}

} // verus!
