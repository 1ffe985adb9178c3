//! Annotations from literal text.

use vstd::prelude::*;
use crate::model::Attribute;
use crate::syntax::{outer_attributes, pairs, read_attributes};
use crate::text::views_of;

verus! {

/// Why a text is not one annotation.
#[derive(Clone, Debug, PartialEq, Eq)]
pub enum MarkerError {
    /// The text is not a sequence of outer attributes: what the parser said.
    Malformed(String),
    /// The text holds this many attributes, not one.
    NotSingle(usize),
}

/// The one attribute of a list, if the list holds exactly one.
pub fn single(attrs: Vec<Attribute>) -> (one: Result<Attribute, MarkerError>)
    ensures
        attrs@.len() == 1 ==> one is Ok && one->Ok_0@ == attrs@[0]@,
        attrs@.len() != 1 ==> one == Err::<Attribute, MarkerError>(
            MarkerError::NotSingle(attrs@.len() as usize),
        ),
{
    let mut attrs = attrs;
    let count = attrs.len();
    if count == 1 {
        match attrs.pop() {
            Some(a) => Ok(a),
            None => Err(MarkerError::NotSingle(count)),
        }
    } else {
        Err(MarkerError::NotSingle(count))
    }
}

/// The annotation that `text` holds. It is an error if `text` is not
/// outer attributes and nothing else, or holds none, or more than one.
pub fn attribute_from(text: &str) -> (one: Result<Attribute, MarkerError>)
    ensures
        match outer_attributes(text@) {
            None => one is Err && one->Err_0 is Malformed,
            Some(found) => if found.len() == 1 {
                one is Ok && (one->Ok_0@.name, one->Ok_0@.text) == found[0]
            } else {
                one == Err::<Attribute, MarkerError>(MarkerError::NotSingle(found.len() as usize))
            },
        },
{
    match read_attributes(text) {
        Ok(attrs) => {
            assert(pairs(views_of(attrs@)).len() == attrs@.len());
            assert(attrs@.len() == 1 ==> pairs(views_of(attrs@))[0] == (
                attrs@[0]@.name,
                attrs@[0]@.text,
            ));
            single(attrs)
        },
        Err(message) => Err(MarkerError::Malformed(message)),
    }
}

} // verus!
