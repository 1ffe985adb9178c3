//! The parameters of the rule set: marker texts, names and ownership tables.

use vstd::prelude::*;
use crate::marker::{attribute_from, MarkerError};
use crate::model::{Attribute, AttributeView};
use crate::syntax::outer_attributes;
use crate::text::views_of;

verus! {

/// What the classification and synthesis rules are run with.
#[derive(Clone, Debug, PartialEq, Eq)]
pub struct Rules {
    /// The stricter collector: a function with any attribute is passed over.
    pub strict: bool,
    /// The text that, found in an attribute of a function, opts it out.
    pub skip_marker: String,
    /// What is appended to a name to make the boundary symbol.
    pub suffix: String,
    /// The foreign calling convention.
    pub abi: String,
    /// The directive that keeps the symbol name unmangled.
    pub symbol: Attribute,
    /// The fixed-layout annotation.
    pub layout: Attribute,
    /// The name of the explicit parameter that stands for a receiver.
    pub receiver: String,
    /// The type names that own their content exclusively.
    pub unique_owners: Vec<String>,
    /// The type names that share their content by reference counting.
    pub shared_owners: Vec<String>,
    /// The text that, found in an attribute of a type that holds both kinds
    /// of owner, makes it a shared handle.
    pub shared_marker: String,
    /// How a type that holds both kinds of owner is classified without that
    /// marker: as a shared handle if set, as a uniquely owned one if not.
    pub mixed_is_shared: bool,
}

/// What [`Rules`] stands for in contracts.
pub struct RulesView {
    pub strict: bool,
    pub skip_marker: Seq<char>,
    pub suffix: Seq<char>,
    pub abi: Seq<char>,
    pub symbol: AttributeView,
    pub layout: AttributeView,
    pub receiver: Seq<char>,
    pub unique_owners: Seq<Seq<char>>,
    pub shared_owners: Seq<Seq<char>>,
    pub shared_marker: Seq<char>,
    pub mixed_is_shared: bool,
}

impl View for Rules {
    type V = RulesView;

    open spec fn view(&self) -> RulesView {
        RulesView {
            strict: self.strict,
            skip_marker: self.skip_marker@,
            suffix: self.suffix@,
            abi: self.abi@,
            symbol: self.symbol@,
            layout: self.layout@,
            receiver: self.receiver@,
            unique_owners: views_of(self.unique_owners@),
            shared_owners: views_of(self.shared_owners@),
            shared_marker: self.shared_marker@,
            mixed_is_shared: self.mixed_is_shared,
        }
    }
}


/// The conventional rules around a layout annotation and a symbol
/// directive: the lenient collector, the skip marker `extern_fn:skip`, the
/// suffix `_ffi`, the calling convention `C`, a receiver named `this`,
/// `Box`, `String` and `Vec` as exclusive owners, `Rc` and `Arc` as shared
/// ones, and a type that holds both kinds taken as uniquely owned unless it
/// carries `extern_fn:shared`.
pub open spec fn conventional(layout: AttributeView, symbol: AttributeView) -> RulesView {
    RulesView {
        strict: false,
        skip_marker: "extern_fn:skip"@,
        suffix: "_ffi"@,
        abi: "C"@,
        symbol,
        layout,
        receiver: "this"@,
        unique_owners: seq!["Box"@, "String"@, "Vec"@],
        shared_owners: seq!["Rc"@, "Arc"@],
        shared_marker: "extern_fn:shared"@,
        mixed_is_shared: false,
    }
}

/// The attribute with the given path and text.
pub open spec fn attribute_of(pair: (Seq<char>, Seq<char>)) -> AttributeView {
    AttributeView { name: pair.0, text: pair.1 }
}

/// The text of the conventional layout annotation.
pub open spec fn layout_text() -> Seq<char> {
    "#[repr(C)]"@
}

/// The text of the conventional symbol directive.
pub open spec fn symbol_text() -> Seq<char> {
    "#[no_mangle]"@
}

impl Rules {
    /// The conventional rules around the two given annotations.
    pub fn around(layout: Attribute, symbol: Attribute) -> (rules: Rules)
        ensures
            rules@ == conventional(layout@, symbol@),
    {
        let mut unique_owners: Vec<String> = Vec::new();
        unique_owners.push(String::from_str("Box"));
        unique_owners.push(String::from_str("String"));
        unique_owners.push(String::from_str("Vec"));
        let mut shared_owners: Vec<String> = Vec::new();
        shared_owners.push(String::from_str("Rc"));
        shared_owners.push(String::from_str("Arc"));
        assert(views_of(unique_owners@) =~= seq!["Box"@, "String"@, "Vec"@]);
        assert(views_of(shared_owners@) =~= seq!["Rc"@, "Arc"@]);
        Rules {
            strict: false,
            skip_marker: String::from_str("extern_fn:skip"),
            suffix: String::from_str("_ffi"),
            abi: String::from_str("C"),
            symbol,
            layout,
            receiver: String::from_str("this"),
            unique_owners,
            shared_owners,
            shared_marker: String::from_str("extern_fn:shared"),
            mixed_is_shared: false,
        }
    }

    /// The conventional rules, with `#[repr(C)]` as the layout annotation
    /// and `#[no_mangle]` as the symbol directive. It is an error if one of
    /// the two texts is not exactly one annotation; the layout annotation
    /// is read first.
    pub fn standard() -> (made: Result<Rules, MarkerError>)
        ensures
            match outer_attributes(layout_text()) {
                None => made is Err && made->Err_0 is Malformed,
                Some(a) => if a.len() != 1 {
                    made == Err::<Rules, MarkerError>(MarkerError::NotSingle(a.len() as usize))
                } else {
                    match outer_attributes(symbol_text()) {
                        None => made is Err && made->Err_0 is Malformed,
                        Some(b) => if b.len() != 1 {
                            made == Err::<Rules, MarkerError>(
                                MarkerError::NotSingle(b.len() as usize),
                            )
                        } else {
                            made is Ok && made->Ok_0@ == conventional(
                                attribute_of(a[0]),
                                attribute_of(b[0]),
                            )
                        },
                    }
                },
            },
    {
        let layout = match attribute_from("#[repr(C)]") {
            Ok(a) => a,
            Err(e) => {
                return Err(e);
            },
        };
        let symbol = match attribute_from("#[no_mangle]") {
            Ok(a) => a,
            Err(e) => {
                return Err(e);
            },
        };
        Ok(Rules::around(layout, symbol))
    }
}

} // verus!
