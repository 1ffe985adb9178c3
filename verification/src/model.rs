//! The declarations of a source unit, and the mathematical view of each.
//!
//! What the rules read is structured: attributes, visibility, qualifiers, the
//! receiver, parameters and return type of a function, the declarations in
//! its body, the type names that occur in the fields of an aggregate type.
//! Everything else (statements, generic parameter lists, other items) is
//! carried as token text and handed through unchanged.

use vstd::prelude::*;
use crate::text::{copy_texts, views_of};

verus! {

/// Who can name a declaration.
#[derive(Clone, Debug, PartialEq, Eq)]
pub enum Visibility {
    /// `pub`: visible outside the defining unit.
    Public,
    /// `pub(..)`, with its text.
    Restricted(String),
    /// No qualifier.
    Private,
}

/// What [`Visibility`] stands for in contracts.
pub enum VisibilityView {
    Public,
    Restricted(Seq<char>),
    Private,
}

impl View for Visibility {
    type V = VisibilityView;

    open spec fn view(&self) -> VisibilityView {
        match self {
            Visibility::Public => VisibilityView::Public,
            Visibility::Restricted(t) => VisibilityView::Restricted(t@),
            Visibility::Private => VisibilityView::Private,
        }
    }
}

/// An outer attribute: `name` is its path, `text` all that stands between
/// the square brackets, the path included.
#[derive(Clone, Debug, PartialEq, Eq)]
pub struct Attribute {
    pub name: String,
    pub text: String,
}

/// What [`Attribute`] stands for in contracts.
pub struct AttributeView {
    pub name: Seq<char>,
    pub text: Seq<char>,
}

impl View for Attribute {
    type V = AttributeView;

    open spec fn view(&self) -> AttributeView {
        AttributeView { name: self.name@, text: self.text@ }
    }
}

/// How a method takes its receiver.
#[derive(Clone, Copy, Debug, PartialEq, Eq)]
pub enum ReceiverKind {
    /// `&self`
    Shared,
    /// `&mut self`
    Exclusive,
    /// `self`
    Owned,
}

/// The implicit receiver of a method and the type that the method belongs to.
#[derive(Clone, Debug, PartialEq, Eq)]
pub struct Receiver {
    pub kind: ReceiverKind,
    /// The type that the method belongs to.
    pub enclosing: String,
    /// The receiver as written.
    pub text: String,
}

/// What [`Receiver`] stands for in contracts.
pub struct ReceiverView {
    pub kind: ReceiverKind,
    pub enclosing: Seq<char>,
    pub text: Seq<char>,
}

impl View for Receiver {
    type V = ReceiverView;

    open spec fn view(&self) -> ReceiverView {
        ReceiverView { kind: self.kind, enclosing: self.enclosing@, text: self.text@ }
    }
}

/// An explicit parameter: its pattern and its declared type.
#[derive(Clone, Debug, PartialEq, Eq)]
pub struct Param {
    pub name: String,
    pub ty: String,
}

/// What [`Param`] stands for in contracts.
pub struct ParamView {
    pub name: Seq<char>,
    pub ty: Seq<char>,
}

impl View for Param {
    type V = ParamView;

    open spec fn view(&self) -> ParamView {
        ParamView { name: self.name@, ty: self.ty@ }
    }
}

/// A function declaration.
#[derive(Debug, PartialEq, Eq)]
pub struct Function {
    pub attrs: Vec<Attribute>,
    pub vis: Visibility,
    pub is_const: bool,
    pub is_async: bool,
    pub is_unsafe: bool,
    /// The calling convention named after `extern`, if the function carries one.
    pub abi: Option<String>,
    pub name: String,
    /// The generic parameter list with its angle brackets, or nothing.
    pub generics: String,
    pub receiver: Option<Receiver>,
    pub params: Vec<Param>,
    pub ret: Option<String>,
    /// The `where` clause, or nothing.
    pub bounds: String,
    /// What stands between the braces: each statement as an item of text,
    /// each declaration as what it is.
    pub body: Vec<Item>,
}

/// What [`Function`] stands for in contracts.
pub struct FunctionView {
    pub attrs: Seq<AttributeView>,
    pub vis: VisibilityView,
    pub is_const: bool,
    pub is_async: bool,
    pub is_unsafe: bool,
    pub abi: Option<Seq<char>>,
    pub name: Seq<char>,
    pub generics: Seq<char>,
    pub receiver: Option<ReceiverView>,
    pub params: Seq<ParamView>,
    pub ret: Option<Seq<char>>,
    pub bounds: Seq<char>,
    pub body: Seq<ItemView>,
}

/// The view of a text that may be absent.
pub open spec fn text_of(t: Option<String>) -> Option<Seq<char>> {
    match t {
        Some(s) => Some(s@),
        None => None,
    }
}

/// The view of a receiver that may be absent.
pub open spec fn receiver_of(r: Option<Receiver>) -> Option<ReceiverView> {
    match r {
        Some(r) => Some(r@),
        None => None,
    }
}

impl View for Function {
    type V = FunctionView;

    open spec fn view(&self) -> FunctionView {
        function_view(*self)
    }
}

/// A product type (`struct`) or a sum type (`enum`); the item's variant says which.
#[derive(Clone, Debug, PartialEq, Eq)]
pub struct Aggregate {
    pub attrs: Vec<Attribute>,
    pub vis: Visibility,
    pub name: String,
    /// The generic parameter list with its angle brackets, or nothing.
    pub generics: String,
    /// The type names that occur in the types of the fields, in order.
    pub field_types: Vec<String>,
    /// All that follows the generic parameters: fields or variants, `where`
    /// clause, closing semicolon.
    pub body: String,
}

/// What [`Aggregate`] stands for in contracts.
pub struct AggregateView {
    pub attrs: Seq<AttributeView>,
    pub vis: VisibilityView,
    pub name: Seq<char>,
    pub generics: Seq<char>,
    pub field_types: Seq<Seq<char>>,
    pub body: Seq<char>,
}

impl View for Aggregate {
    type V = AggregateView;

    open spec fn view(&self) -> AggregateView {
        AggregateView {
            attrs: views_of(self.attrs@),
            vis: self.vis@,
            name: self.name@,
            generics: self.generics@,
            field_types: views_of(self.field_types@),
            body: self.body@,
        }
    }
}

/// A grouping of declarations: a module with a body, an implementation block.
#[derive(Debug, PartialEq, Eq)]
pub struct Scope {
    /// All that stands before the opening brace.
    pub header: String,
    pub items: Vec<Item>,
}

/// A declaration.
#[derive(Debug, PartialEq, Eq)]
pub enum Item {
    Function(Function),
    Product(Aggregate),
    Sum(Aggregate),
    Scope(Scope),
    /// Any other item, as text.
    Other(String),
}

/// What [`Item`] stands for in contracts.
pub enum ItemView {
    Function(FunctionView),
    Product(AggregateView),
    Sum(AggregateView),
    Scope { header: Seq<char>, items: Seq<ItemView> },
    Other(Seq<char>),
}

/// The view of a function: the views of its parts, and those of the
/// declarations in its body in order.
pub open spec fn function_view(f: Function) -> FunctionView
    decreases f,
{
    FunctionView {
        attrs: views_of(f.attrs@),
        vis: f.vis@,
        is_const: f.is_const,
        is_async: f.is_async,
        is_unsafe: f.is_unsafe,
        abi: text_of(f.abi),
        name: f.name@,
        generics: f.generics@,
        receiver: receiver_of(f.receiver),
        params: views_of(f.params@),
        ret: text_of(f.ret),
        bounds: f.bounds@,
        body: Seq::new(
            f.body@.len(),
            |i: int|
                if 0 <= i < f.body@.len() {
                    item_view(f.body@[i])
                } else {
                    ItemView::Other(Seq::empty())
                },
        ),
    }
}

/// The view of a declaration: the views of its parts, and for a scope those
/// of its items in order.
pub open spec fn item_view(item: Item) -> ItemView
    decreases item,
{
    match item {
        Item::Function(f) => ItemView::Function(function_view(f)),
        Item::Product(a) => ItemView::Product(a@),
        Item::Sum(a) => ItemView::Sum(a@),
        Item::Scope(s) => ItemView::Scope {
            header: s.header@,
            items: Seq::new(
                s.items@.len(),
                |i: int|
                    if 0 <= i < s.items@.len() {
                        item_view(s.items@[i])
                    } else {
                        ItemView::Other(Seq::empty())
                    },
            ),
        },
        Item::Other(t) => ItemView::Other(t@),
    }
}

impl View for Item {
    type V = ItemView;

    open spec fn view(&self) -> ItemView {
        item_view(*self)
    }
}

/// The view of a scope is made of the views of its items.
pub proof fn lemma_scope_view(s: Scope)
    ensures
        Item::Scope(s)@ == (ItemView::Scope { header: s.header@, items: views_of(s.items@) }),
{
    assert(Item::Scope(s)@->Scope_items =~= views_of(s.items@));
}

/// The body of the view of a function is made of the views of the
/// declarations in its body.
pub proof fn lemma_function_view(f: Function)
    ensures
        f@.body == views_of(f.body@),
        Item::Function(f)@ == ItemView::Function(f@),
{
    assert(f@.body =~= views_of(f.body@));
}

/// One parsed file: its name and its top-level declarations in order.
#[derive(Debug, PartialEq, Eq)]
pub struct SourceUnit {
    pub name: String,
    pub items: Vec<Item>,
}

/// What [`SourceUnit`] stands for in contracts.
pub struct SourceUnitView {
    pub name: Seq<char>,
    pub items: Seq<ItemView>,
}

impl View for SourceUnit {
    type V = SourceUnitView;

    open spec fn view(&self) -> SourceUnitView {
        SourceUnitView { name: self.name@, items: views_of(self.items@) }
    }
}

impl Visibility {
    /// A copy of this visibility.
    pub fn duplicate(&self) -> (out: Visibility)
        ensures
            out@ == self@,
    {
        match self {
            Visibility::Public => Visibility::Public,
            Visibility::Restricted(t) => Visibility::Restricted(t.clone()),
            Visibility::Private => Visibility::Private,
        }
    }

    /// Whether the declaration is visible outside its defining unit.
    pub fn is_public(&self) -> (public: bool)
        ensures
            public == (self@ is Public),
    {
        match self {
            Visibility::Public => true,
            _ => false,
        }
    }
}

impl Attribute {
    /// A copy of this attribute.
    pub fn duplicate(&self) -> (out: Attribute)
        ensures
            out@ == self@,
    {
        Attribute { name: self.name.clone(), text: self.text.clone() }
    }
}

/// A copy of a list of attributes.
pub fn copy_attributes(attrs: &Vec<Attribute>) -> (out: Vec<Attribute>)
    ensures
        views_of(out@) == views_of(attrs@),
{
    let mut out: Vec<Attribute> = Vec::new();
    let mut i: usize = 0;
    while i < attrs.len()
        invariant
            i <= attrs@.len(),
            out@.len() == i,
            forall|j: int| 0 <= j < i ==> out@[j]@ == attrs@[j]@,
        decreases attrs@.len() - i,
    {
        out.push(attrs[i].duplicate());
        i += 1;
    }
    assert(views_of(out@) =~= views_of(attrs@));
    out
}

/// A copy of a list of parameters.
pub fn copy_params(params: &Vec<Param>) -> (out: Vec<Param>)
    ensures
        views_of(out@) == views_of(params@),
{
    let mut out: Vec<Param> = Vec::new();
    let mut i: usize = 0;
    while i < params.len()
        invariant
            i <= params@.len(),
            out@.len() == i,
            forall|j: int| 0 <= j < i ==> out@[j]@ == params@[j]@,
        decreases params@.len() - i,
    {
        out.push(Param { name: params[i].name.clone(), ty: params[i].ty.clone() });
        i += 1;
    }
    assert(views_of(out@) =~= views_of(params@));
    out
}

/// A copy of a text that may be absent.
pub fn copy_optional(t: &Option<String>) -> (out: Option<String>)
    ensures
        text_of(out) == text_of(*t),
{
    match t {
        Some(s) => Some(s.clone()),
        None => None,
    }
}

impl Function {
    /// A copy of this declaration: every part of it, the body included.
    pub fn duplicate(&self) -> (out: Function)
        ensures
            out@ == self@,
        decreases self,
    {
        let receiver = match &self.receiver {
            Some(r) => Some(
                Receiver { kind: r.kind, enclosing: r.enclosing.clone(), text: r.text.clone() },
            ),
            None => None,
        };
        let out = Function {
            attrs: copy_attributes(&self.attrs),
            vis: self.vis.duplicate(),
            is_const: self.is_const,
            is_async: self.is_async,
            is_unsafe: self.is_unsafe,
            abi: copy_optional(&self.abi),
            name: self.name.clone(),
            generics: self.generics.clone(),
            receiver,
            params: copy_params(&self.params),
            ret: copy_optional(&self.ret),
            bounds: self.bounds.clone(),
            body: copy_items(&self.body),
        };
        proof {
            lemma_function_view(out);
            lemma_function_view(*self);
        }
        out
    }
}

impl Aggregate {
    /// A copy of this declaration.
    pub fn duplicate(&self) -> (out: Aggregate)
        ensures
            out@ == self@,
    {
        Aggregate {
            attrs: copy_attributes(&self.attrs),
            vis: self.vis.duplicate(),
            name: self.name.clone(),
            generics: self.generics.clone(),
            field_types: copy_texts(&self.field_types),
            body: self.body.clone(),
        }
    }
}

impl Item {
    /// A copy of this declaration, with all that it holds.
    pub fn duplicate(&self) -> (out: Item)
        ensures
            out@ == self@,
        decreases self,
    {
        match self {
            Item::Function(f) => {
                let g = f.duplicate();
                proof {
                    lemma_function_view(g);
                    lemma_function_view(*f);
                }
                Item::Function(g)
            },
            Item::Product(a) => Item::Product(a.duplicate()),
            Item::Sum(a) => Item::Sum(a.duplicate()),
            Item::Scope(s) => {
                let t = Scope { header: s.header.clone(), items: copy_items(&s.items) };
                proof {
                    lemma_scope_view(t);
                    lemma_scope_view(*s);
                }
                Item::Scope(t)
            },
            Item::Other(t) => Item::Other(t.clone()),
        }
    }
}

/// A copy of a list of declarations.
pub fn copy_items(items: &Vec<Item>) -> (out: Vec<Item>)
    ensures
        views_of(out@) == views_of(items@),
    decreases items,
{
    let mut out: Vec<Item> = Vec::new();
    let mut i: usize = 0;
    while i < items.len()
        invariant
            i <= items@.len(),
            out@.len() == i,
            forall|j: int| 0 <= j < i ==> out@[j]@ == items@[j]@,
        decreases items@.len() - i,
    {
        out.push(items[i].duplicate());
        i += 1;
    }
    assert(views_of(out@) =~= views_of(items@));
    out
}

impl SourceUnit {
    /// A copy of this unit.
    pub fn duplicate(&self) -> (out: SourceUnit)
        ensures
            out@ == self@,
    {
        SourceUnit { name: self.name.clone(), items: copy_items(&self.items) }
    }
}

impl Clone for Function {
    fn clone(&self) -> (out: Function)
        ensures
            out@ == self@,
    {
        self.duplicate()
    }
}

impl Clone for Item {
    fn clone(&self) -> (out: Item)
        ensures
            out@ == self@,
    {
        self.duplicate()
    }
}

impl Clone for SourceUnit {
    fn clone(&self) -> (out: SourceUnit)
        ensures
            out@ == self@,
    {
        self.duplicate()
    }
}

} // verus!
