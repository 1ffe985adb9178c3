//! Declarations as source text.

use vstd::prelude::*;
use crate::bridge::{Declaration, DeclarationView};
use crate::model::{
    lemma_function_view, lemma_scope_view, Aggregate, AggregateView, Attribute, AttributeView,
    Function, FunctionView, Item, ItemView, Param, ParamView, SourceUnit, SourceUnitView,
    Visibility, VisibilityView,
};
use crate::text::views_of;

verus! {

/// `word` if `on`, nothing if not.
pub open spec fn when(on: bool, word: Seq<char>) -> Seq<char> {
    if on {
        word
    } else {
        Seq::empty()
    }
}

/// The attributes, each in square brackets on a line of its own.
pub open spec fn attributes_text(attrs: Seq<AttributeView>) -> Seq<char>
    decreases attrs.len(),
{
    if attrs.len() == 0 {
        Seq::empty()
    } else {
        attributes_text(attrs.drop_last()) + "#["@ + attrs.last().text + "]\n"@
    }
}

/// The visibility qualifier, followed by a space if there is one.
pub open spec fn visibility_text(vis: VisibilityView) -> Seq<char> {
    match vis {
        VisibilityView::Public => "pub "@,
        VisibilityView::Restricted(t) => t + " "@,
        VisibilityView::Private => Seq::empty(),
    }
}

/// The explicit parameters, each followed by a comma.
pub open spec fn params_text(params: Seq<ParamView>) -> Seq<char>
    decreases params.len(),
{
    if params.len() == 0 {
        Seq::empty()
    } else {
        params_text(params.drop_last()) + params.last().name + ": "@ + params.last().ty + ", "@
    }
}

/// The part of a function from its visibility to the opening parenthesis.
pub open spec fn signature_head(f: FunctionView) -> Seq<char> {
    visibility_text(f.vis) + when(f.is_const, "const "@) + when(f.is_async, "async "@) + when(
        f.is_unsafe,
        "unsafe "@,
    ) + (match f.abi {
        Some(abi) => "extern \""@ + abi + "\" "@,
        None => Seq::empty(),
    }) + "fn "@ + f.name + f.generics + "("@
}

/// The part of a function from its receiver to the opening brace.
pub open spec fn signature_tail(f: FunctionView) -> Seq<char> {
    (match f.receiver {
        Some(r) => r.text + ", "@,
        None => Seq::empty(),
    }) + params_text(f.params) + ")"@ + (match f.ret {
        Some(ret) => " -> "@ + ret,
        None => Seq::empty(),
    }) + when(f.bounds.len() > 0, " "@ + f.bounds) + " {\n"@
}

/// A function as source text: its attributes, its signature and, in
/// braces, what its body holds.
pub open spec fn function_text(f: FunctionView) -> Seq<char>
    decreases f,
{
    attributes_text(f.attrs) + signature_head(f) + signature_tail(f) + items_text(f.body)
        + "}\n"@
}

/// An aggregate type as source text, after its keyword.
pub open spec fn aggregate_text(keyword: Seq<char>, a: AggregateView) -> Seq<char> {
    attributes_text(a.attrs) + visibility_text(a.vis) + keyword + a.name + a.generics + " "@
        + a.body + "\n"@
}

/// Declarations as source text, one after the other.
pub open spec fn items_text(items: Seq<ItemView>) -> Seq<char>
    decreases items,
{
    if items.len() == 0 {
        Seq::empty()
    } else {
        items_text(items.drop_last()) + item_text(items.last())
    }
}

/// A declaration as source text. A scope is its header and, in braces, its
/// declarations.
pub open spec fn item_text(item: ItemView) -> Seq<char>
    decreases item,
{
    match item {
        ItemView::Function(f) => function_text(f),
        ItemView::Product(a) => aggregate_text("struct "@, a),
        ItemView::Sum(a) => aggregate_text("enum "@, a),
        ItemView::Scope { header, items } => header + " {\n"@ + items_text(items) + "}\n"@,
        ItemView::Other(t) => t + "\n"@,
    }
}

/// Synthesized declarations as source text, one after the other.
pub open spec fn declarations_text(decls: Seq<DeclarationView>) -> Seq<char>
    decreases decls.len(),
{
    if decls.len() == 0 {
        Seq::empty()
    } else {
        declarations_text(decls.drop_last()) + function_text(decls.last().decl)
    }
}

/// A unit as source text with synthesized declarations appended.
pub open spec fn unit_text(unit: SourceUnitView, decls: Seq<DeclarationView>) -> Seq<char> {
    items_text(unit.items) + declarations_text(decls)
}

/// Appends the attributes.
fn write_attributes(attrs: &Vec<Attribute>, out: &mut String)
    ensures
        final(out)@ == old(out)@ + attributes_text(views_of(attrs@)),
{
    let ghost all = views_of(attrs@);
    let mut i: usize = 0;
    assert(all.take(0) =~= Seq::empty());
    assert(out@ =~= old(out)@ + attributes_text(all.take(0)));
    while i < attrs.len()
        invariant
            i <= attrs@.len(),
            all == views_of(attrs@),
            out@ == old(out)@ + attributes_text(all.take(i as int)),
        decreases attrs@.len() - i,
    {
        let ghost before = out@;
        out.append("#[");
        out.append(attrs[i].text.as_str());
        out.append("]\n");
        proof {
            assert(all.take(i + 1).drop_last() =~= all.take(i as int));
            assert(all.take(i + 1).last() == all[i as int]);
            assert(out@ =~= old(out)@ + attributes_text(all.take(i + 1)));
        }
        i += 1;
    }
    assert(all.take(attrs@.len() as int) =~= all);
}

/// Appends the visibility qualifier.
fn write_visibility(vis: &Visibility, out: &mut String)
    ensures
        final(out)@ == old(out)@ + visibility_text(vis@),
{
    match vis {
        Visibility::Public => {
            out.append("pub ");
        },
        Visibility::Restricted(t) => {
            out.append(t.as_str());
            out.append(" ");
            assert(out@ =~= old(out)@ + visibility_text(vis@));
        },
        Visibility::Private => {
            assert(out@ =~= old(out)@ + visibility_text(vis@));
        },
    }
}

/// Appends the explicit parameters.
fn write_params(params: &Vec<Param>, out: &mut String)
    ensures
        final(out)@ == old(out)@ + params_text(views_of(params@)),
{
    let ghost all = views_of(params@);
    let mut i: usize = 0;
    assert(all.take(0) =~= Seq::empty());
    assert(out@ =~= old(out)@ + params_text(all.take(0)));
    while i < params.len()
        invariant
            i <= params@.len(),
            all == views_of(params@),
            out@ == old(out)@ + params_text(all.take(i as int)),
        decreases params@.len() - i,
    {
        out.append(params[i].name.as_str());
        out.append(": ");
        out.append(params[i].ty.as_str());
        out.append(", ");
        proof {
            assert(all.take(i + 1).drop_last() =~= all.take(i as int));
            assert(all.take(i + 1).last() == all[i as int]);
            assert(out@ =~= old(out)@ + params_text(all.take(i + 1)));
        }
        i += 1;
    }
    assert(all.take(params@.len() as int) =~= all);
}

/// Appends `word` if `on`.
fn write_when(on: bool, word: &str, out: &mut String)
    ensures
        final(out)@ == old(out)@ + when(on, word@),
{
    if on {
        out.append(word);
    } else {
        assert(out@ =~= old(out)@ + when(on, word@));
    }
}

/// Appends a function from its visibility to the opening parenthesis.
fn write_head(f: &Function, out: &mut String)
    ensures
        final(out)@ == old(out)@ + signature_head(f@),
{
    write_visibility(&f.vis, out);
    write_when(f.is_const, "const ", out);
    write_when(f.is_async, "async ", out);
    write_when(f.is_unsafe, "unsafe ", out);
    match &f.abi {
        Some(abi) => {
            out.append("extern \"");
            out.append(abi.as_str());
            out.append("\" ");
        },
        None => {},
    }
    out.append("fn ");
    out.append(f.name.as_str());
    out.append(f.generics.as_str());
    out.append("(");
    assert(out@ =~= old(out)@ + signature_head(f@));
}

/// Appends a function from its receiver to the opening brace.
fn write_tail(f: &Function, out: &mut String)
    ensures
        final(out)@ == old(out)@ + signature_tail(f@),
{
    match &f.receiver {
        Some(r) => {
            out.append(r.text.as_str());
            out.append(", ");
        },
        None => {},
    }
    write_params(&f.params, out);
    out.append(")");
    match &f.ret {
        Some(ret) => {
            out.append(" -> ");
            out.append(ret.as_str());
        },
        None => {},
    }
    if !f.bounds.as_str().is_empty() {
        out.append(" ");
        out.append(f.bounds.as_str());
    }
    out.append(" {\n");
    assert(out@ =~= old(out)@ + signature_tail(f@));
}

/// Appends a function as source text.
pub fn write_function(f: &Function, out: &mut String)
    ensures
        final(out)@ == old(out)@ + function_text(f@),
    decreases f,
{
    write_attributes(&f.attrs, out);
    write_head(f, out);
    write_tail(f, out);
    write_items(&f.body, out);
    out.append("}\n");
    proof {
        lemma_function_view(*f);
        assert(out@ =~= old(out)@ + function_text(f@));
    }
}

/// Appends an aggregate type, after its keyword.
fn write_aggregate(keyword: &str, a: &Aggregate, out: &mut String)
    ensures
        final(out)@ == old(out)@ + aggregate_text(keyword@, a@),
{
    write_attributes(&a.attrs, out);
    write_visibility(&a.vis, out);
    out.append(keyword);
    out.append(a.name.as_str());
    out.append(a.generics.as_str());
    out.append(" ");
    out.append(a.body.as_str());
    out.append("\n");
    assert(out@ =~= old(out)@ + aggregate_text(keyword@, a@));
}

/// Appends declarations as source text.
pub fn write_items(items: &Vec<Item>, out: &mut String)
    ensures
        final(out)@ == old(out)@ + items_text(views_of(items@)),
    decreases items,
{
    let ghost all = views_of(items@);
    let mut i: usize = 0;
    assert(all.take(0) =~= Seq::empty());
    assert(out@ =~= old(out)@ + items_text(all.take(0)));
    while i < items.len()
        invariant
            i <= items@.len(),
            all == views_of(items@),
            out@ == old(out)@ + items_text(all.take(i as int)),
        decreases items@.len() - i,
    {
        let ghost before = out@;
        match &items[i] {
            Item::Function(f) => {
                write_function(f, out);
                proof {
                    lemma_function_view(*f);
                }
            },
            Item::Product(a) => {
                write_aggregate("struct ", a, out);
            },
            Item::Sum(a) => {
                write_aggregate("enum ", a, out);
            },
            Item::Scope(s) => {
                proof {
                    lemma_scope_view(*s);
                }
                out.append(s.header.as_str());
                out.append(" {\n");
                write_items(&s.items, out);
                out.append("}\n");
                assert(out@ =~= before + item_text(all[i as int]));
            },
            Item::Other(t) => {
                out.append(t.as_str());
                out.append("\n");
                assert(out@ =~= before + item_text(all[i as int]));
            },
        }
        proof {
            assert(out@ == before + item_text(all[i as int]));
            assert(all.take(i + 1).drop_last() =~= all.take(i as int));
            assert(all.take(i + 1).last() == all[i as int]);
            assert(out@ =~= old(out)@ + items_text(all.take(i + 1)));
        }
        i += 1;
    }
    assert(all.take(items@.len() as int) =~= all);
}

/// Appends synthesized declarations as source text.
pub fn write_declarations(decls: &Vec<Declaration>, out: &mut String)
    ensures
        final(out)@ == old(out)@ + declarations_text(views_of(decls@)),
{
    let ghost all = views_of(decls@);
    let mut i: usize = 0;
    assert(all.take(0) =~= Seq::empty());
    assert(out@ =~= old(out)@ + declarations_text(all.take(0)));
    while i < decls.len()
        invariant
            i <= decls@.len(),
            all == views_of(decls@),
            out@ == old(out)@ + declarations_text(all.take(i as int)),
        decreases decls@.len() - i,
    {
        write_function(&decls[i].decl, out);
        proof {
            assert(all.take(i + 1).drop_last() =~= all.take(i as int));
            assert(all.take(i + 1).last() == all[i as int]);
            assert(out@ =~= old(out)@ + declarations_text(all.take(i + 1)));
        }
        i += 1;
    }
    assert(all.take(decls@.len() as int) =~= all);
}

/// A function as source text.
pub fn render_function(f: &Function) -> (text: String)
    ensures
        text@ == function_text(f@),
{
    let mut text = String::new();
    write_function(f, &mut text);
    assert(text@ =~= function_text(f@));
    text
}

/// A unit as source text, with synthesized declarations appended.
pub fn render_unit(unit: &SourceUnit, decls: &Vec<Declaration>) -> (text: String)
    ensures
        text@ == unit_text(unit@, views_of(decls@)),
{
    let mut text = String::new();
    write_items(&unit.items, &mut text);
    write_declarations(decls, &mut text);
    assert(text@ =~= unit_text(unit@, views_of(decls@)));
    text
}

} // verus!
