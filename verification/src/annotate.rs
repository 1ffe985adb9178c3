//! The mutating walk: every public aggregate type that carries no layout
//! annotation is given one, in place.

use vstd::prelude::*;
use crate::model::{
    lemma_function_view, lemma_scope_view, Aggregate, AggregateView, Attribute, AttributeView,
    FunctionView, Item, ItemView, SourceUnit, SourceUnitView,
};
use crate::collect::{aggregates_in, aggregates_of};
use crate::text::{same_text, views_of};

verus! {

/// One of the attributes has the path of the layout annotation.
pub open spec fn has_layout(attrs: Seq<AttributeView>, layout: AttributeView) -> bool {
    exists|i: int| 0 <= i < attrs.len() && (#[trigger] attrs[i]).name == layout.name
}

/// A type is given the annotation if it is public and carries none.
pub open spec fn needs_layout(a: AggregateView, layout: AttributeView) -> bool {
    a.vis is Public && !has_layout(a.attrs, layout)
}

/// The type after the walk: with the annotation as its last attribute if it
/// needed one, unchanged if not.
pub open spec fn annotated_type(a: AggregateView, layout: AttributeView) -> AggregateView {
    if needs_layout(a, layout) {
        AggregateView { attrs: a.attrs.push(layout), ..a }
    } else {
        a
    }
}

/// The declarations after the walk, each in its place.
pub open spec fn annotated_items(items: Seq<ItemView>, layout: AttributeView) -> Seq<ItemView>
    decreases items,
{
    Seq::new(
        items.len(),
        |i: int|
            if 0 <= i < items.len() {
                annotated_item(items[i], layout)
            } else {
                items[i]
            },
    )
}

/// A declaration after the walk: an aggregate type annotated, a scope or a
/// function with its declarations walked, anything else unchanged.
pub open spec fn annotated_item(item: ItemView, layout: AttributeView) -> ItemView
    decreases item,
{
    match item {
        ItemView::Function(f) => ItemView::Function(
            FunctionView { body: annotated_items(f.body, layout), ..f },
        ),
        ItemView::Product(a) => ItemView::Product(annotated_type(a, layout)),
        ItemView::Sum(a) => ItemView::Sum(annotated_type(a, layout)),
        ItemView::Scope { header, items } => ItemView::Scope {
            header,
            items: annotated_items(items, layout),
        },
        other => other,
    }
}

/// The unit after the walk.
pub open spec fn annotated_unit(unit: SourceUnitView, layout: AttributeView) -> SourceUnitView {
    SourceUnitView { name: unit.name, items: annotated_items(unit.items, layout) }
}

/// Whether one of the attributes has the path of the layout annotation.
pub fn carries_layout(attrs: &Vec<Attribute>, layout: &Attribute) -> (found: bool)
    ensures
        found == has_layout(views_of(attrs@), layout@),
{
    let mut i: usize = 0;
    while i < attrs.len()
        invariant
            i <= attrs@.len(),
            forall|j: int| 0 <= j < i ==> (#[trigger] views_of(attrs@)[j]).name != layout@.name,
        decreases attrs@.len() - i,
    {
        if same_text(attrs[i].name.as_str(), layout.name.as_str()) {
            assert(views_of(attrs@)[i as int].name == layout@.name);
            return true;
        }
        i += 1;
    }
    false
}

/// Gives the type the layout annotation if it is public and carries none.
pub fn annotate_type(a: &mut Aggregate, layout: &Attribute)
    ensures
        final(a)@ == annotated_type(old(a)@, layout@),
{
    if a.vis.is_public() && !carries_layout(&a.attrs, layout) {
        a.attrs.push(layout.duplicate());
        assert(views_of(a.attrs@) =~= old(a)@.attrs.push(layout@));
    }
}

/// Walks one declaration.
pub fn annotate_item(item: &mut Item, layout: &Attribute)
    ensures
        final(item)@ == annotated_item(old(item)@, layout@),
    decreases *old(item),
{
    match item {
        Item::Function(f) => {
            proof {
                lemma_function_view(*f);
            }
            annotate_items(&mut f.body, layout);
            proof {
                lemma_function_view(*f);
            }
        },
        Item::Product(a) => {
            annotate_type(a, layout);
        },
        Item::Sum(a) => {
            annotate_type(a, layout);
        },
        Item::Scope(s) => {
            proof {
                lemma_scope_view(*s);
            }
            annotate_items(&mut s.items, layout);
            proof {
                lemma_scope_view(*s);
            }
        },
        _ => {},
    }
}

/// Walks the declarations in order, and every scope among them.
pub fn annotate_items(items: &mut Vec<Item>, layout: &Attribute)
    ensures
        views_of(final(items)@) == annotated_items(views_of(old(items)@), layout@),
    decreases *old(items),
{
    let mut i: usize = 0;
    while i < items.len()
        invariant
            i <= items@.len(),
            items@.len() == old(items)@.len(),
            forall|j: int| 0 <= j < i ==> (#[trigger] items@[j])@ == annotated_item(old(items)@[j]@, layout@),
            forall|j: int| i <= j < items@.len() ==> #[trigger] items@[j] == old(items)@[j],
        decreases items@.len() - i,
    {
        annotate_item(&mut items[i], layout);
        i += 1;
    }
    assert(views_of(items@) =~= annotated_items(views_of(old(items)@), layout@));
}

/// Gives every public aggregate type of the unit that carries no layout
/// annotation one. Nothing else changes.
pub fn annotate_unit(unit: &mut SourceUnit, layout: &Attribute)
    ensures
        final(unit)@ == annotated_unit(old(unit)@, layout@),
{
    annotate_items(&mut unit.items, layout);
}

/// An annotated type needs no annotation.
pub proof fn lemma_annotated_type_settled(a: AggregateView, layout: AttributeView)
    ensures
        !needs_layout(annotated_type(a, layout), layout),
        annotated_type(annotated_type(a, layout), layout) == annotated_type(a, layout),
        a.vis is Public ==> has_layout(annotated_type(a, layout).attrs, layout),
{
    if needs_layout(a, layout) {
        let after = a.attrs.push(layout);
        assert(after[a.attrs.len() as int].name == layout.name);
    }
}

/// Walking a declaration twice gives what walking it once gives.
pub proof fn lemma_annotate_item_idempotent(item: ItemView, layout: AttributeView)
    ensures
        annotated_item(annotated_item(item, layout), layout) == annotated_item(item, layout),
    decreases item,
{
    match item {
        ItemView::Function(f) => {
            lemma_annotate_idempotent(f.body, layout);
        },
        ItemView::Product(a) => {
            lemma_annotated_type_settled(a, layout);
        },
        ItemView::Sum(a) => {
            lemma_annotated_type_settled(a, layout);
        },
        ItemView::Scope { header, items } => {
            lemma_annotate_idempotent(items, layout);
        },
        _ => {},
    }
}

/// Walking a list of declarations twice gives what walking it once gives:
/// no type ends up with two layout annotations.
pub proof fn lemma_annotate_idempotent(items: Seq<ItemView>, layout: AttributeView)
    ensures
        annotated_items(annotated_items(items, layout), layout) == annotated_items(items, layout),
    decreases items,
{
    let once = annotated_items(items, layout);
    let twice = annotated_items(once, layout);
    assert forall|i: int| 0 <= i < items.len() implies twice[i] == once[i] by {
        lemma_annotate_item_idempotent(items[i], layout);
    }
    assert(twice =~= once);
}

/// Walking a unit twice gives what walking it once gives.
pub proof fn lemma_annotate_unit_idempotent(unit: SourceUnitView, layout: AttributeView)
    ensures
        annotated_unit(annotated_unit(unit, layout), layout) == annotated_unit(unit, layout),
{
    lemma_annotate_idempotent(unit.items, layout);
}


/// Every public one of the types carries a layout annotation.
pub open spec fn all_laid_out(types: Seq<AggregateView>, layout: AttributeView) -> bool {
    forall|k: int|
        0 <= k < types.len() && (#[trigger] types[k]).vis is Public ==> has_layout(
            types[k].attrs,
            layout,
        )
}

/// After the walk, every public aggregate type that a declaration holds,
/// at any depth, carries a layout annotation.
pub proof fn lemma_annotated_item_laid_out(item: ItemView, layout: AttributeView)
    ensures
        all_laid_out(aggregates_of(annotated_item(item, layout)), layout),
    decreases item,
{
    match item {
        ItemView::Function(f) => {
            lemma_annotated_laid_out(f.body, layout);
        },
        ItemView::Product(a) => {
            lemma_annotated_type_settled(a, layout);
        },
        ItemView::Sum(a) => {
            lemma_annotated_type_settled(a, layout);
        },
        ItemView::Scope { header, items } => {
            lemma_annotated_laid_out(items, layout);
        },
        _ => {},
    }
}

/// After the walk, every public aggregate type of the unit, at any depth,
/// carries a layout annotation.
pub proof fn lemma_annotated_laid_out(items: Seq<ItemView>, layout: AttributeView)
    ensures
        all_laid_out(aggregates_in(annotated_items(items, layout)), layout),
    decreases items,
{
    if items.len() > 0 {
        let after = annotated_items(items, layout);
        assert(after.drop_last() =~= annotated_items(items.drop_last(), layout));
        assert(after.last() == annotated_item(items.last(), layout));
        lemma_annotated_laid_out(items.drop_last(), layout);
        lemma_annotated_item_laid_out(items.last(), layout);
        let first = aggregates_in(after.drop_last());
        let last = aggregates_of(after.last());
        assert forall|k: int|
            0 <= k < (first + last).len() && (#[trigger] (first + last)[k]).vis is Public implies has_layout(
            (first + last)[k].attrs,
            layout,
        ) by {
            if k < first.len() {
                assert((first + last)[k] == first[k]);
            } else {
                assert((first + last)[k] == last[k - first.len()]);
            }
        }
    }
}

} // verus!
