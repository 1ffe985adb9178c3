//! Which functions are exposed across the boundary, and the declaration that
//! exposes one.

use vstd::prelude::*;
use crate::model::{
    copy_attributes, copy_items, copy_optional, lemma_function_view, Attribute, AttributeView,
    Function, FunctionView, Param, ParamView, Receiver, ReceiverKind, ReceiverView,
};
use crate::rules::{Rules, RulesView};
use crate::text::{contains, contains_text, views_of};

verus! {

/// One of the attributes holds the marker text.
pub open spec fn carries_marker(attrs: Seq<AttributeView>, marker: Seq<char>) -> bool {
    exists|i: int| 0 <= i < attrs.len() && contains_text(#[trigger] attrs[i].text, marker)
}

/// A function is exposed if it is not asynchronous, carries no calling
/// convention yet, is public and does not opt out; under the strict rules it
/// must carry no attribute at all.
pub open spec fn eligible(f: FunctionView, rules: RulesView) -> bool {
    &&& !f.is_async
    &&& f.abi is None
    &&& f.vis is Public
    &&& !carries_marker(f.attrs, rules.skip_marker)
    &&& rules.strict ==> f.attrs.len() == 0
}

/// The type of the explicit parameter that stands for a receiver: a shared
/// or exclusive reference to the enclosing type, or a box that owns it.
pub open spec fn handle_type(r: ReceiverView) -> Seq<char> {
    match r.kind {
        ReceiverKind::Shared => "&"@ + r.enclosing,
        ReceiverKind::Exclusive => "&mut "@ + r.enclosing,
        ReceiverKind::Owned => "Box<"@ + r.enclosing + ">"@,
    }
}

/// The explicit parameters of the boundary declaration: the receiver, if
/// there is one, made the first parameter, then the parameters as declared.
pub open spec fn boundary_params(f: FunctionView, rules: RulesView) -> Seq<ParamView> {
    match f.receiver {
        Some(r) => seq![ParamView { name: rules.receiver, ty: handle_type(r) }] + f.params,
        None => f.params,
    }
}

/// The boundary declaration of a function: a copy of it, body included,
/// that carries the symbol directive and the calling convention, is named
/// with the suffix, and takes its receiver as an explicit parameter.
pub open spec fn boundary(f: FunctionView, rules: RulesView) -> FunctionView {
    FunctionView {
        attrs: f.attrs.push(rules.symbol),
        vis: f.vis,
        is_const: f.is_const,
        is_async: f.is_async,
        is_unsafe: f.is_unsafe,
        abi: Some(rules.abi),
        name: f.name + rules.suffix,
        generics: f.generics,
        receiver: None,
        params: boundary_params(f, rules),
        ret: f.ret,
        bounds: f.bounds,
        body: f.body,
    }
}

/// Whether one of the attributes holds the marker text.
pub fn has_marker(attrs: &Vec<Attribute>, marker: &str) -> (found: bool)
    ensures
        found == carries_marker(views_of(attrs@), marker@),
{
    let mut i: usize = 0;
    while i < attrs.len()
        invariant
            i <= attrs@.len(),
            forall|j: int| 0 <= j < i ==> !contains_text(#[trigger] views_of(attrs@)[j].text, marker@),
        decreases attrs@.len() - i,
    {
        if contains(attrs[i].text.as_str(), marker) {
            assert(contains_text(views_of(attrs@)[i as int].text, marker@));
            return true;
        }
        i += 1;
    }
    false
}

/// Whether the function is exposed across the boundary.
pub fn is_eligible(f: &Function, rules: &Rules) -> (ok: bool)
    ensures
        ok == eligible(f@, rules@),
{
    if f.is_async {
        return false;
    }
    if f.abi.is_some() {
        return false;
    }
    if !f.vis.is_public() {
        return false;
    }
    if has_marker(&f.attrs, rules.skip_marker.as_str()) {
        return false;
    }
    !rules.strict || f.attrs.len() == 0
}

/// The type of the explicit parameter that stands for the receiver.
pub fn receiver_type(r: &Receiver) -> (ty: String)
    ensures
        ty@ == handle_type(r@),
{
    match r.kind {
        ReceiverKind::Shared => {
            let mut ty = String::from_str("&");
            ty.append(r.enclosing.as_str());
            ty
        },
        ReceiverKind::Exclusive => {
            let mut ty = String::from_str("&mut ");
            ty.append(r.enclosing.as_str());
            ty
        },
        ReceiverKind::Owned => {
            let mut ty = String::from_str("Box<");
            ty.append(r.enclosing.as_str());
            ty.append(">");
            ty
        },
    }
}

/// The boundary declaration of `f`. `f` itself is left as it is.
pub fn to_boundary(f: &Function, rules: &Rules) -> (out: Function)
    ensures
        out@ == boundary(f@, rules@),
{
    let mut attrs = copy_attributes(&f.attrs);
    attrs.push(rules.symbol.duplicate());
    assert(views_of(attrs@) =~= f@.attrs.push(rules@.symbol));
    let mut name = f.name.clone();
    name.append(rules.suffix.as_str());
    let mut params: Vec<Param> = Vec::new();
    match &f.receiver {
        Some(r) => {
            params.push(Param { name: rules.receiver.clone(), ty: receiver_type(r) });
        },
        None => {},
    }
    let ghost head = views_of(params@);
    let mut i: usize = 0;
    while i < f.params.len()
        invariant
            i <= f.params@.len(),
            views_of(params@) == head + views_of(f.params@).take(i as int),
        decreases f.params@.len() - i,
    {
        let ghost before = views_of(params@);
        params.push(Param { name: f.params[i].name.clone(), ty: f.params[i].ty.clone() });
        assert(views_of(params@) =~= before.push(f.params@[i as int]@));
        assert(views_of(f.params@).take(i + 1) =~= views_of(f.params@).take(i as int).push(
            f.params@[i as int]@,
        ));
        i += 1;
    }
    assert(views_of(f.params@).take(f.params@.len() as int) =~= views_of(f.params@));
    assert(views_of(params@) =~= boundary_params(f@, rules@));
    let out = Function {
        attrs,
        vis: f.vis.duplicate(),
        is_const: f.is_const,
        is_async: f.is_async,
        is_unsafe: f.is_unsafe,
        abi: Some(rules.abi.clone()),
        name,
        generics: f.generics.clone(),
        receiver: None,
        params,
        ret: copy_optional(&f.ret),
        bounds: f.bounds.clone(),
        body: copy_items(&f.body),
    };
    proof {
        lemma_function_view(out);
        lemma_function_view(*f);
    }
    out
}

/// The explicit parameter that stands for a receiver is a reference to, or
/// a box of, the enclosing type; the parameters that follow it and the
/// return type are those of the method.
pub proof fn lemma_receiver_rewrite(f: FunctionView, rules: RulesView)
    requires
        f.receiver is Some,
    ensures
        boundary(f, rules).receiver is None,
        boundary(f, rules).params.len() == f.params.len() + 1,
        boundary(f, rules).params[0].ty == handle_type(f.receiver->0),
        handle_type(f.receiver->0) == match f.receiver->0.kind {
            ReceiverKind::Shared => "&"@ + f.receiver->0.enclosing,
            ReceiverKind::Exclusive => "&mut "@ + f.receiver->0.enclosing,
            ReceiverKind::Owned => "Box<"@ + f.receiver->0.enclosing + ">"@,
        },
        boundary(f, rules).params.skip(1) == f.params,
        boundary(f, rules).ret == f.ret,
{
    assert(boundary(f, rules).params.skip(1) =~= f.params);
}

/// A function without a receiver keeps its parameters and return type.
pub proof fn lemma_plain_signature(f: FunctionView, rules: RulesView)
    requires
        f.receiver is None,
    ensures
        boundary(f, rules).params == f.params,
        boundary(f, rules).ret == f.ret,
{
}

} // verus!
