//! The second pass: from what the first pass gathered to the declarations
//! that make the boundary.
//!
//! Every public type that is a handle gets its lifecycle entry points, then
//! every candidate function its boundary declaration. A declaration whose
//! symbol is exposed already, or was taken by an earlier declaration, is
//! left out: each symbol is synthesized once.

use vstd::prelude::*;
use crate::collect::{Accumulator, AccumulatorView, CandidateView, TypeRecord, TypeRecordView};
use crate::model::{
    lemma_function_view, Attribute, Function, FunctionView, Item, ItemView, Param, ParamView,
    Visibility, VisibilityView,
};
use crate::ownership::{category, classify, Ownership};
use crate::rules::{Rules, RulesView};
use crate::text::{is_listed, same_text, views_of};

verus! {

/// What a synthesized declaration is for.
#[derive(Clone, Copy, Debug, PartialEq, Eq)]
pub enum Role {
    /// The boundary entry of a function.
    Entry,
    /// Makes a handle from a value.
    Construct,
    /// Makes one more owner of a shared handle.
    Share,
    /// Gives a handle up.
    Destroy,
}

/// A synthesized declaration.
#[derive(Clone, Debug, PartialEq, Eq)]
pub struct Declaration {
    /// The unit that declares the function or type it was made for.
    pub unit: usize,
    pub role: Role,
    /// The name of that function or type.
    pub subject: String,
    pub decl: Function,
}

/// What [`Declaration`] stands for in contracts.
pub struct DeclarationView {
    pub unit: usize,
    pub role: Role,
    pub subject: Seq<char>,
    pub decl: FunctionView,
}

impl View for Declaration {
    type V = DeclarationView;

    open spec fn view(&self) -> DeclarationView {
        DeclarationView {
            unit: self.unit,
            role: self.role,
            subject: self.subject@,
            decl: self.decl@,
        }
    }
}

/// What names the role in the symbol of a lifecycle entry point.
pub open spec fn role_tag(role: Role) -> Seq<char> {
    match role {
        Role::Entry => Seq::empty(),
        Role::Construct => "_new"@,
        Role::Share => "_clone"@,
        Role::Destroy => "_drop"@,
    }
}

/// The symbol of a lifecycle entry point: the name of the type, the role
/// and the suffix.
pub open spec fn lifecycle_symbol(target: Seq<char>, role: Role, rules: RulesView) -> Seq<char> {
    target + role_tag(role) + rules.suffix
}

/// The type of a handle: a box for a uniquely owned value, a reference
/// counted pointer for a shared one.
pub open spec fn handle_of(kind: Ownership, target: Seq<char>) -> Seq<char> {
    match kind {
        Ownership::Shared => "std::sync::Arc<"@ + target + ">"@,
        _ => "Box<"@ + target + ">"@,
    }
}

/// The parameters of a lifecycle entry point.
pub open spec fn lifecycle_params(
    target: Seq<char>,
    kind: Ownership,
    role: Role,
    rules: RulesView,
) -> Seq<ParamView> {
    match role {
        Role::Construct => seq![ParamView { name: "value"@, ty: target }],
        Role::Share => seq![
            ParamView { name: rules.receiver, ty: "&"@ + handle_of(kind, target) },
        ],
        _ => seq![ParamView { name: rules.receiver, ty: handle_of(kind, target) }],
    }
}

/// The one expression in the body of a lifecycle entry point.
pub open spec fn lifecycle_body(kind: Ownership, role: Role, rules: RulesView) -> Seq<char> {
    match role {
        Role::Construct => match kind {
            Ownership::Shared => "std::sync::Arc::new(value)"@,
            _ => "Box::new(value)"@,
        },
        Role::Share => "std::sync::Arc::clone("@ + rules.receiver + ")"@,
        _ => "drop("@ + rules.receiver + ")"@,
    }
}

/// A lifecycle entry point of a type: public, unmangled, with the calling
/// convention of the rules.
pub open spec fn lifecycle_decl(
    target: Seq<char>,
    kind: Ownership,
    role: Role,
    rules: RulesView,
) -> FunctionView {
    FunctionView {
        attrs: seq![rules.symbol],
        vis: VisibilityView::Public,
        is_const: false,
        is_async: false,
        is_unsafe: false,
        abi: Some(rules.abi),
        name: lifecycle_symbol(target, role, rules),
        generics: Seq::empty(),
        receiver: None,
        params: lifecycle_params(target, kind, role, rules),
        ret: if role is Destroy {
            None
        } else {
            Some(handle_of(kind, target))
        },
        bounds: Seq::empty(),
        body: seq![ItemView::Other(lifecycle_body(kind, role, rules))],
    }
}

/// A lifecycle entry point as a synthesized declaration.
pub open spec fn lifecycle(t: TypeRecordView, kind: Ownership, role: Role, rules: RulesView) -> DeclarationView {
    DeclarationView {
        unit: t.unit,
        role,
        subject: t.name,
        decl: lifecycle_decl(t.name, kind, role, rules),
    }
}

/// The entry points that a type of the given category asks for: none for a
/// value or a type that is not public, construct and destroy for a uniquely
/// owned handle, construct, share and destroy for a shared one.
pub open spec fn wanted_for(t: TypeRecordView, kind: Ownership, rules: RulesView) -> Seq<DeclarationView> {
    if !t.exported {
        Seq::empty()
    } else {
        match kind {
            Ownership::Value => Seq::empty(),
            Ownership::Unique => seq![
                lifecycle(t, kind, Role::Construct, rules),
                lifecycle(t, kind, Role::Destroy, rules),
            ],
            Ownership::Shared => seq![
                lifecycle(t, kind, Role::Construct, rules),
                lifecycle(t, kind, Role::Share, rules),
                lifecycle(t, kind, Role::Destroy, rules),
            ],
        }
    }
}

/// The entry points that the first `count` recorded types ask for, in the
/// order of the records.
pub open spec fn wanted_types(types: Seq<TypeRecordView>, rules: RulesView, count: nat) -> Seq<DeclarationView>
    decreases count,
{
    if count == 0 {
        Seq::empty()
    } else {
        wanted_types(types, rules, (count - 1) as nat) + wanted_for(
            types[count - 1],
            category(types, rules, count - 1),
            rules,
        )
    }
}

/// The boundary entry of a candidate function as a synthesized declaration.
pub open spec fn entry_of(c: CandidateView) -> DeclarationView {
    DeclarationView { unit: c.unit, role: Role::Entry, subject: c.origin, decl: c.decl }
}

/// The boundary entries of the candidates, in order.
pub open spec fn wanted_entries(candidates: Seq<CandidateView>) -> Seq<DeclarationView> {
    Seq::new(candidates.len(), |i: int| entry_of(candidates[i]))
}

/// All that the accumulated state asks for: the lifecycle entry points of
/// the types, then the boundary entries of the functions.
pub open spec fn wanted(acc: AccumulatorView, rules: RulesView) -> Seq<DeclarationView> {
    wanted_types(acc.types, rules, acc.types.len()) + wanted_entries(acc.candidates)
}

/// The symbols of the declarations, in order.
pub open spec fn symbols(decls: Seq<DeclarationView>) -> Seq<Seq<char>> {
    Seq::new(decls.len(), |i: int| decls[i].decl.name)
}

/// The declarations kept so far with `d` offered: `d` joins them unless
/// its symbol is exposed or taken.
pub open spec fn offered(
    kept: Seq<DeclarationView>,
    exposed: Seq<Seq<char>>,
    d: DeclarationView,
) -> Seq<DeclarationView> {
    if exposed.contains(d.decl.name) || symbols(kept).contains(d.decl.name) {
        kept
    } else {
        kept.push(d)
    }
}

/// The declarations that are kept of `wanted`, offered in order.
pub open spec fn retained(wanted: Seq<DeclarationView>, exposed: Seq<Seq<char>>) -> Seq<DeclarationView>
    decreases wanted.len(),
{
    if wanted.len() == 0 {
        Seq::empty()
    } else {
        offered(retained(wanted.drop_last(), exposed), exposed, wanted.last())
    }
}

/// The synthesized declarations of a run.
pub open spec fn synthesized(acc: AccumulatorView, rules: RulesView) -> Seq<DeclarationView> {
    retained(wanted(acc, rules), acc.exposed)
}

/// Whether one of the declarations has the symbol.
fn has_symbol(decls: &Vec<Declaration>, name: &str) -> (found: bool)
    ensures
        found == symbols(views_of(decls@)).contains(name@),
{
    let mut i: usize = 0;
    while i < decls.len()
        invariant
            i <= decls@.len(),
            forall|j: int| 0 <= j < i ==> symbols(views_of(decls@))[j] != name@,
        decreases decls@.len() - i,
    {
        if same_text(decls[i].decl.name.as_str(), name) {
            assert(symbols(views_of(decls@))[i as int] == name@);
            return true;
        }
        i += 1;
    }
    false
}

/// Offers one declaration: it is kept unless its symbol is exposed or taken.
fn offer(d: Declaration, exposed: &Vec<String>, kept: &mut Vec<Declaration>)
    ensures
        views_of(final(kept)@) == offered(views_of(old(kept)@), views_of(exposed@), d@),
{
    if is_listed(exposed, d.decl.name.as_str()) || has_symbol(kept, d.decl.name.as_str()) {
    } else {
        kept.push(d);
        assert(views_of(kept@) =~= views_of(old(kept)@).push(d@));
    }
}

/// The type of a handle.
fn handle_text(kind: Ownership, target: &str) -> (ty: String)
    ensures
        ty@ == handle_of(kind, target@),
{
    let mut ty = match kind {
        Ownership::Shared => String::from_str("std::sync::Arc<"),
        _ => String::from_str("Box<"),
    };
    ty.append(target);
    ty.append(">");
    ty
}

/// A lifecycle entry point of a recorded type.
fn make_lifecycle(t: &TypeRecord, kind: Ownership, role: Role, rules: &Rules) -> (d: Declaration)
    ensures
        d@ == lifecycle(t@, kind, role, rules@),
{
    let mut name = t.name.clone();
    match role {
        Role::Entry => {},
        Role::Construct => {
            name.append("_new");
        },
        Role::Share => {
            name.append("_clone");
        },
        Role::Destroy => {
            name.append("_drop");
        },
    }
    assert(name@ =~= t@.name + role_tag(role));
    name.append(rules.suffix.as_str());
    let handle = handle_text(kind, t.name.as_str());
    let mut params: Vec<Param> = Vec::new();
    let body = match role {
        Role::Construct => {
            params.push(Param { name: String::from_str("value"), ty: t.name.clone() });
            match kind {
                Ownership::Shared => String::from_str("std::sync::Arc::new(value)"),
                _ => String::from_str("Box::new(value)"),
            }
        },
        Role::Share => {
            let mut ty = String::from_str("&");
            ty.append(handle.as_str());
            params.push(Param { name: rules.receiver.clone(), ty });
            let mut body = String::from_str("std::sync::Arc::clone(");
            body.append(rules.receiver.as_str());
            body.append(")");
            body
        },
        _ => {
            params.push(Param { name: rules.receiver.clone(), ty: handle.clone() });
            let mut body = String::from_str("drop(");
            body.append(rules.receiver.as_str());
            body.append(")");
            body
        },
    };
    assert(views_of(params@) =~= lifecycle_params(t@.name, kind, role, rules@));
    let ret = match role {
        Role::Destroy => None,
        _ => Some(handle),
    };
    let mut attrs: Vec<Attribute> = Vec::new();
    attrs.push(rules.symbol.duplicate());
    assert(views_of(attrs@) =~= seq![rules@.symbol]);
    let mut inside: Vec<Item> = Vec::new();
    inside.push(Item::Other(body));
    assert(views_of(inside@) =~= seq![ItemView::Other(lifecycle_body(kind, role, rules@))]);
    let decl = Function {
        attrs,
        vis: Visibility::Public,
        is_const: false,
        is_async: false,
        is_unsafe: false,
        abi: Some(rules.abi.clone()),
        name,
        generics: String::new(),
        receiver: None,
        params,
        ret,
        bounds: String::new(),
        body: inside,
    };
    proof {
        lemma_function_view(decl);
    }
    Declaration { unit: t.unit, role, subject: t.name.clone(), decl }
}

/// Offers the entry points that one recorded type asks for.
fn offer_lifecycle(
    t: &TypeRecord,
    kind: Ownership,
    rules: &Rules,
    exposed: &Vec<String>,
    kept: &mut Vec<Declaration>,
    Ghost(before): Ghost<Seq<DeclarationView>>,
)
    requires
        views_of(old(kept)@) == retained(before, views_of(exposed@)),
    ensures
        views_of(final(kept)@) == retained(
            before + wanted_for(t@, kind, rules@),
            views_of(exposed@),
        ),
{
    let ghost e = views_of(exposed@);
    if !t.exported {
        assert(before + wanted_for(t@, kind, rules@) =~= before);
        return ;
    }
    match kind {
        Ownership::Value => {
            assert(before + wanted_for(t@, kind, rules@) =~= before);
        },
        Ownership::Unique => {
            let ghost d1 = lifecycle(t@, kind, Role::Construct, rules@);
            let ghost d2 = lifecycle(t@, kind, Role::Destroy, rules@);
            offer(make_lifecycle(t, kind, Role::Construct, rules), exposed, kept);
            proof {
                lemma_retained_push(before, e, d1);
            }
            offer(make_lifecycle(t, kind, Role::Destroy, rules), exposed, kept);
            proof {
                lemma_retained_push(before.push(d1), e, d2);
                assert(before + wanted_for(t@, kind, rules@) =~= before.push(d1).push(d2));
            }
        },
        Ownership::Shared => {
            let ghost d1 = lifecycle(t@, kind, Role::Construct, rules@);
            let ghost d2 = lifecycle(t@, kind, Role::Share, rules@);
            let ghost d3 = lifecycle(t@, kind, Role::Destroy, rules@);
            offer(make_lifecycle(t, kind, Role::Construct, rules), exposed, kept);
            proof {
                lemma_retained_push(before, e, d1);
            }
            offer(make_lifecycle(t, kind, Role::Share, rules), exposed, kept);
            proof {
                lemma_retained_push(before.push(d1), e, d2);
            }
            offer(make_lifecycle(t, kind, Role::Destroy, rules), exposed, kept);
            proof {
                lemma_retained_push(before.push(d1).push(d2), e, d3);
                assert(before + wanted_for(t@, kind, rules@) =~= before.push(d1).push(d2).push(d3));
            }
        },
    }
}

/// Offering one more declaration after the others.
pub proof fn lemma_retained_push(
    wanted: Seq<DeclarationView>,
    exposed: Seq<Seq<char>>,
    d: DeclarationView,
)
    ensures
        retained(wanted.push(d), exposed) == offered(retained(wanted, exposed), exposed, d),
{
    assert(wanted.push(d).drop_last() =~= wanted);
    assert(wanted.push(d).last() == d);
}

/// The declarations of the boundary, from what the first pass gathered.
/// The accumulated state is only read.
pub fn synthesize(acc: &Accumulator, rules: &Rules) -> (out: Vec<Declaration>)
    ensures
        views_of(out@) == synthesized(acc@, rules@),
{
    let kinds = classify(&acc.types, rules);
    let mut out: Vec<Declaration> = Vec::new();
    let ghost e = acc@.exposed;
    let mut i: usize = 0;
    while i < acc.types.len()
        invariant
            i <= acc.types@.len(),
            e == views_of(acc.exposed@),
            kinds@.len() == acc.types@.len(),
            forall|m: int|
                0 <= m < acc.types@.len() ==> kinds@[m] == category(acc@.types, rules@, m),
            views_of(out@) == retained(wanted_types(acc@.types, rules@, i as nat), e),
        decreases acc.types@.len() - i,
    {
        offer_lifecycle(
            &acc.types[i],
            kinds[i],
            rules,
            &acc.exposed,
            &mut out,
            Ghost(wanted_types(acc@.types, rules@, i as nat)),
        );
        i += 1;
    }
    let ghost first = wanted_types(acc@.types, rules@, acc@.types.len());
    let mut k: usize = 0;
    assert(first + wanted_entries(acc@.candidates).take(0) =~= first);
    while k < acc.candidates.len()
        invariant
            k <= acc.candidates@.len(),
            e == views_of(acc.exposed@),
            first == wanted_types(acc@.types, rules@, acc@.types.len()),
            views_of(out@) == retained(first + wanted_entries(acc@.candidates).take(k as int), e),
        decreases acc.candidates@.len() - k,
    {
        let c = &acc.candidates[k];
        let d = Declaration {
            unit: c.unit,
            role: Role::Entry,
            subject: c.origin.clone(),
            decl: c.decl.duplicate(),
        };
        proof {
            let entries = wanted_entries(acc@.candidates);
            assert(d@ == entries[k as int]);
            lemma_retained_push(first + entries.take(k as int), e, d@);
            assert((first + entries.take(k as int)).push(d@) =~= first + entries.take(k + 1));
        }
        offer(d, &acc.exposed, &mut out);
        k += 1;
    }
    assert(wanted_entries(acc@.candidates).take(acc.candidates@.len() as int) =~= wanted_entries(
        acc@.candidates,
    ));
    out
}


/// The share of one unit: the declarations made for what it declares, in order.
pub open spec fn share_of(decls: Seq<DeclarationView>, unit: usize) -> Seq<DeclarationView>
    decreases decls.len(),
{
    if decls.len() == 0 {
        Seq::empty()
    } else if decls.last().unit == unit {
        share_of(decls.drop_last(), unit).push(decls.last())
    } else {
        share_of(decls.drop_last(), unit)
    }
}

impl Declaration {
    /// A copy of this declaration.
    pub fn duplicate(&self) -> (out: Declaration)
        ensures
            out@ == self@,
    {
        Declaration {
            unit: self.unit,
            role: self.role,
            subject: self.subject.clone(),
            decl: self.decl.duplicate(),
        }
    }
}

/// The declarations that go with one unit, in order.
pub fn declarations_for(decls: &Vec<Declaration>, unit: usize) -> (out: Vec<Declaration>)
    ensures
        views_of(out@) == share_of(views_of(decls@), unit),
{
    let ghost all = views_of(decls@);
    let mut out: Vec<Declaration> = Vec::new();
    let mut i: usize = 0;
    assert(all.take(0) =~= Seq::empty());
    while i < decls.len()
        invariant
            i <= decls@.len(),
            all == views_of(decls@),
            views_of(out@) == share_of(all.take(i as int), unit),
        decreases decls@.len() - i,
    {
        proof {
            assert(all.take(i + 1).drop_last() =~= all.take(i as int));
            assert(all.take(i + 1).last() == all[i as int]);
        }
        if decls[i].unit == unit {
            let ghost before = views_of(out@);
            out.push(decls[i].duplicate());
            assert(views_of(out@) =~= before.push(all[i as int]));
        }
        i += 1;
    }
    assert(all.take(decls@.len() as int) =~= all);
    out
}

} // verus!
