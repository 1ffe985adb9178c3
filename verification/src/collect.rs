//! The collector: a read-only walk over a unit that records what the
//! synthesis needs.
//!
//! The walk visits the declarations in order and goes into every scope. It
//! records the boundary declaration of each exposed function, the name of
//! each function that carries a calling convention already, and each
//! aggregate type with the type names of its fields.

use vstd::prelude::*;
use crate::eligibility::{
    boundary, carries_marker, eligible, has_marker, is_eligible, to_boundary,
};
use crate::model::{
    lemma_function_view, lemma_scope_view, Aggregate, AggregateView, Function, FunctionView, Item,
    ItemView, SourceUnit,
};
use crate::rules::{Rules, RulesView};
use crate::text::{copy_texts, views_of};

verus! {

/// An aggregate type as the first pass found it.
#[derive(Clone, Debug, PartialEq, Eq)]
pub struct TypeRecord {
    /// The unit that declares the type.
    pub unit: usize,
    pub name: String,
    /// Whether the type is visible outside its unit.
    pub exported: bool,
    /// The type names that occur in the types of its fields.
    pub field_types: Vec<String>,
    /// Whether an attribute of the type holds the shared-handle marker.
    pub prefers_shared: bool,
}

/// What [`TypeRecord`] stands for in contracts.
pub struct TypeRecordView {
    pub unit: usize,
    pub name: Seq<char>,
    pub exported: bool,
    pub field_types: Seq<Seq<char>>,
    pub prefers_shared: bool,
}

impl View for TypeRecord {
    type V = TypeRecordView;

    open spec fn view(&self) -> TypeRecordView {
        TypeRecordView {
            unit: self.unit,
            name: self.name@,
            exported: self.exported,
            field_types: views_of(self.field_types@),
            prefers_shared: self.prefers_shared,
        }
    }
}

/// The boundary declaration of an exposed function, and the unit that the
/// function stands in.
#[derive(Clone, Debug, PartialEq, Eq)]
pub struct Candidate {
    pub unit: usize,
    /// The name of the function as declared.
    pub origin: String,
    pub decl: Function,
}

/// What [`Candidate`] stands for in contracts.
pub struct CandidateView {
    pub unit: usize,
    pub origin: Seq<char>,
    pub decl: FunctionView,
}

impl View for Candidate {
    type V = CandidateView;

    open spec fn view(&self) -> CandidateView {
        CandidateView { unit: self.unit, origin: self.origin@, decl: self.decl@ }
    }
}

/// What the first pass has gathered over the units it has seen.
#[derive(Clone, Debug, PartialEq, Eq)]
pub struct Accumulator {
    pub types: Vec<TypeRecord>,
    pub candidates: Vec<Candidate>,
    /// The names of the functions that carry a calling convention already.
    pub exposed: Vec<String>,
}

/// What [`Accumulator`] stands for in contracts.
pub struct AccumulatorView {
    pub types: Seq<TypeRecordView>,
    pub candidates: Seq<CandidateView>,
    pub exposed: Seq<Seq<char>>,
}

impl View for Accumulator {
    type V = AccumulatorView;

    open spec fn view(&self) -> AccumulatorView {
        AccumulatorView {
            types: views_of(self.types@),
            candidates: views_of(self.candidates@),
            exposed: views_of(self.exposed@),
        }
    }
}

/// The functions declared in `items`, at any depth, in declaration order.
pub open spec fn functions_in(items: Seq<ItemView>) -> Seq<FunctionView>
    decreases items,
{
    if items.len() == 0 {
        Seq::empty()
    } else {
        functions_in(items.drop_last()) + functions_of(items.last())
    }
}

/// The functions that one declaration holds: a function is followed by
/// those declared in its body.
pub open spec fn functions_of(item: ItemView) -> Seq<FunctionView>
    decreases item,
{
    match item {
        ItemView::Function(f) => seq![f] + functions_in(f.body),
        ItemView::Scope { header, items } => functions_in(items),
        _ => Seq::empty(),
    }
}

/// The aggregate types declared in `items`, at any depth, in declaration order.
pub open spec fn aggregates_in(items: Seq<ItemView>) -> Seq<AggregateView>
    decreases items,
{
    if items.len() == 0 {
        Seq::empty()
    } else {
        aggregates_in(items.drop_last()) + aggregates_of(items.last())
    }
}

/// The aggregate types that one declaration holds.
pub open spec fn aggregates_of(item: ItemView) -> Seq<AggregateView>
    decreases item,
{
    match item {
        ItemView::Function(f) => aggregates_in(f.body),
        ItemView::Product(a) => seq![a],
        ItemView::Sum(a) => seq![a],
        ItemView::Scope { header, items } => aggregates_in(items),
        _ => Seq::empty(),
    }
}

/// The candidate that a function gives, if it is exposed.
pub open spec fn candidate_pick(unit: usize, rules: RulesView) -> spec_fn(FunctionView) -> Option<
    CandidateView,
> {
    |f: FunctionView|
        if eligible(f, rules) {
            Some(CandidateView { unit, origin: f.name, decl: boundary(f, rules) })
        } else {
            None
        }
}

/// The name of a function, if it carries a calling convention.
pub open spec fn exposed_pick() -> spec_fn(FunctionView) -> Option<Seq<char>> {
    |f: FunctionView|
        if f.abi is Some {
            Some(f.name)
        } else {
            None
        }
}

/// The record of an aggregate type.
pub open spec fn record_of(a: AggregateView, unit: usize, rules: RulesView) -> TypeRecordView {
    TypeRecordView {
        unit,
        name: a.name,
        exported: a.vis is Public,
        field_types: a.field_types,
        prefers_shared: carries_marker(a.attrs, rules.shared_marker),
    }
}

/// The candidates among `functions`: the boundary declarations of those
/// that are exposed, in order.
pub open spec fn candidates_of(functions: Seq<FunctionView>, unit: usize, rules: RulesView) -> Seq<
    CandidateView,
> {
    functions.filter_map(candidate_pick(unit, rules))
}

/// The names of those of `functions` that carry a calling convention.
pub open spec fn exposed_of(functions: Seq<FunctionView>) -> Seq<Seq<char>> {
    functions.filter_map(exposed_pick())
}

/// The records of `aggregates`, in order.
pub open spec fn records_of(aggregates: Seq<AggregateView>, unit: usize, rules: RulesView) -> Seq<
    TypeRecordView,
> {
    Seq::new(aggregates.len(), |i: int| record_of(aggregates[i], unit, rules))
}

/// The accumulator after a walk over `items` as declarations of `unit`.
pub open spec fn gathered(
    acc: AccumulatorView,
    items: Seq<ItemView>,
    unit: usize,
    rules: RulesView,
) -> AccumulatorView {
    AccumulatorView {
        types: acc.types + records_of(aggregates_in(items), unit, rules),
        candidates: acc.candidates + candidates_of(functions_in(items), unit, rules),
        exposed: acc.exposed + exposed_of(functions_in(items)),
    }
}

/// Picking from two lists in a row is picking from each.
proof fn lemma_filter_map_concat<A, B>(a: Seq<A>, b: Seq<A>, f: spec_fn(A) -> Option<B>)
    ensures
        (a + b).filter_map(f) == a.filter_map(f) + b.filter_map(f),
    decreases b.len(),
{
    if b.len() == 0 {
        assert(a + b =~= a);
        assert(a.filter_map(f) + b.filter_map(f) =~= a.filter_map(f));
    } else {
        assert((a + b).drop_last() =~= a + b.drop_last());
        assert((a + b).last() == b.last());
        lemma_filter_map_concat(a, b.drop_last(), f);
        match f(b.last()) {
            Some(x) => {
                assert((a.filter_map(f) + b.drop_last().filter_map(f)) + seq![x] =~= a.filter_map(f)
                    + (b.drop_last().filter_map(f) + seq![x]));
            },
            None => {},
        }
    }
}

/// A walk over the empty list gathers nothing.
pub proof fn lemma_gathered_none(acc: AccumulatorView, unit: usize, rules: RulesView)
    ensures
        gathered(acc, Seq::empty(), unit, rules) == acc,
{
    let g = gathered(acc, Seq::empty(), unit, rules);
    assert(g.types =~= acc.types);
    assert(g.candidates =~= acc.candidates);
    assert(g.exposed =~= acc.exposed);
}

/// A walk over the first `i + 1` declarations is a walk over the first `i`
/// and then over the one that follows.
pub proof fn lemma_gathered_step(
    acc: AccumulatorView,
    items: Seq<ItemView>,
    i: int,
    unit: usize,
    rules: RulesView,
)
    requires
        0 <= i < items.len(),
    ensures
        gathered(acc, items.take(i + 1), unit, rules) == (AccumulatorView {
            types: gathered(acc, items.take(i), unit, rules).types + records_of(
                aggregates_of(items[i]),
                unit,
                rules,
            ),
            candidates: gathered(acc, items.take(i), unit, rules).candidates + candidates_of(
                functions_of(items[i]),
                unit,
                rules,
            ),
            exposed: gathered(acc, items.take(i), unit, rules).exposed + exposed_of(
                functions_of(items[i]),
            ),
        }),
{
    let before = items.take(i);
    let now = items.take(i + 1);
    assert(now.drop_last() == before);
    assert(now.last() == items[i]);
    assert(functions_in(now) == functions_in(before) + functions_of(items[i]));
    assert(aggregates_in(now) == aggregates_in(before) + aggregates_of(items[i]));
    lemma_filter_map_concat(
        functions_in(before),
        functions_of(items[i]),
        candidate_pick(unit, rules),
    );
    lemma_filter_map_concat(functions_in(before), functions_of(items[i]), exposed_pick());
    assert(records_of(aggregates_in(now), unit, rules) =~= records_of(
        aggregates_in(before),
        unit,
        rules,
    ) + records_of(aggregates_of(items[i]), unit, rules));
    let g = gathered(acc, now, unit, rules);
    let h = gathered(acc, before, unit, rules);
    assert(g.types =~= h.types + records_of(aggregates_of(items[i]), unit, rules));
    assert(g.candidates =~= h.candidates + candidates_of(functions_of(items[i]), unit, rules));
    assert(g.exposed =~= h.exposed + exposed_of(functions_of(items[i])));
}

impl Accumulator {
    /// An accumulator that holds nothing.
    pub fn new() -> (acc: Accumulator)
        ensures
            acc@.types.len() == 0,
            acc@.candidates.len() == 0,
            acc@.exposed.len() == 0,
    {
        Accumulator { types: Vec::new(), candidates: Vec::new(), exposed: Vec::new() }
    }
}

/// Records one function: its boundary declaration if it is exposed, its
/// name if it carries a calling convention.
fn note_function(f: &Function, unit: usize, rules: &Rules, acc: &mut Accumulator)
    ensures
        final(acc)@.types == old(acc)@.types,
        final(acc)@.candidates == old(acc)@.candidates + candidates_of(seq![f@], unit, rules@),
        final(acc)@.exposed == old(acc)@.exposed + exposed_of(seq![f@]),
{
    proof {
        Seq::lemma_filter_map_singleton(f@, candidate_pick(unit, rules@));
        Seq::lemma_filter_map_singleton(f@, exposed_pick());
    }
    if is_eligible(f, rules) {
        acc.candidates.push(Candidate { unit, origin: f.name.clone(), decl: to_boundary(f, rules) });
    }
    if f.abi.is_some() {
        acc.exposed.push(f.name.clone());
    }
    assert(acc@.candidates =~= old(acc)@.candidates + candidates_of(seq![f@], unit, rules@));
    assert(acc@.exposed =~= old(acc)@.exposed + exposed_of(seq![f@]));
}

/// Records one aggregate type.
fn note_aggregate(a: &Aggregate, unit: usize, rules: &Rules, acc: &mut Accumulator)
    ensures
        final(acc)@.types == old(acc)@.types + records_of(seq![a@], unit, rules@),
        final(acc)@.candidates == old(acc)@.candidates,
        final(acc)@.exposed == old(acc)@.exposed,
{
    let record = TypeRecord {
        unit,
        name: a.name.clone(),
        exported: a.vis.is_public(),
        field_types: copy_texts(&a.field_types),
        prefers_shared: has_marker(&a.attrs, rules.shared_marker.as_str()),
    };
    assert(record@ == record_of(a@, unit, rules@));
    acc.types.push(record);
    assert(acc@.types =~= old(acc)@.types + records_of(seq![a@], unit, rules@));
}

/// Walks `items` as declarations of `unit` and records what it finds.
/// The declarations are left as they are.
pub fn collect_items(items: &Vec<Item>, unit: usize, rules: &Rules, acc: &mut Accumulator)
    ensures
        final(acc)@ == gathered(old(acc)@, views_of(items@), unit, rules@),
    decreases items,
{
    let ghost all = views_of(items@);
    proof {
        lemma_gathered_none(acc@, unit, rules@);
        assert(all.take(0) =~= Seq::empty());
    }
    let mut i: usize = 0;
    while i < items.len()
        invariant
            i <= items@.len(),
            all == views_of(items@),
            acc@ == gathered(old(acc)@, all.take(i as int), unit, rules@),
        decreases items@.len() - i,
    {
        proof {
            lemma_gathered_step(old(acc)@, all, i as int, unit, rules@);
        }
        let ghost before = acc@;
        match &items[i] {
            Item::Function(f) => {
                note_function(f, unit, rules, acc);
                let ghost noted = acc@;
                collect_items(&f.body, unit, rules, acc);
                proof {
                    lemma_function_view(*f);
                    let inner = functions_in(f@.body);
                    lemma_filter_map_concat(seq![f@], inner, candidate_pick(unit, rules@));
                    lemma_filter_map_concat(seq![f@], inner, exposed_pick());
                    assert(acc@.types =~= before.types + records_of(
                        aggregates_of(all[i as int]),
                        unit,
                        rules@,
                    ));
                    assert(acc@.candidates =~= before.candidates + candidates_of(
                        functions_of(all[i as int]),
                        unit,
                        rules@,
                    ));
                    assert(acc@.exposed =~= before.exposed + exposed_of(
                        functions_of(all[i as int]),
                    ));
                }
            },
            Item::Product(a) => {
                note_aggregate(a, unit, rules, acc);
                assert(acc@.candidates =~= before.candidates + Seq::empty());
                assert(acc@.exposed =~= before.exposed + Seq::empty());
            },
            Item::Sum(a) => {
                note_aggregate(a, unit, rules, acc);
                assert(acc@.candidates =~= before.candidates + Seq::empty());
                assert(acc@.exposed =~= before.exposed + Seq::empty());
            },
            Item::Scope(s) => {
                proof {
                    lemma_scope_view(*s);
                }
                collect_items(&s.items, unit, rules, acc);
            },
            Item::Other(_) => {
                assert(records_of(aggregates_of(all[i as int]), unit, rules@) =~= Seq::empty());
                assert(acc@.types =~= before.types + Seq::empty());
                assert(acc@.candidates =~= before.candidates + Seq::empty());
                assert(acc@.exposed =~= before.exposed + Seq::empty());
            },
        }
        i += 1;
    }
    assert(all.take(items@.len() as int) =~= all);
}

/// Records what one unit declares. The unit is left as it is.
pub fn collect_unit(unit: &SourceUnit, index: usize, rules: &Rules, acc: &mut Accumulator)
    ensures
        final(acc)@ == gathered(old(acc)@, unit@.items, index, rules@),
{
    collect_items(&unit.items, index, rules, acc);
}


/// Every candidate is the boundary declaration of one of the functions, and
/// that function is exposed: it carries no calling convention and no skip
/// marker.
pub proof fn lemma_candidates_exposed_only(
    functions: Seq<FunctionView>,
    unit: usize,
    rules: RulesView,
    k: int,
)
    requires
        0 <= k < candidates_of(functions, unit, rules).len(),
    ensures
        exists|j: int|
            0 <= j < functions.len() && eligible(#[trigger] functions[j], rules)
                && functions[j].abi is None && !carries_marker(
                functions[j].attrs,
                rules.skip_marker,
            ) && candidates_of(functions, unit, rules)[k] == (CandidateView {
                unit,
                origin: functions[j].name,
                decl: boundary(functions[j], rules),
            }),
    decreases functions.len(),
{
    let rest = functions.drop_last();
    let before = candidates_of(rest, unit, rules);
    if k < before.len() {
        lemma_candidates_exposed_only(rest, unit, rules, k);
        let j = choose|j: int|
            0 <= j < rest.len() && eligible(#[trigger] rest[j], rules) && before[k] == (
            CandidateView { unit, origin: rest[j].name, decl: boundary(rest[j], rules) });
        assert(functions[j] == rest[j]);
    } else {
        assert(functions[functions.len() - 1] == functions.last());
    }
}

/// A function that is asynchronous, carries a calling convention or the
/// skip marker, or is not public gives no candidate.
pub proof fn lemma_no_candidate(f: FunctionView, unit: usize, rules: RulesView)
    requires
        f.is_async || f.abi is Some || !(f.vis is Public) || carries_marker(
            f.attrs,
            rules.skip_marker,
        ),
    ensures
        candidates_of(seq![f], unit, rules).len() == 0,
{
    Seq::lemma_filter_map_singleton(f, candidate_pick(unit, rules));
}

/// Where no function is exposed, there is no candidate.
pub proof fn lemma_no_candidates(functions: Seq<FunctionView>, unit: usize, rules: RulesView)
    requires
        forall|j: int| 0 <= j < functions.len() ==> !eligible(#[trigger] functions[j], rules),
    ensures
        candidates_of(functions, unit, rules).len() == 0,
{
    if candidates_of(functions, unit, rules).len() > 0 {
        lemma_candidates_exposed_only(functions, unit, rules, 0);
    }
}

/// The name of every function that carries a calling convention is recorded.
pub proof fn lemma_exposed_recorded(functions: Seq<FunctionView>, j: int)
    requires
        0 <= j < functions.len(),
        functions[j].abi is Some,
    ensures
        exposed_of(functions).contains(functions[j].name),
    decreases functions.len(),
{
    let rest = functions.drop_last();
    let before = exposed_of(rest);
    let now = exposed_of(functions);
    if j < rest.len() {
        lemma_exposed_recorded(rest, j);
        let m = choose|m: int| 0 <= m < before.len() && before[m] == rest[j].name;
        assert(now[m] == functions[j].name);
    } else {
        assert(now[before.len() as int] == functions[j].name);
    }
}


/// A boundary declaration that stands in a unit is not collected again,
/// whatever the rules of the later run: it exposes its symbol.
pub proof fn lemma_boundary_not_collected(
    f: FunctionView,
    rules: RulesView,
    unit: usize,
    later: RulesView,
)
    ensures
        !eligible(boundary(f, rules), later),
        candidates_of(seq![boundary(f, rules)], unit, later).len() == 0,
        exposed_of(seq![boundary(f, rules)]) == seq![f.name + rules.suffix],
{
    Seq::lemma_filter_map_singleton(boundary(f, rules), candidate_pick(unit, later));
    Seq::lemma_filter_map_singleton(boundary(f, rules), exposed_pick());
}


/// Every candidate carries the calling convention and the symbol directive
/// of the rules, and is named with the suffix.
pub proof fn lemma_candidates_marked(
    functions: Seq<FunctionView>,
    unit: usize,
    rules: RulesView,
    k: int,
)
    requires
        0 <= k < candidates_of(functions, unit, rules).len(),
    ensures
        candidates_of(functions, unit, rules)[k].decl.abi == Some(rules.abi),
        candidates_of(functions, unit, rules)[k].decl.attrs.contains(rules.symbol),
        candidates_of(functions, unit, rules)[k].decl.name == candidates_of(
            functions,
            unit,
            rules,
        )[k].origin + rules.suffix,
{
    lemma_candidates_exposed_only(functions, unit, rules, k);
    let j = choose|j: int|
        0 <= j < functions.len() && eligible(#[trigger] functions[j], rules) && candidates_of(
            functions,
            unit,
            rules,
        )[k] == (CandidateView {
            unit,
            origin: functions[j].name,
            decl: boundary(functions[j], rules),
        });
    let attrs = boundary(functions[j], rules).attrs;
    assert(attrs[attrs.len() - 1] == rules.symbol);
}

} // verus!
