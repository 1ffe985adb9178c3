//! What holds of the synthesized declarations: each symbol is synthesized
//! once, nothing that is exposed is synthesized again, every handle type
//! gets its entry points, and the shares of the units hand every
//! declaration out once.

use vstd::prelude::*;
use crate::bridge::{
    lifecycle, lifecycle_symbol, retained, role_tag, share_of, symbols, synthesized, wanted,
    wanted_entries, wanted_for, wanted_types, DeclarationView, Role,
};
use crate::collect::{
    exposed_of, functions_in, gathered, lemma_exposed_recorded, AccumulatorView, TypeRecordView,
};
use crate::model::ItemView;
use crate::ownership::{category, Ownership};
use crate::rules::RulesView;
use crate::text::lemma_same_ending;

verus! {

/// `s` is the symbol of exactly one of the declarations.
pub open spec fn declared_once(decls: Seq<DeclarationView>, s: Seq<char>) -> bool {
    exists|k: int|
        0 <= k < decls.len() && #[trigger] decls[k].decl.name == s && forall|m: int|
            0 <= m < decls.len() && #[trigger] decls[m].decl.name == s ==> m == k
}

/// What is kept was wanted, and its symbol was not exposed.
pub proof fn lemma_retained_wanted(wanted: Seq<DeclarationView>, exposed: Seq<Seq<char>>, k: int)
    requires
        0 <= k < retained(wanted, exposed).len(),
    ensures
        wanted.contains(retained(wanted, exposed)[k]),
        !exposed.contains(retained(wanted, exposed)[k].decl.name),
    decreases wanted.len(),
{
    let rest = wanted.drop_last();
    let kept = retained(rest, exposed);
    if k < kept.len() {
        lemma_retained_wanted(rest, exposed, k);
        let j = choose|j: int| 0 <= j < rest.len() && rest[j] == kept[k];
        assert(wanted[j] == kept[k]);
    } else {
        assert(wanted[wanted.len() - 1] == wanted.last());
    }
}

/// No two of the kept declarations have the same symbol.
pub proof fn lemma_retained_distinct(wanted: Seq<DeclarationView>, exposed: Seq<Seq<char>>)
    ensures
        symbols(retained(wanted, exposed)).no_duplicates(),
    decreases wanted.len(),
{
    if wanted.len() > 0 {
        let kept = retained(wanted.drop_last(), exposed);
        lemma_retained_distinct(wanted.drop_last(), exposed);
        let now = retained(wanted, exposed);
        assert forall|i: int, j: int|
            0 <= i < now.len() && 0 <= j < now.len() && i != j implies symbols(now)[i] != symbols(
            now,
        )[j] by {
            if now.len() > kept.len() {
                if i == kept.len() {
                    assert(symbols(kept)[j] == symbols(now)[j]);
                } else if j == kept.len() {
                    assert(symbols(kept)[i] == symbols(now)[i]);
                } else {
                    assert(symbols(kept)[i] != symbols(kept)[j]);
                }
            } else {
                assert(symbols(kept)[i] != symbols(kept)[j]);
            }
        }
    }
}

/// Every wanted symbol is exposed already or synthesized.
pub proof fn lemma_retained_covers(wanted: Seq<DeclarationView>, exposed: Seq<Seq<char>>, k: int)
    requires
        0 <= k < wanted.len(),
    ensures
        exposed.contains(wanted[k].decl.name) || symbols(retained(wanted, exposed)).contains(
            wanted[k].decl.name,
        ),
    decreases wanted.len(),
{
    let rest = wanted.drop_last();
    let kept = retained(rest, exposed);
    let now = retained(wanted, exposed);
    let s = wanted[k].decl.name;
    if k < wanted.len() - 1 {
        lemma_retained_covers(rest, exposed, k);
        if !exposed.contains(s) {
            let j = choose|j: int| 0 <= j < symbols(kept).len() && symbols(kept)[j] == s;
            assert(symbols(now)[j] == s);
        }
    } else {
        if !exposed.contains(s) && !symbols(kept).contains(s) {
            assert(symbols(now)[kept.len() as int] == s);
        }
    }
}

/// Where every wanted symbol is exposed already, nothing is synthesized.
pub proof fn lemma_nothing_new(wanted: Seq<DeclarationView>, exposed: Seq<Seq<char>>)
    requires
        forall|k: int| 0 <= k < wanted.len() ==> exposed.contains(#[trigger] wanted[k].decl.name),
    ensures
        retained(wanted, exposed).len() == 0,
    decreases wanted.len(),
{
    if wanted.len() > 0 {
        let rest = wanted.drop_last();
        assert forall|k: int| 0 <= k < rest.len() implies exposed.contains(
            #[trigger] rest[k].decl.name,
        ) by {
            assert(rest[k] == wanted[k]);
        }
        lemma_nothing_new(rest, exposed);
        assert(wanted.last() == wanted[wanted.len() - 1]);
    }
}

/// A symbol that is wanted and not exposed is synthesized exactly once.
pub proof fn lemma_wanted_once(wanted: Seq<DeclarationView>, exposed: Seq<Seq<char>>, k: int)
    requires
        0 <= k < wanted.len(),
        !exposed.contains(wanted[k].decl.name),
    ensures
        declared_once(retained(wanted, exposed), wanted[k].decl.name),
{
    let now = retained(wanted, exposed);
    let s = wanted[k].decl.name;
    lemma_retained_covers(wanted, exposed, k);
    lemma_retained_distinct(wanted, exposed);
    let j = choose|j: int| 0 <= j < symbols(now).len() && symbols(now)[j] == s;
    assert(now[j].decl.name == s);
    assert forall|m: int| 0 <= m < now.len() && #[trigger] now[m].decl.name == s implies m == j by {
        assert(symbols(now)[m] == symbols(now)[j]);
    }
}

/// What a recorded type asks for is among what the records ask for.
pub proof fn lemma_wanted_types_hold(
    types: Seq<TypeRecordView>,
    rules: RulesView,
    count: nat,
    i: int,
    d: DeclarationView,
)
    requires
        0 <= i < count,
        wanted_for(types[i], category(types, rules, i), rules).contains(d),
    ensures
        wanted_types(types, rules, count).contains(d),
    decreases count,
{
    let last = wanted_for(types[count - 1], category(types, rules, count - 1), rules);
    let before = wanted_types(types, rules, (count - 1) as nat);
    if i == count - 1 {
        let j = choose|j: int| 0 <= j < last.len() && last[j] == d;
        assert((before + last)[before.len() + j] == d);
    } else {
        lemma_wanted_types_hold(types, rules, (count - 1) as nat, i, d);
        let j = choose|j: int| 0 <= j < before.len() && before[j] == d;
        assert((before + last)[j] == d);
    }
}

/// A lifecycle entry point that a recorded type asks for, and whose symbol
/// is not exposed, is synthesized under that symbol exactly once.
pub proof fn lemma_lifecycle_once(acc: AccumulatorView, rules: RulesView, i: int, role: Role)
    requires
        0 <= i < acc.types.len(),
        wanted_for(acc.types[i], category(acc.types, rules, i), rules).contains(
            lifecycle(acc.types[i], category(acc.types, rules, i), role, rules),
        ),
        !acc.exposed.contains(lifecycle_symbol(acc.types[i].name, role, rules)),
    ensures
        declared_once(synthesized(acc, rules), lifecycle_symbol(acc.types[i].name, role, rules)),
{
    let d = lifecycle(acc.types[i], category(acc.types, rules, i), role, rules);
    let first = wanted_types(acc.types, rules, acc.types.len());
    lemma_wanted_types_hold(acc.types, rules, acc.types.len(), i, d);
    let j = choose|j: int| 0 <= j < first.len() && first[j] == d;
    let all = wanted(acc, rules);
    assert(all[j] == d);
    lemma_wanted_once(all, acc.exposed, j);
}

/// No synthesized declaration has the symbol of a function that carries
/// the calling convention already.
pub proof fn lemma_exposed_never_synthesized(acc: AccumulatorView, rules: RulesView, k: int)
    requires
        0 <= k < synthesized(acc, rules).len(),
    ensures
        !acc.exposed.contains(synthesized(acc, rules)[k].decl.name),
{
    lemma_retained_wanted(wanted(acc, rules), acc.exposed, k);
}

/// A function that carries a calling convention when it is collected is
/// never synthesized again: no declaration is made under its name.
pub proof fn lemma_marked_never_synthesized(
    acc: AccumulatorView,
    items: Seq<ItemView>,
    unit: usize,
    rules: RulesView,
    j: int,
    k: int,
)
    requires
        0 <= j < functions_in(items).len(),
        functions_in(items)[j].abi is Some,
        0 <= k < synthesized(gathered(acc, items, unit, rules), rules).len(),
    ensures
        synthesized(gathered(acc, items, unit, rules), rules)[k].decl.name != functions_in(
            items,
        )[j].name,
{
    let name = functions_in(items)[j].name;
    let found = exposed_of(functions_in(items));
    lemma_exposed_recorded(functions_in(items), j);
    let at = choose|at: int| 0 <= at < found.len() && found[at] == name;
    let after = gathered(acc, items, unit, rules);
    assert(after.exposed[acc.exposed.len() + at] == name);
    lemma_exposed_never_synthesized(after, rules, k);
}

/// The share of a unit holds what was made for that unit, and nothing else.
pub proof fn lemma_share_members(decls: Seq<DeclarationView>, unit: usize, d: DeclarationView)
    ensures
        share_of(decls, unit).contains(d) <==> decls.contains(d) && d.unit == unit,
    decreases decls.len(),
{
    if decls.len() > 0 {
        let rest = decls.drop_last();
        let last = decls.last();
        lemma_share_members(rest, unit, d);
        let share = share_of(decls, unit);
        let before = share_of(rest, unit);
        if share.contains(d) {
            let j = choose|j: int| 0 <= j < share.len() && share[j] == d;
            if j < before.len() {
                assert(before[j] == d);
                let m = choose|m: int| 0 <= m < rest.len() && rest[m] == d;
                assert(decls[m] == d);
            } else {
                assert(decls[decls.len() - 1] == d);
            }
        }
        if decls.contains(d) && d.unit == unit {
            let m = choose|m: int| 0 <= m < decls.len() && decls[m] == d;
            if m < rest.len() {
                assert(rest[m] == d);
                let j = choose|j: int| 0 <= j < before.len() && before[j] == d;
                assert(share[j] == d);
            } else {
                assert(share[before.len() as int] == d);
            }
        }
    }
}

/// How many declarations the shares of the first `units` units hold together.
pub open spec fn shares_len(decls: Seq<DeclarationView>, units: nat) -> nat
    decreases units,
{
    if units == 0 {
        0
    } else {
        shares_len(decls, (units - 1) as nat) + share_of(decls, (units - 1) as usize).len()
    }
}

/// Handing each unit its share hands every declaration out exactly once.
pub proof fn lemma_shares_partition(decls: Seq<DeclarationView>, units: nat)
    requires
        units <= usize::MAX,
        forall|k: int| 0 <= k < decls.len() ==> (#[trigger] decls[k]).unit < units,
    ensures
        shares_len(decls, units) == decls.len(),
    decreases decls.len(),
{
    if decls.len() == 0 {
        assert(decls =~= Seq::empty());
        lemma_shares_of_none(units);
    } else {
        assert(decls.last() == decls[decls.len() - 1]);
        let rest = decls.drop_last();
        assert forall|k: int| 0 <= k < rest.len() implies (#[trigger] rest[k]).unit < units by {
            assert(rest[k] == decls[k]);
        }
        lemma_shares_partition(rest, units);
        lemma_shares_one_more(decls, units);
    }
}

/// The shares of no declarations hold nothing.
proof fn lemma_shares_of_none(units: nat)
    ensures
        shares_len(Seq::empty(), units) == 0,
    decreases units,
{
    if units > 0 {
        lemma_shares_of_none((units - 1) as nat);
    }
}

/// One more declaration is one more in the shares, if it was made for one
/// of the units.
proof fn lemma_shares_one_more(decls: Seq<DeclarationView>, units: nat)
    requires
        decls.len() > 0,
        units <= usize::MAX,
    ensures
        shares_len(decls, units) == shares_len(decls.drop_last(), units) + if decls.last().unit
            < units {
            1nat
        } else {
            0nat
        },
    decreases units,
{
    if units > 0 {
        lemma_shares_one_more(decls, (units - 1) as nat);
    }
}


/// The symbol of a lifecycle entry point tells the type and the role.
pub proof fn lemma_symbol_tells(
    first: Seq<char>,
    role: Role,
    second: Seq<char>,
    other: Role,
    rules: RulesView,
)
    requires
        !(role is Entry),
        !(other is Entry),
        lifecycle_symbol(first, role, rules) == lifecycle_symbol(second, other, rules),
    ensures
        first == second,
        role == other,
{
    reveal_strlit("_new");
    reveal_strlit("_clone");
    reveal_strlit("_drop");
    let a = first + role_tag(role);
    let b = second + role_tag(other);
    lemma_same_ending(a, b, rules.suffix);
    assert(a.last() == role_tag(role).last());
    assert(b.last() == role_tag(other).last());
    assert(role == other);
    lemma_same_ending(first, second, role_tag(role));
}

/// What the types ask for are lifecycle entry points, named as such.
pub proof fn lemma_wanted_types_named(
    types: Seq<TypeRecordView>,
    rules: RulesView,
    count: nat,
    j: int,
)
    requires
        0 <= j < wanted_types(types, rules, count).len(),
    ensures
        !(wanted_types(types, rules, count)[j].role is Entry),
        wanted_types(types, rules, count)[j].decl.name == lifecycle_symbol(
            wanted_types(types, rules, count)[j].subject,
            wanted_types(types, rules, count)[j].role,
            rules,
        ),
    decreases count,
{
    let before = wanted_types(types, rules, (count - 1) as nat);
    if j < before.len() {
        lemma_wanted_types_named(types, rules, (count - 1) as nat, j);
    }
}

/// A kept declaration is the first of the wanted ones that has its symbol.
pub proof fn lemma_retained_first(wanted: Seq<DeclarationView>, exposed: Seq<Seq<char>>, k: int)
    requires
        0 <= k < retained(wanted, exposed).len(),
    ensures
        exists|j: int|
            0 <= j < wanted.len() && #[trigger] wanted[j] == retained(wanted, exposed)[k]
                && forall|i: int| 0 <= i < j ==> (#[trigger] wanted[i]).decl.name != wanted[j].decl.name,
    decreases wanted.len(),
{
    let rest = wanted.drop_last();
    let kept = retained(rest, exposed);
    if k < kept.len() {
        lemma_retained_first(rest, exposed, k);
        let j = choose|j: int|
            0 <= j < rest.len() && #[trigger] rest[j] == kept[k] && forall|i: int|
                0 <= i < j ==> (#[trigger] rest[i]).decl.name != rest[j].decl.name;
        assert(wanted[j] == rest[j]);
        assert forall|i: int| 0 <= i < j implies (#[trigger] wanted[i]).decl.name
            != wanted[j].decl.name by {
            assert(wanted[i] == rest[i]);
        }
    } else {
        let j = wanted.len() - 1;
        assert(wanted[j] == wanted.last());
        assert forall|i: int| 0 <= i < j implies (#[trigger] wanted[i]).decl.name
            != wanted[j].decl.name by {
            assert(wanted[i] == rest[i]);
            lemma_retained_covers(rest, exposed, i);
        }
    }
}

/// `decls` holds exactly one declaration of this role for this subject.
pub open spec fn made_once(decls: Seq<DeclarationView>, subject: Seq<char>, role: Role) -> bool {
    exists|k: int|
        0 <= k < decls.len() && (#[trigger] decls[k]).role == role && decls[k].subject == subject
            && forall|m: int|
            0 <= m < decls.len() && (#[trigger] decls[m]).role == role && decls[m].subject
                == subject ==> m == k
}

/// A lifecycle entry point that a recorded type asks for, and whose symbol
/// is not exposed, is synthesized for that type and in that role exactly
/// once.
pub proof fn lemma_lifecycle_made_once(acc: AccumulatorView, rules: RulesView, i: int, role: Role)
    requires
        0 <= i < acc.types.len(),
        !(role is Entry),
        wanted_for(acc.types[i], category(acc.types, rules, i), rules).contains(
            lifecycle(acc.types[i], category(acc.types, rules, i), role, rules),
        ),
        !acc.exposed.contains(lifecycle_symbol(acc.types[i].name, role, rules)),
    ensures
        made_once(synthesized(acc, rules), acc.types[i].name, role),
{
    let name = acc.types[i].name;
    let s = lifecycle_symbol(name, role, rules);
    let made = synthesized(acc, rules);
    let all = wanted(acc, rules);
    let first = wanted_types(acc.types, rules, acc.types.len());
    lemma_lifecycle_once(acc, rules, i, role);
    let k = choose|k: int|
        0 <= k < made.len() && #[trigger] made[k].decl.name == s && forall|m: int|
            0 <= m < made.len() && #[trigger] made[m].decl.name == s ==> m == k;
    // the declaration under the symbol is the first wanted one with it,
    // and the type's own stands among those that the types ask for
    lemma_retained_first(all, acc.exposed, k);
    let j = choose|j: int|
        0 <= j < all.len() && #[trigger] all[j] == made[k] && forall|n: int|
            0 <= n < j ==> (#[trigger] all[n]).decl.name != all[j].decl.name;
    let d = lifecycle(acc.types[i], category(acc.types, rules, i), role, rules);
    lemma_wanted_types_hold(acc.types, rules, acc.types.len(), i, d);
    let own = choose|own: int| 0 <= own < first.len() && first[own] == d;
    assert(all[own] == d);
    assert(j <= own);
    assert(all[j] == first[j]);
    lemma_wanted_types_named(acc.types, rules, acc.types.len(), j);
    lemma_symbol_tells(name, role, all[j].subject, all[j].role, rules);
    assert(made[k].role == role && made[k].subject == name);
    assert forall|m: int|
        0 <= m < made.len() && (#[trigger] made[m]).role == role && made[m].subject
            == name implies m == k by {
        lemma_retained_wanted(all, acc.exposed, m);
        let at = choose|at: int| 0 <= at < all.len() && all[at] == made[m];
        if at < first.len() {
            assert(all[at] == first[at]);
            lemma_wanted_types_named(acc.types, rules, acc.types.len(), at);
        } else {
            assert(all[at] == wanted_entries(acc.candidates)[at - first.len()]);
        }
        assert(made[m].decl.name == s);
    }
}

/// A public type that is a uniquely owned handle gets exactly one construct
/// and one destroy declaration, unless the symbols of the two are exposed
/// already.
pub proof fn lemma_unique_handle_paired(acc: AccumulatorView, rules: RulesView, i: int)
    requires
        0 <= i < acc.types.len(),
        acc.types[i].exported,
        category(acc.types, rules, i) is Unique,
        !acc.exposed.contains(lifecycle_symbol(acc.types[i].name, Role::Construct, rules)),
        !acc.exposed.contains(lifecycle_symbol(acc.types[i].name, Role::Destroy, rules)),
    ensures
        made_once(synthesized(acc, rules), acc.types[i].name, Role::Construct),
        made_once(synthesized(acc, rules), acc.types[i].name, Role::Destroy),
{
    let t = acc.types[i];
    let w = wanted_for(t, Ownership::Unique, rules);
    assert(w[0] == lifecycle(t, Ownership::Unique, Role::Construct, rules));
    assert(w[1] == lifecycle(t, Ownership::Unique, Role::Destroy, rules));
    lemma_lifecycle_made_once(acc, rules, i, Role::Construct);
    lemma_lifecycle_made_once(acc, rules, i, Role::Destroy);
}

/// A public type that is a shared handle gets exactly one construct, one
/// share and one destroy declaration, unless the symbols of the three are
/// exposed already.
pub proof fn lemma_shared_handle_paired(acc: AccumulatorView, rules: RulesView, i: int)
    requires
        0 <= i < acc.types.len(),
        acc.types[i].exported,
        category(acc.types, rules, i) is Shared,
        !acc.exposed.contains(lifecycle_symbol(acc.types[i].name, Role::Construct, rules)),
        !acc.exposed.contains(lifecycle_symbol(acc.types[i].name, Role::Share, rules)),
        !acc.exposed.contains(lifecycle_symbol(acc.types[i].name, Role::Destroy, rules)),
    ensures
        made_once(synthesized(acc, rules), acc.types[i].name, Role::Construct),
        made_once(synthesized(acc, rules), acc.types[i].name, Role::Share),
        made_once(synthesized(acc, rules), acc.types[i].name, Role::Destroy),
{
    let t = acc.types[i];
    let w = wanted_for(t, Ownership::Shared, rules);
    assert(w[0] == lifecycle(t, Ownership::Shared, Role::Construct, rules));
    assert(w[1] == lifecycle(t, Ownership::Shared, Role::Share, rules));
    assert(w[2] == lifecycle(t, Ownership::Shared, Role::Destroy, rules));
    lemma_lifecycle_made_once(acc, rules, i, Role::Construct);
    lemma_lifecycle_made_once(acc, rules, i, Role::Share);
    lemma_lifecycle_made_once(acc, rules, i, Role::Destroy);
}

/// A run over what an earlier run left synthesizes nothing: where the
/// later run wants no symbol that the earlier run did not want, and every
/// symbol is exposed that the earlier run found exposed or synthesized,
/// nothing is left to add.
pub proof fn lemma_rerun_adds_nothing(acc: AccumulatorView, again: AccumulatorView, rules: RulesView)
    requires
        forall|k: int|
            0 <= k < wanted(again, rules).len() ==> exists|j: int|
                0 <= j < wanted(acc, rules).len() && (#[trigger] wanted(acc, rules)[j]).decl.name
                    == (#[trigger] wanted(again, rules)[k]).decl.name,
        forall|s: Seq<char>| acc.exposed.contains(s) ==> again.exposed.contains(s),
        forall|k: int|
            0 <= k < synthesized(acc, rules).len() ==> again.exposed.contains(
                #[trigger] synthesized(acc, rules)[k].decl.name,
            ),
    ensures
        synthesized(again, rules).len() == 0,
{
    let made = synthesized(acc, rules);
    let before = wanted(acc, rules);
    let now = wanted(again, rules);
    assert forall|k: int| 0 <= k < now.len() implies again.exposed.contains(
        #[trigger] now[k].decl.name,
    ) by {
        let s = now[k].decl.name;
        let j = choose|j: int|
            0 <= j < before.len() && (#[trigger] before[j]).decl.name == now[k].decl.name;
        lemma_retained_covers(before, acc.exposed, j);
        if !acc.exposed.contains(s) {
            let m = choose|m: int| 0 <= m < symbols(made).len() && symbols(made)[m] == s;
            assert(made[m].decl.name == s);
        }
    }
    lemma_nothing_new(now, again.exposed);
}

/// The later run wants no symbol that the earlier run did not want where it
/// finds the same types and no candidate under a symbol that the earlier
/// run had no candidate under.
pub proof fn lemma_same_wants(acc: AccumulatorView, again: AccumulatorView, rules: RulesView)
    requires
        again.types == acc.types,
        forall|c: int|
            0 <= c < again.candidates.len() ==> exists|b: int|
                0 <= b < acc.candidates.len() && (#[trigger] acc.candidates[b]).decl.name == (
                #[trigger] again.candidates[c]).decl.name,
    ensures
        forall|k: int|
            0 <= k < wanted(again, rules).len() ==> exists|j: int|
                0 <= j < wanted(acc, rules).len() && (#[trigger] wanted(acc, rules)[j]).decl.name
                    == (#[trigger] wanted(again, rules)[k]).decl.name,
{
    let before = wanted(acc, rules);
    let now = wanted(again, rules);
    let first = wanted_types(acc.types, rules, acc.types.len());
    assert forall|k: int| 0 <= k < now.len() implies exists|j: int|
        0 <= j < before.len() && (#[trigger] before[j]).decl.name == (#[trigger] now[k]).decl.name by {
        if k < first.len() {
            assert(now[k] == first[k]);
            assert(before[k] == first[k]);
            assert(before[k].decl.name == now[k].decl.name);
        } else {
            let c = k - first.len();
            assert(now[k] == wanted_entries(again.candidates)[c]);
            let b = choose|b: int|
                0 <= b < acc.candidates.len() && (#[trigger] acc.candidates[b]).decl.name == (
                again.candidates[c]).decl.name;
            assert(before[first.len() + b] == wanted_entries(acc.candidates)[b]);
            assert(before[first.len() + b].decl.name == now[k].decl.name);
        }
    }
}

/// Every synthesized declaration carries the calling convention and the
/// symbol directive of the rules, provided the candidates do, as those that
/// the first pass collects under the same rules do.
pub proof fn lemma_synthesized_marked(acc: AccumulatorView, rules: RulesView, k: int)
    requires
        0 <= k < synthesized(acc, rules).len(),
        forall|c: int|
            0 <= c < acc.candidates.len() ==> (#[trigger] acc.candidates[c]).decl.abi == Some(
                rules.abi,
            ) && acc.candidates[c].decl.attrs.contains(rules.symbol),
    ensures
        synthesized(acc, rules)[k].decl.abi == Some(rules.abi),
        synthesized(acc, rules)[k].decl.attrs.contains(rules.symbol),
{
    let all = wanted(acc, rules);
    let first = wanted_types(acc.types, rules, acc.types.len());
    lemma_retained_wanted(all, acc.exposed, k);
    let at = choose|at: int| 0 <= at < all.len() && all[at] == synthesized(acc, rules)[k];
    if at < first.len() {
        assert(all[at] == first[at]);
        lemma_wanted_types_marked(acc.types, rules, acc.types.len(), at);
    } else {
        assert(all[at] == wanted_entries(acc.candidates)[at - first.len()]);
        assert(all[at].decl == acc.candidates[at - first.len()].decl);
    }
}

/// What the types ask for carries the calling convention and the symbol
/// directive of the rules.
proof fn lemma_wanted_types_marked(types: Seq<TypeRecordView>, rules: RulesView, count: nat, j: int)
    requires
        0 <= j < wanted_types(types, rules, count).len(),
    ensures
        wanted_types(types, rules, count)[j].decl.abi == Some(rules.abi),
        wanted_types(types, rules, count)[j].decl.attrs.contains(rules.symbol),
    decreases count,
{
    let before = wanted_types(types, rules, (count - 1) as nat);
    if j < before.len() {
        lemma_wanted_types_marked(types, rules, (count - 1) as nat, j);
    } else {
        let d = wanted_types(types, rules, count)[j];
        assert(d.decl.attrs[0] == rules.symbol);
    }
}


/// Whatever the types ask for is asked for by one of them, for itself.
pub proof fn lemma_wanted_types_origin(
    types: Seq<TypeRecordView>,
    rules: RulesView,
    count: nat,
    j: int,
)
    requires
        0 <= j < wanted_types(types, rules, count).len(),
    ensures
        exists|i: int|
            0 <= i < count && wanted_for(
                #[trigger] types[i],
                category(types, rules, i),
                rules,
            ).contains(wanted_types(types, rules, count)[j]) && wanted_types(
                types,
                rules,
                count,
            )[j].subject == types[i].name,
    decreases count,
{
    let before = wanted_types(types, rules, (count - 1) as nat);
    let last = wanted_for(types[count - 1], category(types, rules, count - 1), rules);
    if j < before.len() {
        lemma_wanted_types_origin(types, rules, (count - 1) as nat, j);
    } else {
        assert(last[j - before.len()] == wanted_types(types, rules, count)[j]);
    }
}

/// A name under which no public type is a handle gets no lifecycle entry
/// point: a value crosses the boundary with its layout alone.
pub proof fn lemma_value_gets_nothing(
    acc: AccumulatorView,
    rules: RulesView,
    name: Seq<char>,
    k: int,
)
    requires
        forall|i: int|
            0 <= i < acc.types.len() && (#[trigger] acc.types[i]).name == name
                ==> !acc.types[i].exported || category(acc.types, rules, i) is Value,
        0 <= k < synthesized(acc, rules).len(),
        synthesized(acc, rules)[k].subject == name,
    ensures
        synthesized(acc, rules)[k].role is Entry,
{
    let all = wanted(acc, rules);
    let first = wanted_types(acc.types, rules, acc.types.len());
    lemma_retained_wanted(all, acc.exposed, k);
    let at = choose|at: int| 0 <= at < all.len() && all[at] == synthesized(acc, rules)[k];
    if at < first.len() {
        assert(all[at] == first[at]);
        lemma_wanted_types_origin(acc.types, rules, acc.types.len(), at);
    } else {
        assert(all[at] == wanted_entries(acc.candidates)[at - first.len()]);
    }
}

} // verus!
