//! The ownership category of an aggregate type, derived from its fields.
//!
//! A type holds an owner if the type of one of its fields names an owner of
//! the table, or names a recorded type that holds one. A type that holds no
//! owner is a value; one that holds owners of one kind is a handle of that
//! kind; one that holds both kinds is resolved by the rules.

use vstd::prelude::*;
use crate::collect::{TypeRecord, TypeRecordView};
use crate::rules::{Rules, RulesView};
use crate::text::{is_listed, views_of};

verus! {

/// How a value of a type crosses the boundary.
#[derive(Clone, Copy, Debug, PartialEq, Eq)]
pub enum Ownership {
    /// No owner inside: copied by content.
    Value,
    /// Exclusive ownership is handed over.
    Unique,
    /// Reference counted: the two sides share the lifetime.
    Shared,
}

/// The type of one of the fields names an owner of the table.
pub open spec fn mentions_owner(t: TypeRecordView, owners: Seq<Seq<char>>) -> bool {
    exists|k: int| 0 <= k < t.field_types.len() && owners.contains(#[trigger] t.field_types[k])
}

/// The type of one of the fields of type `i` names type `j`.
pub open spec fn refers(types: Seq<TypeRecordView>, i: int, j: int) -> bool {
    types[i].field_types.contains(types[j].name)
}

/// Type `i` holds an owner of the table directly, or through a chain of at
/// most `depth` recorded types.
pub open spec fn holds_within(
    types: Seq<TypeRecordView>,
    owners: Seq<Seq<char>>,
    i: int,
    depth: nat,
) -> bool
    decreases depth,
{
    ||| mentions_owner(types[i], owners)
    ||| depth > 0 && exists|j: int|
        0 <= j < types.len() && #[trigger] refers(types, i, j) && holds_within(
            types,
            owners,
            j,
            (depth - 1) as nat,
        )
}

/// Type `i` holds an owner of the table, directly or through recorded types.
pub open spec fn holds(types: Seq<TypeRecordView>, owners: Seq<Seq<char>>, i: int) -> bool {
    exists|depth: nat| holds_within(types, owners, i, depth)
}

/// The category of type `i`. A type that holds both kinds of owner is a
/// shared handle if it carries the marker or the rules say so, and a
/// uniquely owned one otherwise.
pub open spec fn category(types: Seq<TypeRecordView>, rules: RulesView, i: int) -> Ownership {
    let unique = holds(types, rules.unique_owners, i);
    let shared = holds(types, rules.shared_owners, i);
    if unique && shared {
        if types[i].prefers_shared || rules.mixed_is_shared {
            Ownership::Shared
        } else {
            Ownership::Unique
        }
    } else if unique {
        Ownership::Unique
    } else if shared {
        Ownership::Shared
    } else {
        Ownership::Value
    }
}

/// How many of the marks are not set.
pub open spec fn unset(marks: Seq<bool>) -> nat
    decreases marks.len(),
{
    if marks.len() == 0 {
        0
    } else {
        unset(marks.drop_last()) + if marks.last() {
            0nat
        } else {
            1nat
        }
    }
}

/// Setting marks leaves fewer unset, and strictly fewer if one was set anew.
proof fn lemma_unset_shrinks(a: Seq<bool>, b: Seq<bool>)
    requires
        a.len() == b.len(),
        forall|i: int| 0 <= i < a.len() ==> (a[i] ==> b[i]),
    ensures
        unset(b) <= unset(a),
        (exists|i: int| 0 <= i < a.len() && !a[i] && b[i]) ==> unset(b) < unset(a),
    decreases a.len(),
{
    if a.len() > 0 {
        let a0 = a.drop_last();
        let b0 = b.drop_last();
        assert forall|i: int| 0 <= i < a0.len() && a0[i] implies b0[i] by {
            assert(a0[i] == a[i] && b0[i] == b[i]);
        }
        lemma_unset_shrinks(a0, b0);
        if exists|i: int| 0 <= i < a.len() && !a[i] && b[i] {
            let i = choose|i: int| 0 <= i < a.len() && !a[i] && b[i];
            if i < a.len() - 1 {
                assert(!a0[i] && b0[i]);
            }
        }
    }
}

/// What holds within a depth holds within every greater depth.
pub proof fn lemma_holds_monotone(
    types: Seq<TypeRecordView>,
    owners: Seq<Seq<char>>,
    i: int,
    depth: nat,
    more: nat,
)
    requires
        holds_within(types, owners, i, depth),
        depth <= more,
    ensures
        holds_within(types, owners, i, more),
    decreases depth,
{
    if !mentions_owner(types[i], owners) {
        let j = choose|j: int|
            0 <= j < types.len() && #[trigger] refers(types, i, j) && holds_within(
                types,
                owners,
                j,
                (depth - 1) as nat,
            );
        lemma_holds_monotone(types, owners, j, (depth - 1) as nat, (more - 1) as nat);
    }
}

/// Once one more step of depth adds nothing, no further depth adds anything.
proof fn lemma_settled(types: Seq<TypeRecordView>, owners: Seq<Seq<char>>, depth: nat, more: nat)
    requires
        forall|i: int|
            0 <= i < types.len() ==> holds_within(types, owners, i, depth + 1) == holds_within(
                types,
                owners,
                i,
                depth,
            ),
    ensures
        forall|i: int|
            0 <= i < types.len() ==> holds_within(types, owners, i, depth + more) == holds_within(
                types,
                owners,
                i,
                depth,
            ),
    decreases more,
{
    if more > 0 {
        lemma_settled(types, owners, depth, (more - 1) as nat);
        assert forall|i: int| 0 <= i < types.len() implies holds_within(
            types,
            owners,
            i,
            depth + more,
        ) == holds_within(types, owners, i, depth) by {
            let prev = (depth + more - 1) as nat;
            if holds_within(types, owners, i, depth + more) && !mentions_owner(types[i], owners) {
                let j = choose|j: int|
                    0 <= j < types.len() && #[trigger] refers(types, i, j) && holds_within(
                        types,
                        owners,
                        j,
                        prev,
                    );
                assert(holds_within(types, owners, j, depth));
                assert(holds_within(types, owners, i, depth + 1));
            }
            if holds_within(types, owners, i, depth) {
                lemma_holds_monotone(types, owners, i, depth, depth + more);
            }
        }
    }
}

/// Once one more step of depth adds nothing, what holds at all holds
/// within that depth.
proof fn lemma_settled_holds(types: Seq<TypeRecordView>, owners: Seq<Seq<char>>, depth: nat)
    requires
        forall|i: int|
            0 <= i < types.len() ==> holds_within(types, owners, i, depth + 1) == holds_within(
                types,
                owners,
                i,
                depth,
            ),
    ensures
        forall|i: int|
            0 <= i < types.len() ==> holds(types, owners, i) == holds_within(
                types,
                owners,
                i,
                depth,
            ),
{
    assert forall|i: int| 0 <= i < types.len() implies holds(types, owners, i) == holds_within(
        types,
        owners,
        i,
        depth,
    ) by {
        if holds(types, owners, i) {
            let d = choose|d: nat| holds_within(types, owners, i, d);
            if d <= depth {
                lemma_holds_monotone(types, owners, i, d, depth);
            } else {
                lemma_settled(types, owners, depth, (d - depth) as nat);
                assert(depth + (d - depth) as nat == d);
            }
        }
    }
}

/// A type whose field names an owner of the table holds one.
pub proof fn lemma_owner_direct(types: Seq<TypeRecordView>, owners: Seq<Seq<char>>, i: int)
    requires
        mentions_owner(types[i], owners),
    ensures
        holds(types, owners, i),
{
    assert(holds_within(types, owners, i, 0));
}

/// A type whose field names a recorded type that holds an owner holds one too.
pub proof fn lemma_owner_inherited(
    types: Seq<TypeRecordView>,
    owners: Seq<Seq<char>>,
    i: int,
    j: int,
)
    requires
        0 <= j < types.len(),
        refers(types, i, j),
        holds(types, owners, j),
    ensures
        holds(types, owners, i),
{
    let d = choose|d: nat| holds_within(types, owners, j, d);
    assert(holds_within(types, owners, i, d + 1));
}

/// A type holds an owner only for one of these two reasons.
pub proof fn lemma_owner_reason(types: Seq<TypeRecordView>, owners: Seq<Seq<char>>, i: int)
    requires
        holds(types, owners, i),
    ensures
        mentions_owner(types[i], owners) || exists|j: int|
            0 <= j < types.len() && #[trigger] refers(types, i, j) && holds(types, owners, j),
{
    let d = choose|d: nat| holds_within(types, owners, i, d);
    if !mentions_owner(types[i], owners) {
        let j = choose|j: int|
            0 <= j < types.len() && #[trigger] refers(types, i, j) && holds_within(
                types,
                owners,
                j,
                (d - 1) as nat,
            );
        assert(holds(types, owners, j));
    }
}

/// Whether the type of one of the fields names an owner of the table.
fn names_owner(t: &TypeRecord, owners: &Vec<String>) -> (found: bool)
    ensures
        found == mentions_owner(t@, views_of(owners@)),
{
    let mut k: usize = 0;
    while k < t.field_types.len()
        invariant
            k <= t.field_types@.len(),
            forall|m: int| 0 <= m < k ==> !views_of(owners@).contains(#[trigger] t@.field_types[m]),
        decreases t.field_types@.len() - k,
    {
        if is_listed(owners, t.field_types[k].as_str()) {
            assert(views_of(owners@).contains(t@.field_types[k as int]));
            return true;
        }
        k += 1;
    }
    false
}

/// Whether a field of type `i` names a type that is marked.
fn inherits(types: &Vec<TypeRecord>, i: usize, marks: &Vec<bool>) -> (found: bool)
    requires
        i < types@.len(),
        marks@.len() == types@.len(),
    ensures
        found == exists|j: int|
            0 <= j < types@.len() && #[trigger] refers(views_of(types@), i as int, j) && marks@[j],
{
    let mut j: usize = 0;
    while j < types.len()
        invariant
            j <= types@.len(),
            i < types@.len(),
            marks@.len() == types@.len(),
            forall|m: int|
                0 <= m < j ==> !(#[trigger] refers(views_of(types@), i as int, m) && marks@[m]),
        decreases types@.len() - j,
    {
        if marks[j] && is_listed(&types[i].field_types, types[j].name.as_str()) {
            assert(refers(views_of(types@), i as int, j as int));
            return true;
        }
        j += 1;
    }
    false
}

/// For each type, whether it holds an owner of the table.
pub fn owner_marks(types: &Vec<TypeRecord>, owners: &Vec<String>) -> (marks: Vec<bool>)
    ensures
        marks@.len() == types@.len(),
        forall|i: int|
            0 <= i < types@.len() ==> marks@[i] == holds(views_of(types@), views_of(owners@), i),
{
    let ghost all = views_of(types@);
    let ghost table = views_of(owners@);
    let mut marks: Vec<bool> = Vec::new();
    let mut i: usize = 0;
    while i < types.len()
        invariant
            i <= types@.len(),
            all == views_of(types@),
            table == views_of(owners@),
            marks@.len() == i,
            forall|m: int| 0 <= m < i ==> marks@[m] == holds_within(all, table, m, 0),
        decreases types@.len() - i,
    {
        marks.push(names_owner(&types[i], owners));
        i += 1;
    }
    let ghost mut depth: nat = 0;
    loop
        invariant
            all == views_of(types@),
            table == views_of(owners@),
            marks@.len() == types@.len(),
            forall|m: int| 0 <= m < types@.len() ==> marks@[m] == holds_within(all, table, m, depth),
        decreases unset(marks@),
    {
        let mut next: Vec<bool> = Vec::new();
        let mut changed = false;
        let mut i: usize = 0;
        while i < types.len()
            invariant
                i <= types@.len(),
                all == views_of(types@),
                table == views_of(owners@),
                marks@.len() == types@.len(),
                next@.len() == i,
                forall|m: int|
                    0 <= m < types@.len() ==> marks@[m] == holds_within(all, table, m, depth),
                forall|m: int| 0 <= m < i ==> next@[m] == holds_within(all, table, m, depth + 1),
                changed == exists|m: int| 0 <= m < i && !marks@[m] && next@[m],
            decreases types@.len() - i,
        {
            let found = marks[i] || inherits(types, i, &marks);
            proof {
                if marks@[i as int] {
                    lemma_holds_monotone(all, table, i as int, depth, depth + 1);
                }
                if holds_within(all, table, i as int, depth + 1) && !mentions_owner(
                    all[i as int],
                    table,
                ) {
                    let j = choose|j: int|
                        0 <= j < all.len() && #[trigger] refers(all, i as int, j) && holds_within(
                            all,
                            table,
                            j,
                            depth,
                        );
                    assert(refers(all, i as int, j) && marks@[j]);
                }
                if !marks@[i as int] && found {
                    let j = choose|j: int|
                        0 <= j < types@.len() && #[trigger] refers(all, i as int, j) && marks@[j];
                    assert(holds_within(all, table, j, depth));
                }
            }
            if found && !marks[i] {
                changed = true;
            }
            let ghost before = next@;
            next.push(found);
            proof {
                assert(forall|m: int| 0 <= m < i ==> next@[m] == before[m]);
                if changed {
                    if found && !marks@[i as int] {
                        assert(!marks@[i as int] && next@[i as int]);
                    } else {
                        let m = choose|m: int| 0 <= m < i && !marks@[m] && before[m];
                        assert(!marks@[m] && next@[m]);
                    }
                }
            }
            i += 1;
        }
        if !changed {
            proof {
                assert forall|m: int| 0 <= m < all.len() implies holds_within(
                    all,
                    table,
                    m,
                    depth + 1,
                ) == holds_within(all, table, m, depth) by {
                    if holds_within(all, table, m, depth) {
                        lemma_holds_monotone(all, table, m, depth, depth + 1);
                    }
                    if next@[m] && !marks@[m] {
                        assert(!marks@[m] && next@[m]);
                    }
                }
                lemma_settled_holds(all, table, depth);
            }
            return marks;
        }
        proof {
            assert forall|m: int| 0 <= m < marks@.len() && marks@[m] implies next@[m] by {
                lemma_holds_monotone(all, table, m, depth, depth + 1);
            }
            lemma_unset_shrinks(marks@, next@);
            depth = depth + 1;
        }
        marks = next;
    }
}

/// The category of each recorded type, in the order of the records.
pub fn classify(types: &Vec<TypeRecord>, rules: &Rules) -> (out: Vec<Ownership>)
    ensures
        out@.len() == types@.len(),
        forall|i: int| 0 <= i < types@.len() ==> out@[i] == category(views_of(types@), rules@, i),
{
    let unique = owner_marks(types, &rules.unique_owners);
    let shared = owner_marks(types, &rules.shared_owners);
    let mut out: Vec<Ownership> = Vec::new();
    let mut i: usize = 0;
    while i < types.len()
        invariant
            i <= types@.len(),
            unique@.len() == types@.len(),
            shared@.len() == types@.len(),
            out@.len() == i,
            forall|m: int|
                0 <= m < types@.len() ==> unique@[m] == holds(
                    views_of(types@),
                    rules@.unique_owners,
                    m,
                ),
            forall|m: int|
                0 <= m < types@.len() ==> shared@[m] == holds(
                    views_of(types@),
                    rules@.shared_owners,
                    m,
                ),
            forall|m: int| 0 <= m < i ==> out@[m] == category(views_of(types@), rules@, m),
        decreases types@.len() - i,
    {
        let kind = if unique[i] && shared[i] {
            if types[i].prefers_shared || rules.mixed_is_shared {
                Ownership::Shared
            } else {
                Ownership::Unique
            }
        } else if unique[i] {
            Ownership::Unique
        } else if shared[i] {
            Ownership::Shared
        } else {
            Ownership::Value
        };
        out.push(kind);
        i += 1;
    }
    out
}

} // verus!
