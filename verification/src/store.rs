//! The insertion-ordered hash sets and maps that hold the environment.
//!
//! The collections are `indexmap`'s; nothing here is proved of them. Each
//! function of this file makes one call into `indexmap` and states what the
//! crate documents of it, over the sequence of items that the collection
//! holds in insertion order. The collections tell items apart by the `Eq`
//! and `Hash` that the item types derive, which go by every field; the
//! statements here take two items for equal when their fields are.

use crate::declar::{Declar, DeclarNode, RecRule};
use crate::expr::{Expr, ExprNode, ExprPtr};
use crate::name::{Name, NameNode, NamePtr};
use crate::universe::{Universe, UniversePtr};
use indexmap::{IndexMap, IndexSet};
use rustc_hash::FxBuildHasher;
use vstd::prelude::*;

verus! {

/// `rustc_hash::FxBuildHasher`, the hasher of the collections: nothing is
/// known of what is inside.
#[verifier::external_type_specification]
#[verifier::external_body]
pub struct ExFxBuildHasher(FxBuildHasher);

/// `indexmap::IndexSet`: nothing is known of what is inside but what the
/// functions below state.
#[verifier::external_type_specification]
#[verifier::external_body]
#[verifier::reject_recursive_types(T)]
#[verifier::reject_recursive_types(S)]
pub struct ExIndexSet<T, S>(IndexSet<T, S>);

/// `indexmap::IndexMap`: nothing is known of what is inside but what the
/// functions below state.
#[verifier::external_type_specification]
#[verifier::external_body]
#[verifier::reject_recursive_types(K)]
#[verifier::reject_recursive_types(V)]
#[verifier::reject_recursive_types(S)]
pub struct ExIndexMap<K, V, S>(IndexMap<K, V, S>);

pub type FxIndexSet<A> = IndexSet<A, FxBuildHasher>;

pub type FxIndexMap<K, V> = IndexMap<K, V, FxBuildHasher>;

/// How an `insert_full` of `v` relates the items before and after it to the
/// pair it returns: an item that is present keeps its place and the set is
/// unchanged; one that is not is appended.
pub open spec fn interned<T>(before: Seq<T>, after: Seq<T>, v: T, r: (usize, bool)) -> bool {
    if before.contains(v) {
        &&& after == before
        &&& !r.1
        &&& r.0 < before.len()
        &&& before[r.0 as int] == v
    } else {
        &&& after == before.push(v)
        &&& r.1
        &&& r.0 == before.len()
    }
}

/// What a lookup by value returns: the position of `v`, or nothing when
/// `v` is no item.
pub open spec fn position_of<T>(items: Seq<T>, v: T, r: Option<usize>) -> bool {
    match r {
        Some(i) => i < items.len() && items[i as int] == v,
        None => !items.contains(v),
    }
}

/// The names that the set holds, in insertion order.
pub uninterp spec fn name_items(s: FxIndexSet<Name>) -> Seq<NameNode>;

/// `IndexSet::with_hasher`: a set without items.
#[verifier::external_body]
pub(crate) fn names_new() -> (s: FxIndexSet<Name>)
    ensures
        name_items(s) == Seq::<NameNode>::empty(),
{
    IndexSet::with_hasher(FxBuildHasher)
}

/// `IndexSet::insert_full`: the position of an equal item that the set
/// holds already, or else the position at the end where `v` was appended.
#[verifier::external_body]
pub(crate) fn names_insert_full(s: &mut FxIndexSet<Name>, v: Name) -> (r: (usize, bool))
    ensures
        interned(name_items(*old(s)), name_items(*final(s)), v@, r),
{
    s.insert_full(v)
}

/// `IndexSet::get_index`: a copy of the item at position `i`, if there is
/// one.
#[verifier::external_body]
pub(crate) fn names_get_index(s: &FxIndexSet<Name>, i: usize) -> (r: Option<Name>)
    ensures
        i < name_items(*s).len() <==> r is Some,
        r is Some ==> r.unwrap()@ == name_items(*s)[i as int],
{
    s.get_index(i).cloned()
}

/// `IndexSet::len`: the number of items.
#[verifier::external_body]
pub(crate) fn names_len(s: &FxIndexSet<Name>) -> (n: usize)
    ensures
        n == name_items(*s).len(),
{
    s.len()
}

/// The levels that the set holds, in insertion order.
pub uninterp spec fn universe_items(s: FxIndexSet<Universe>) -> Seq<Universe>;

/// `IndexSet::with_hasher`: a set without items.
#[verifier::external_body]
pub(crate) fn universes_new() -> (s: FxIndexSet<Universe>)
    ensures
        universe_items(s) == Seq::<Universe>::empty(),
{
    IndexSet::with_hasher(FxBuildHasher)
}

/// `IndexSet::insert_full`: the position of an equal item that the set
/// holds already, or else the position at the end where `v` was appended.
#[verifier::external_body]
pub(crate) fn universes_insert_full(s: &mut FxIndexSet<Universe>, v: Universe) -> (r: (usize, bool))
    ensures
        interned(universe_items(*old(s)), universe_items(*final(s)), v, r),
{
    s.insert_full(v)
}

/// `IndexSet::get_index`: a copy of the item at position `i`, if there is
/// one.
#[verifier::external_body]
pub(crate) fn universes_get_index(s: &FxIndexSet<Universe>, i: usize) -> (r: Option<Universe>)
    ensures
        i < universe_items(*s).len() <==> r is Some,
        r is Some ==> r.unwrap() == universe_items(*s)[i as int],
{
    s.get_index(i).cloned()
}

/// `IndexSet::len`: the number of items.
#[verifier::external_body]
pub(crate) fn universes_len(s: &FxIndexSet<Universe>) -> (n: usize)
    ensures
        n == universe_items(*s).len(),
{
    s.len()
}

/// `IndexSet::get_index_of`: the position of the item equal to `v`, if
/// the set holds one.
#[verifier::external_body]
pub(crate) fn universes_get_index_of(s: &FxIndexSet<Universe>, v: &Universe) -> (r: Option<usize>)
    ensures
        position_of(universe_items(*s), *v, r),
{
    s.get_index_of(v)
}

/// The expressions that the set holds, in insertion order.
pub uninterp spec fn expr_items(s: FxIndexSet<Expr>) -> Seq<ExprNode>;

/// `IndexSet::with_hasher`: a set without items.
#[verifier::external_body]
pub(crate) fn exprs_new() -> (s: FxIndexSet<Expr>)
    ensures
        expr_items(s) == Seq::<ExprNode>::empty(),
{
    IndexSet::with_hasher(FxBuildHasher)
}

/// `IndexSet::insert_full`: the position of an equal item that the set
/// holds already, or else the position at the end where `v` was appended.
#[verifier::external_body]
pub(crate) fn exprs_insert_full(s: &mut FxIndexSet<Expr>, v: Expr) -> (r: (usize, bool))
    ensures
        interned(expr_items(*old(s)), expr_items(*final(s)), v@, r),
{
    s.insert_full(v)
}

/// `IndexSet::get_index`: a copy of the item at position `i`, if there is
/// one.
#[verifier::external_body]
pub(crate) fn exprs_get_index(s: &FxIndexSet<Expr>, i: usize) -> (r: Option<Expr>)
    ensures
        i < expr_items(*s).len() <==> r is Some,
        r is Some ==> r.unwrap()@ == expr_items(*s)[i as int],
{
    s.get_index(i).cloned()
}

/// `IndexSet::len`: the number of items.
#[verifier::external_body]
pub(crate) fn exprs_len(s: &FxIndexSet<Expr>) -> (n: usize)
    ensures
        n == expr_items(*s).len(),
{
    s.len()
}

/// The recursor rules that the set holds, in insertion order.
pub uninterp spec fn rec_rule_items(s: FxIndexSet<RecRule>) -> Seq<RecRule>;

/// `IndexSet::with_hasher`: a set without items.
#[verifier::external_body]
pub(crate) fn rec_rules_new() -> (s: FxIndexSet<RecRule>)
    ensures
        rec_rule_items(s) == Seq::<RecRule>::empty(),
{
    IndexSet::with_hasher(FxBuildHasher)
}

/// `IndexSet::insert_full`: the position of an equal item that the set
/// holds already, or else the position at the end where `v` was appended.
#[verifier::external_body]
pub(crate) fn rec_rules_insert_full(s: &mut FxIndexSet<RecRule>, v: RecRule) -> (r: (usize, bool))
    ensures
        interned(rec_rule_items(*old(s)), rec_rule_items(*final(s)), v, r),
{
    s.insert_full(v)
}

/// `IndexSet::len`: the number of items.
#[verifier::external_body]
pub(crate) fn rec_rules_len(s: &FxIndexSet<RecRule>) -> (n: usize)
    ensures
        n == rec_rule_items(*s).len(),
{
    s.len()
}

/// The parameter lists that the set holds, in insertion order.
pub uninterp spec fn uparams_items(s: FxIndexSet<Vec<UniversePtr>>) -> Seq<Seq<UniversePtr>>;

/// `IndexSet::with_hasher`: a set without items.
#[verifier::external_body]
pub(crate) fn uparams_new() -> (s: FxIndexSet<Vec<UniversePtr>>)
    ensures
        uparams_items(s) == Seq::<Seq<UniversePtr>>::empty(),
{
    IndexSet::with_hasher(FxBuildHasher)
}

/// `IndexSet::insert_full`: the position of an equal item that the set
/// holds already, or else the position at the end where `v` was appended.
#[verifier::external_body]
pub(crate) fn uparams_insert_full(
    s: &mut FxIndexSet<Vec<UniversePtr>>,
    v: Vec<UniversePtr>,
) -> (r: (usize, bool))
    ensures
        interned(uparams_items(*old(s)), uparams_items(*final(s)), v@, r),
{
    s.insert_full(v)
}

/// `IndexSet::get_index`: a copy of the item at position `i`, if there is
/// one.
#[verifier::external_body]
pub(crate) fn uparams_get_index(
    s: &FxIndexSet<Vec<UniversePtr>>,
    i: usize,
) -> (r: Option<Vec<UniversePtr>>)
    ensures
        i < uparams_items(*s).len() <==> r is Some,
        r is Some ==> r.unwrap()@ == uparams_items(*s)[i as int],
{
    s.get_index(i).cloned()
}

/// The declarations that the map holds, each with its key, in insertion
/// order.
pub uninterp spec fn declar_entries(m: FxIndexMap<NamePtr, Declar>) -> Seq<(NamePtr, DeclarNode)>;

/// The position of the entry with key `k`, if there is one.
pub open spec fn entry_of(entries: Seq<(NamePtr, DeclarNode)>, k: NamePtr, i: int) -> bool {
    0 <= i < entries.len() && entries[i].0 == k
}

/// `IndexMap::with_hasher`: a map without entries.
#[verifier::external_body]
pub(crate) fn declars_new() -> (m: FxIndexMap<NamePtr, Declar>)
    ensures
        declar_entries(m) == Seq::<(NamePtr, DeclarNode)>::empty(),
{
    IndexMap::with_hasher(FxBuildHasher)
}

/// `IndexMap::insert`: the value of an entry with an equal key is replaced
/// where it stands; without such an entry the pair is appended.
#[verifier::external_body]
pub(crate) fn declars_insert(m: &mut FxIndexMap<NamePtr, Declar>, k: NamePtr, v: Declar)
    ensures
        forall|i: int|
            entry_of(declar_entries(*old(m)), k, i) ==> declar_entries(*final(m))
                == declar_entries(*old(m)).update(i, (k, v@)),
        (forall|i: int| !entry_of(declar_entries(*old(m)), k, i)) ==> declar_entries(*final(m))
            == declar_entries(*old(m)).push((k, v@)),
{
    m.insert(k, v);
}

/// `IndexMap::get`: a copy of the value of the entry with key `k`, if there
/// is one.
#[verifier::external_body]
pub(crate) fn declars_get(m: &FxIndexMap<NamePtr, Declar>, k: NamePtr) -> (r: Option<Declar>)
    ensures
        match r {
            Some(d) => exists|i: int| entry_of(declar_entries(*m), k, i) && declar_entries(*m)[i].1 == d@,
            None => forall|i: int| !entry_of(declar_entries(*m), k, i),
        },
{
    m.get(&k).cloned()
}

/// `IndexMap::get_index`: a copy of the value of the entry at position `i`,
/// if there is one.
#[verifier::external_body]
pub(crate) fn declars_get_index(m: &FxIndexMap<NamePtr, Declar>, i: usize) -> (r: Option<Declar>)
    ensures
        i < declar_entries(*m).len() <==> r is Some,
        r is Some ==> r.unwrap()@ == declar_entries(*m)[i as int].1,
{
    m.get_index(i).map(|kv| kv.1.clone())
}

/// `IndexMap::len`: the number of entries.
#[verifier::external_body]
pub(crate) fn declars_len(m: &FxIndexMap<NamePtr, Declar>) -> (n: usize)
    ensures
        n == declar_entries(*m).len(),
{
    m.len()
}

/// The results that a memo table holds, by the expression they were
/// computed for.
pub uninterp spec fn memo_entries(m: FxIndexMap<ExprPtr, ExprPtr>) -> Map<ExprPtr, ExprPtr>;

/// `IndexMap::with_hasher`: a table without entries.
#[verifier::external_body]
pub(crate) fn memo_new() -> (table: FxIndexMap<ExprPtr, ExprPtr>)
    ensures
        forall|k: ExprPtr| !memo_entries(table).contains_key(k),
{
    IndexMap::with_hasher(FxBuildHasher)
}

/// `IndexMap::insert`: afterwards `k` maps to `v`, and every other key to
/// what it mapped to before.
#[verifier::external_body]
pub(crate) fn memo_insert(m: &mut FxIndexMap<ExprPtr, ExprPtr>, k: ExprPtr, v: ExprPtr)
    ensures
        memo_entries(*final(m)) == memo_entries(*old(m)).insert(k, v),
{
    m.insert(k, v);
}

/// `IndexMap::get`: the value that `k` maps to, if it maps to one.
#[verifier::external_body]
pub(crate) fn memo_get(m: &FxIndexMap<ExprPtr, ExprPtr>, k: ExprPtr) -> (r: Option<ExprPtr>)
    ensures
        r == if memo_entries(*m).contains_key(k) {
            Some(memo_entries(*m)[k])
        } else {
            None
        },
{
    m.get(&k).copied()
}

} // verus!
