//! What the handles of an environment stand for: the name, level or
//! expression that a handle names, written out in full, and the invariant of
//! the stores that makes this a one-to-one correspondence.

use crate::declar::DeclarNode;
use crate::kernel::{Decl, Decls, Kind, Shape};
use crate::expr::{
    ExprNode, ExprPtr, Term, APP_HASH, CONST_HASH, FREE_VAR_HASH, LAMBDA_HASH, LET_HASH,
    NAT_LIT_HASH, PI_HASH, PROJ_HASH, SORT_HASH, STR_LIT_HASH, VAR_HASH,
};
use crate::hashing::{digest, high_word, low_word};
use crate::name::{NameNode, NamePtr, NameTerm, NUM_HASH, STR_HASH};
use crate::universe::{
    Level, Universe, UniversePtr, UparamsPtr, IMAX_HASH, MAX_HASH, PARAM_HASH, SUCC_HASH,
};
use vstd::prelude::*;

verus! {

impl NameNode {
    /// The node with the digest of its constructor and fields in the place
    /// of its cached digest.
    pub open spec fn hashed(self) -> NameNode {
        match self {
            NameNode::Anon => self,
            NameNode::Str { pfx, value, .. } => NameNode::Str {
                pfx,
                value,
                hash: self.content_hash(),
            },
            NameNode::Num { pfx, value, .. } => NameNode::Num {
                pfx,
                value,
                hash: self.content_hash(),
            },
        }
    }

    /// The digest of the node's constructor and fields.
    pub open spec fn content_hash(self) -> u64 {
        match self {
            NameNode::Anon => self.hash_of(),
            NameNode::Str { pfx, value, .. } => digest(seq![STR_HASH, pfx.idx as u64], value),
            NameNode::Num { pfx, value, .. } => digest(
                seq![NUM_HASH, pfx.idx as u64, value],
                Seq::empty(),
            ),
        }
    }
}

impl Universe {
    /// The node with the digest of its constructor and fields in the place
    /// of its cached digest.
    pub open spec fn hashed(self) -> Universe {
        match self {
            Universe::Zero => self,
            Universe::Succ { pred, .. } => Universe::Succ { pred, hash: self.content_hash() },
            Universe::Max { v1, v2, .. } => Universe::Max { v1, v2, hash: self.content_hash() },
            Universe::IMax { v1, v2, .. } => Universe::IMax { v1, v2, hash: self.content_hash() },
            Universe::Param { name, .. } => Universe::Param { name, hash: self.content_hash() },
        }
    }

    /// The digest of the node's constructor and fields.
    pub open spec fn content_hash(self) -> u64 {
        match self {
            Universe::Zero => self.hash_of(),
            Universe::Succ { pred, .. } => digest(seq![SUCC_HASH, pred.idx as u64], Seq::empty()),
            Universe::Max { v1, v2, .. } => digest(
                seq![MAX_HASH, v1.idx as u64, v2.idx as u64],
                Seq::empty(),
            ),
            Universe::IMax { v1, v2, .. } => digest(
                seq![IMAX_HASH, v1.idx as u64, v2.idx as u64],
                Seq::empty(),
            ),
            Universe::Param { name, .. } => digest(
                seq![PARAM_HASH, name.idx as u64],
                Seq::empty(),
            ),
        }
    }
}

impl ExprNode {
    /// The node with the digest of its constructor and fields in the place
    /// of its cached digest.
    pub open spec fn hashed(self) -> ExprNode {
        let hash = self.content_hash();
        match self {
            ExprNode::Var { dbj_idx, .. } => ExprNode::Var { hash, dbj_idx },
            ExprNode::FreeVar { idx, ty, .. } => ExprNode::FreeVar { hash, idx, ty },
            ExprNode::Sort { universe, .. } => ExprNode::Sort { hash, universe },
            ExprNode::Const { name, universes, .. } => ExprNode::Const { hash, name, universes },
            ExprNode::App { fun, arg, .. } => ExprNode::App { hash, fun, arg },
            ExprNode::Lambda { name, ty, body, .. } => ExprNode::Lambda { hash, name, ty, body },
            ExprNode::Pi { name, ty, body, .. } => ExprNode::Pi { hash, name, ty, body },
            ExprNode::Let { name, ty, val, body, .. } => ExprNode::Let {
                hash,
                name,
                ty,
                val,
                body,
            },
            ExprNode::Proj { name, idx, structure, .. } => ExprNode::Proj {
                hash,
                name,
                idx,
                structure,
            },
            ExprNode::NatLit { val, .. } => ExprNode::NatLit { hash, val },
            ExprNode::StrLit { val, .. } => ExprNode::StrLit { hash, val },
        }
    }

    /// The digest of the node's constructor and fields.
    pub open spec fn content_hash(self) -> u64 {
        match self {
            ExprNode::Var { dbj_idx, .. } => digest(seq![VAR_HASH, dbj_idx as u64], Seq::empty()),
            ExprNode::FreeVar { idx, ty, .. } => digest(
                seq![FREE_VAR_HASH, idx as u64, ty.idx as u64],
                Seq::empty(),
            ),
            ExprNode::Sort { universe, .. } => digest(
                seq![SORT_HASH, universe.idx as u64],
                Seq::empty(),
            ),
            ExprNode::Const { name, universes, .. } => digest(
                seq![CONST_HASH, name.idx as u64, universes.idx as u64],
                Seq::empty(),
            ),
            ExprNode::App { fun, arg, .. } => digest(
                seq![APP_HASH, fun.idx as u64, arg.idx as u64],
                Seq::empty(),
            ),
            ExprNode::Lambda { name, ty, body, .. } => digest(
                seq![LAMBDA_HASH, name.idx as u64, ty.idx as u64, body.idx as u64],
                Seq::empty(),
            ),
            ExprNode::Pi { name, ty, body, .. } => digest(
                seq![PI_HASH, name.idx as u64, ty.idx as u64, body.idx as u64],
                Seq::empty(),
            ),
            ExprNode::Let { name, ty, val, body, .. } => digest(
                seq![LET_HASH, name.idx as u64, ty.idx as u64, val.idx as u64, body.idx as u64],
                Seq::empty(),
            ),
            ExprNode::Proj { name, idx, structure, .. } => digest(
                seq![PROJ_HASH, name.idx as u64, idx as u64, structure.idx as u64],
                Seq::empty(),
            ),
            ExprNode::NatLit { val, .. } => digest(
                seq![NAT_LIT_HASH, low_word(val), high_word(val)],
                Seq::empty(),
            ),
            ExprNode::StrLit { val, .. } => digest(seq![STR_LIT_HASH], val),
        }
    }
}

/// The items of the four stores that expressions are made of.
pub ghost struct Stores {
    pub names: Seq<NameNode>,
    pub universes: Seq<Universe>,
    pub uparams: Seq<Seq<UniversePtr>>,
    pub exprs: Seq<ExprNode>,
}

/// No item occurs twice.
pub open spec fn distinct<T>(items: Seq<T>) -> bool {
    forall|i: int, j: int|
        0 <= i < items.len() && 0 <= j < items.len() && #[trigger] items[i] == #[trigger] items[j]
            ==> i == j
}

/// `new` is `old`, or `old` with the one item `v` appended that it did not
/// hold; `i` is where `v` stands in `new`.
pub open spec fn put<T>(new: Seq<T>, old: Seq<T>, v: T, i: usize) -> bool {
    &&& new == if old.contains(v) {
        old
    } else {
        old.push(v)
    }
    &&& i < new.len()
    &&& new[i as int] == v
}

/// `new` holds the items of `old` at their positions, and maybe more.
pub open spec fn extends<T>(new: Seq<T>, old: Seq<T>) -> bool {
    &&& old.len() <= new.len()
    &&& forall|i: int| 0 <= i < old.len() ==> #[trigger] new[i] == old[i]
}

impl Stores {
    // ---- validity of handles ----
    pub open spec fn has_name(self, p: NamePtr) -> bool {
        p.idx < self.names.len()
    }

    pub open spec fn has_universe(self, p: UniversePtr) -> bool {
        p.idx < self.universes.len()
    }

    pub open spec fn has_uparams(self, p: UparamsPtr) -> bool {
        p.idx < self.uparams.len()
    }

    pub open spec fn has_expr(self, p: ExprPtr) -> bool {
        p.idx < self.exprs.len()
    }

    // ---- what a node may hold when it stands at position `i` ----
    pub open spec fn name_ok(self, n: NameNode, i: int) -> bool {
        &&& n.hash_of() == n.content_hash()
        &&& match n {
            NameNode::Anon => true,
            NameNode::Str { pfx, .. } => pfx.idx < i,
            NameNode::Num { pfx, .. } => pfx.idx < i,
        }
    }

    pub open spec fn universe_ok(self, u: Universe, i: int) -> bool {
        &&& u.hash_of() == u.content_hash()
        &&& match u {
            Universe::Zero => true,
            Universe::Succ { pred, .. } => pred.idx < i,
            Universe::Max { v1, v2, .. } => v1.idx < i && v2.idx < i,
            Universe::IMax { v1, v2, .. } => v1.idx < i && v2.idx < i,
            Universe::Param { name, .. } => self.has_name(name),
        }
    }

    pub open spec fn uparams_ok(self, l: Seq<UniversePtr>) -> bool {
        forall|j: int| 0 <= j < l.len() ==> self.has_universe(#[trigger] l[j])
    }

    pub open spec fn expr_ok(self, e: ExprNode, i: int) -> bool {
        &&& e.hash_of() == e.content_hash()
        &&& match e {
            ExprNode::Var { .. } => true,
            ExprNode::FreeVar { ty, .. } => ty.idx < i,
            ExprNode::Sort { universe, .. } => self.has_universe(universe),
            ExprNode::Const { name, universes, .. } => self.has_name(name) && self.has_uparams(
                universes,
            ),
            ExprNode::App { fun, arg, .. } => fun.idx < i && arg.idx < i,
            ExprNode::Lambda { name, ty, body, .. } => self.has_name(name) && ty.idx < i && body.idx
                < i,
            ExprNode::Pi { name, ty, body, .. } => self.has_name(name) && ty.idx < i && body.idx
                < i,
            ExprNode::Let { name, ty, val, body, .. } => self.has_name(name) && ty.idx < i
                && val.idx < i && body.idx < i,
            ExprNode::Proj { name, structure, .. } => self.has_name(name) && structure.idx < i,
            ExprNode::NatLit { .. } => true,
            ExprNode::StrLit { .. } => true,
        }
    }

    /// The invariant of the stores: the reserved first items are in place,
    /// every node holds the digest of its fields and handles of items that
    /// were interned before it, and no store holds an item twice.
    pub open spec fn wf(self) -> bool {
        &&& self.names.len() > 0
        &&& self.names[0] == NameNode::Anon
        &&& self.universes.len() > 0
        &&& self.universes[0] == Universe::Zero
        &&& forall|i: int| 0 <= i < self.names.len() ==> self.name_ok(#[trigger] self.names[i], i)
        &&& forall|i: int|
            0 <= i < self.universes.len() ==> self.universe_ok(#[trigger] self.universes[i], i)
        &&& forall|i: int|
            0 <= i < self.uparams.len() ==> self.uparams_ok(#[trigger] self.uparams[i])
        &&& forall|i: int| 0 <= i < self.exprs.len() ==> self.expr_ok(#[trigger] self.exprs[i], i)
        &&& distinct(self.names)
        &&& distinct(self.universes)
        &&& distinct(self.uparams)
        &&& distinct(self.exprs)
    }

    /// Every store of `self` holds the items of `old` at their positions.
    pub open spec fn ext(self, old: Stores) -> bool {
        &&& extends(self.names, old.names)
        &&& extends(self.universes, old.universes)
        &&& extends(self.uparams, old.uparams)
        &&& extends(self.exprs, old.exprs)
    }

    // ---- what interning one value does to the stores ----
    /// `self` is `old` with the name `n` interned at `p`, and nothing else.
    pub open spec fn with_name(self, old: Stores, n: NameNode, p: NamePtr) -> bool {
        &&& put(self.names, old.names, n, p.idx)
        &&& self.universes == old.universes
        &&& self.uparams == old.uparams
        &&& self.exprs == old.exprs
    }

    /// `self` is `old` with the level `n` interned at `p`, and nothing else.
    pub open spec fn with_universe(self, old: Stores, n: Universe, p: UniversePtr) -> bool {
        &&& put(self.universes, old.universes, n, p.idx)
        &&& self.names == old.names
        &&& self.uparams == old.uparams
        &&& self.exprs == old.exprs
    }

    /// `self` is `old` with the list of levels `n` interned at `p`, and
    /// nothing else.
    pub open spec fn with_uparams(self, old: Stores, n: Seq<UniversePtr>, p: UparamsPtr) -> bool {
        &&& put(self.uparams, old.uparams, n, p.idx)
        &&& self.names == old.names
        &&& self.universes == old.universes
        &&& self.exprs == old.exprs
    }

    /// `self` is `old` with the expression `n` interned at `p`, and nothing
    /// else.
    pub open spec fn with_expr(self, old: Stores, n: ExprNode, p: ExprPtr) -> bool {
        &&& put(self.exprs, old.exprs, n, p.idx)
        &&& self.names == old.names
        &&& self.universes == old.universes
        &&& self.uparams == old.uparams
    }

    // ---- what a handle stands for ----
    pub open spec fn name(self, p: NamePtr) -> NameTerm
        decreases p.idx,
    {
        if p.idx < self.names.len() {
            match self.names[p.idx as int] {
                NameNode::Anon => NameTerm::Anon,
                NameNode::Str { pfx, value, .. } => if pfx.idx < p.idx {
                    NameTerm::Str(Box::new(self.name(pfx)), value)
                } else {
                    NameTerm::Anon
                },
                NameNode::Num { pfx, value, .. } => if pfx.idx < p.idx {
                    NameTerm::Num(Box::new(self.name(pfx)), value)
                } else {
                    NameTerm::Anon
                },
            }
        } else {
            NameTerm::Anon
        }
    }

    pub open spec fn level(self, p: UniversePtr) -> Level
        decreases p.idx,
    {
        if p.idx < self.universes.len() {
            match self.universes[p.idx as int] {
                Universe::Zero => Level::Zero,
                Universe::Succ { pred, .. } => if pred.idx < p.idx {
                    Level::Succ(Box::new(self.level(pred)))
                } else {
                    Level::Zero
                },
                Universe::Max { v1, v2, .. } => if v1.idx < p.idx && v2.idx < p.idx {
                    Level::Max(Box::new(self.level(v1)), Box::new(self.level(v2)))
                } else {
                    Level::Zero
                },
                Universe::IMax { v1, v2, .. } => if v1.idx < p.idx && v2.idx < p.idx {
                    Level::IMax(Box::new(self.level(v1)), Box::new(self.level(v2)))
                } else {
                    Level::Zero
                },
                Universe::Param { name, .. } => Level::Param(self.name(name)),
            }
        } else {
            Level::Zero
        }
    }

    /// The levels that a list of handles stands for.
    pub open spec fn levels_of(self, l: Seq<UniversePtr>) -> Seq<Level> {
        Seq::new(l.len(), |j: int| self.level(l[j]))
    }

    pub open spec fn levels(self, p: UparamsPtr) -> Seq<Level> {
        if p.idx < self.uparams.len() {
            self.levels_of(self.uparams[p.idx as int])
        } else {
            Seq::empty()
        }
    }

    pub open spec fn term(self, p: ExprPtr) -> Term
        decreases p.idx,
    {
        if p.idx < self.exprs.len() {
            match self.exprs[p.idx as int] {
                ExprNode::Var { dbj_idx, .. } => Term::BVar(dbj_idx),
                ExprNode::FreeVar { idx, ty, .. } => if ty.idx < p.idx {
                    Term::FVar(idx, Box::new(self.term(ty)))
                } else {
                    Term::BVar(0)
                },
                ExprNode::Sort { universe, .. } => Term::Sort(self.level(universe)),
                ExprNode::Const { name, universes, .. } => Term::Const(
                    self.name(name),
                    self.levels(universes),
                ),
                ExprNode::App { fun, arg, .. } => if fun.idx < p.idx && arg.idx < p.idx {
                    Term::App(Box::new(self.term(fun)), Box::new(self.term(arg)))
                } else {
                    Term::BVar(0)
                },
                ExprNode::Lambda { name, ty, body, .. } => if ty.idx < p.idx && body.idx < p.idx {
                    Term::Lam(self.name(name), Box::new(self.term(ty)), Box::new(self.term(body)))
                } else {
                    Term::BVar(0)
                },
                ExprNode::Pi { name, ty, body, .. } => if ty.idx < p.idx && body.idx < p.idx {
                    Term::Pi(self.name(name), Box::new(self.term(ty)), Box::new(self.term(body)))
                } else {
                    Term::BVar(0)
                },
                ExprNode::Let { name, ty, val, body, .. } => if ty.idx < p.idx && val.idx < p.idx
                    && body.idx < p.idx {
                    Term::Let(
                        self.name(name),
                        Box::new(self.term(ty)),
                        Box::new(self.term(val)),
                        Box::new(self.term(body)),
                    )
                } else {
                    Term::BVar(0)
                },
                ExprNode::Proj { name, idx, structure, .. } => if structure.idx < p.idx {
                    Term::Proj(self.name(name), idx, Box::new(self.term(structure)))
                } else {
                    Term::BVar(0)
                },
                ExprNode::NatLit { val, .. } => Term::NatLit(val),
                ExprNode::StrLit { val, .. } => Term::StrLit(val),
            }
        } else {
            Term::BVar(0)
        }
    }

    /// Every handle that the node holds is a handle of the stores.
    pub open spec fn holds(self, e: ExprNode) -> bool {
        match e {
            ExprNode::Var { .. } => true,
            ExprNode::FreeVar { ty, .. } => self.has_expr(ty),
            ExprNode::Sort { universe, .. } => self.has_universe(universe),
            ExprNode::Const { name, universes, .. } => self.has_name(name) && self.has_uparams(
                universes,
            ),
            ExprNode::App { fun, arg, .. } => self.has_expr(fun) && self.has_expr(arg),
            ExprNode::Lambda { name, ty, body, .. } => self.has_name(name) && self.has_expr(ty)
                && self.has_expr(body),
            ExprNode::Pi { name, ty, body, .. } => self.has_name(name) && self.has_expr(ty)
                && self.has_expr(body),
            ExprNode::Let { name, ty, val, body, .. } => self.has_name(name) && self.has_expr(ty)
                && self.has_expr(val) && self.has_expr(body),
            ExprNode::Proj { name, structure, .. } => self.has_name(name) && self.has_expr(
                structure,
            ),
            ExprNode::NatLit { .. } => true,
            ExprNode::StrLit { .. } => true,
        }
    }

    /// The expression that a node stands for: its constructor over what
    /// its handles stand for.
    pub open spec fn node_term(self, e: ExprNode) -> Term {
        match e {
            ExprNode::Var { dbj_idx, .. } => Term::BVar(dbj_idx),
            ExprNode::FreeVar { idx, ty, .. } => Term::FVar(idx, Box::new(self.term(ty))),
            ExprNode::Sort { universe, .. } => Term::Sort(self.level(universe)),
            ExprNode::Const { name, universes, .. } => Term::Const(
                self.name(name),
                self.levels(universes),
            ),
            ExprNode::App { fun, arg, .. } => Term::App(
                Box::new(self.term(fun)),
                Box::new(self.term(arg)),
            ),
            ExprNode::Lambda { name, ty, body, .. } => Term::Lam(
                self.name(name),
                Box::new(self.term(ty)),
                Box::new(self.term(body)),
            ),
            ExprNode::Pi { name, ty, body, .. } => Term::Pi(
                self.name(name),
                Box::new(self.term(ty)),
                Box::new(self.term(body)),
            ),
            ExprNode::Let { name, ty, val, body, .. } => Term::Let(
                self.name(name),
                Box::new(self.term(ty)),
                Box::new(self.term(val)),
                Box::new(self.term(body)),
            ),
            ExprNode::Proj { name, idx, structure, .. } => Term::Proj(
                self.name(name),
                idx,
                Box::new(self.term(structure)),
            ),
            ExprNode::NatLit { val, .. } => Term::NatLit(val),
            ExprNode::StrLit { val, .. } => Term::StrLit(val),
        }
    }

    /// Every handle of `old` is a handle of `self` and stands for the same
    /// value there.
    pub open spec fn keeps(self, old: Stores) -> bool {
        &&& old.names.len() <= self.names.len()
        &&& old.universes.len() <= self.universes.len()
        &&& old.uparams.len() <= self.uparams.len()
        &&& old.exprs.len() <= self.exprs.len()
        &&& forall|p: NamePtr|
            old.has_name(p) ==> self.has_name(p) && #[trigger] self.name(p) == old.name(p)
        &&& forall|p: UniversePtr|
            old.has_universe(p) ==> self.has_universe(p) && #[trigger] self.level(p) == old.level(
                p,
            )
        &&& forall|p: UparamsPtr|
            old.has_uparams(p) ==> self.has_uparams(p) && #[trigger] self.levels(p) == old.levels(
                p,
            )
        &&& forall|p: ExprPtr|
            old.has_expr(p) ==> self.has_expr(p) && #[trigger] self.term(p) == old.term(p)
    }

    // ---- handles keep their meaning when the stores grow ----
    pub proof fn lemma_name_ext(self, old: Stores, p: NamePtr)
        requires
            self.ext(old),
            old.has_name(p),
        ensures
            self.name(p) == old.name(p),
        decreases p.idx,
    {
        match old.names[p.idx as int] {
            NameNode::Anon => {},
            NameNode::Str { pfx, .. } => {
                if pfx.idx < p.idx {
                    self.lemma_name_ext(old, pfx);
                }
            },
            NameNode::Num { pfx, .. } => {
                if pfx.idx < p.idx {
                    self.lemma_name_ext(old, pfx);
                }
            },
        }
    }

    pub proof fn lemma_level_ext(self, old: Stores, p: UniversePtr)
        requires
            self.ext(old),
            old.wf(),
            old.has_universe(p),
        ensures
            self.level(p) == old.level(p),
        decreases p.idx,
    {
        assert(old.universe_ok(old.universes[p.idx as int], p.idx as int));
        match old.universes[p.idx as int] {
            Universe::Zero => {},
            Universe::Succ { pred, .. } => {
                self.lemma_level_ext(old, pred);
            },
            Universe::Max { v1, v2, .. } => {
                self.lemma_level_ext(old, v1);
                self.lemma_level_ext(old, v2);
            },
            Universe::IMax { v1, v2, .. } => {
                self.lemma_level_ext(old, v1);
                self.lemma_level_ext(old, v2);
            },
            Universe::Param { name, .. } => {
                self.lemma_name_ext(old, name);
            },
        }
    }

    pub proof fn lemma_levels_of_ext(self, old: Stores, l: Seq<UniversePtr>)
        requires
            self.ext(old),
            old.wf(),
            old.uparams_ok(l),
        ensures
            self.levels_of(l) == old.levels_of(l),
    {
        assert forall|j: int| 0 <= j < l.len() implies self.level(l[j]) == old.level(l[j]) by {
            assert(old.has_universe(l[j]));
            self.lemma_level_ext(old, l[j]);
        }
        assert(self.levels_of(l) =~= old.levels_of(l));
    }

    pub proof fn lemma_levels_ext(self, old: Stores, p: UparamsPtr)
        requires
            self.ext(old),
            old.wf(),
            old.has_uparams(p),
        ensures
            self.levels(p) == old.levels(p),
    {
        assert(old.uparams_ok(old.uparams[p.idx as int]));
        self.lemma_levels_of_ext(old, old.uparams[p.idx as int]);
    }

    pub proof fn lemma_term_ext(self, old: Stores, p: ExprPtr)
        requires
            self.ext(old),
            old.wf(),
            old.has_expr(p),
        ensures
            self.term(p) == old.term(p),
        decreases p.idx,
    {
        assert(old.expr_ok(old.exprs[p.idx as int], p.idx as int));
        match old.exprs[p.idx as int] {
            ExprNode::Var { .. } => {},
            ExprNode::FreeVar { ty, .. } => {
                self.lemma_term_ext(old, ty);
            },
            ExprNode::Sort { universe, .. } => {
                self.lemma_level_ext(old, universe);
            },
            ExprNode::Const { name, universes, .. } => {
                self.lemma_name_ext(old, name);
                self.lemma_levels_ext(old, universes);
            },
            ExprNode::App { fun, arg, .. } => {
                self.lemma_term_ext(old, fun);
                self.lemma_term_ext(old, arg);
            },
            ExprNode::Lambda { name, ty, body, .. } => {
                self.lemma_name_ext(old, name);
                self.lemma_term_ext(old, ty);
                self.lemma_term_ext(old, body);
            },
            ExprNode::Pi { name, ty, body, .. } => {
                self.lemma_name_ext(old, name);
                self.lemma_term_ext(old, ty);
                self.lemma_term_ext(old, body);
            },
            ExprNode::Let { name, ty, val, body, .. } => {
                self.lemma_name_ext(old, name);
                self.lemma_term_ext(old, ty);
                self.lemma_term_ext(old, val);
                self.lemma_term_ext(old, body);
            },
            ExprNode::Proj { name, structure, .. } => {
                self.lemma_name_ext(old, name);
                self.lemma_term_ext(old, structure);
            },
            ExprNode::NatLit { .. } => {},
            ExprNode::StrLit { .. } => {},
        }
    }

    pub proof fn lemma_ext_keeps(self, old: Stores)
        requires
            self.ext(old),
            old.wf(),
        ensures
            self.keeps(old),
    {
        assert forall|p: NamePtr| old.has_name(p) implies self.has_name(p) && #[trigger] self.name(
            p,
        ) == old.name(p) by {
            self.lemma_name_ext(old, p);
        }
        assert forall|p: UniversePtr| old.has_universe(p) implies self.has_universe(p)
            && #[trigger] self.level(p) == old.level(p) by {
            self.lemma_level_ext(old, p);
        }
        assert forall|p: UparamsPtr| old.has_uparams(p) implies self.has_uparams(p)
            && #[trigger] self.levels(p) == old.levels(p) by {
            self.lemma_levels_ext(old, p);
        }
        assert forall|p: ExprPtr| old.has_expr(p) implies self.has_expr(p) && #[trigger] self.term(
            p,
        ) == old.term(p) by {
            self.lemma_term_ext(old, p);
        }
    }

    // ---- one value, one handle ----
    /// Two handles that stand for the same name are the same handle.
    pub proof fn lemma_name_injective(self, a: NamePtr, b: NamePtr)
        requires
            self.wf(),
            self.has_name(a),
            self.has_name(b),
            self.name(a) == self.name(b),
        ensures
            a == b,
        decreases a.idx,
    {
        let (i, j) = (a.idx as int, b.idx as int);
        assert(self.name_ok(self.names[i], i));
        assert(self.name_ok(self.names[j], j));
        match (self.names[i], self.names[j]) {
            (NameNode::Str { pfx: p1, .. }, NameNode::Str { pfx: p2, .. }) => {
                self.lemma_name_injective(p1, p2);
            },
            (NameNode::Num { pfx: p1, .. }, NameNode::Num { pfx: p2, .. }) => {
                self.lemma_name_injective(p1, p2);
            },
            _ => {},
        }
        assert(self.names[i] == self.names[j]);
    }

    /// Two handles that stand for the same level are the same handle.
    pub proof fn lemma_level_injective(self, a: UniversePtr, b: UniversePtr)
        requires
            self.wf(),
            self.has_universe(a),
            self.has_universe(b),
            self.level(a) == self.level(b),
        ensures
            a == b,
        decreases a.idx,
    {
        let (i, j) = (a.idx as int, b.idx as int);
        assert(self.universe_ok(self.universes[i], i));
        assert(self.universe_ok(self.universes[j], j));
        match (self.universes[i], self.universes[j]) {
            (Universe::Succ { pred: p1, .. }, Universe::Succ { pred: p2, .. }) => {
                self.lemma_level_injective(p1, p2);
            },
            (Universe::Max { v1: a1, v2: a2, .. }, Universe::Max { v1: b1, v2: b2, .. }) => {
                self.lemma_level_injective(a1, b1);
                self.lemma_level_injective(a2, b2);
            },
            (Universe::IMax { v1: a1, v2: a2, .. }, Universe::IMax { v1: b1, v2: b2, .. }) => {
                self.lemma_level_injective(a1, b1);
                self.lemma_level_injective(a2, b2);
            },
            (Universe::Param { name: n1, .. }, Universe::Param { name: n2, .. }) => {
                self.lemma_name_injective(n1, n2);
            },
            _ => {},
        }
        assert(self.universes[i] == self.universes[j]);
    }

    /// Two lists of handles that stand for the same levels are the same
    /// list.
    pub proof fn lemma_levels_of_injective(self, l1: Seq<UniversePtr>, l2: Seq<UniversePtr>)
        requires
            self.wf(),
            self.uparams_ok(l1),
            self.uparams_ok(l2),
            self.levels_of(l1) == self.levels_of(l2),
        ensures
            l1 == l2,
    {
        assert(self.levels_of(l1).len() == l1.len());
        assert(self.levels_of(l2).len() == l2.len());
        assert forall|j: int| 0 <= j < l1.len() implies l1[j] == l2[j] by {
            assert(self.has_universe(l1[j]));
            assert(self.has_universe(l2[j]));
            assert(self.levels_of(l1)[j] == self.level(l1[j]));
            assert(self.levels_of(l2)[j] == self.level(l2[j]));
            self.lemma_level_injective(l1[j], l2[j]);
        }
        assert(l1 =~= l2);
    }

    /// Two handles that stand for the same list of levels are the same
    /// handle.
    pub proof fn lemma_levels_injective(self, a: UparamsPtr, b: UparamsPtr)
        requires
            self.wf(),
            self.has_uparams(a),
            self.has_uparams(b),
            self.levels(a) == self.levels(b),
        ensures
            a == b,
    {
        let (i, j) = (a.idx as int, b.idx as int);
        assert(self.uparams_ok(self.uparams[i]));
        assert(self.uparams_ok(self.uparams[j]));
        self.lemma_levels_of_injective(self.uparams[i], self.uparams[j]);
        assert(self.uparams[i] == self.uparams[j]);
    }

    /// Two handles that stand for the same expression are the same handle.
    pub proof fn lemma_term_injective(self, a: ExprPtr, b: ExprPtr)
        requires
            self.wf(),
            self.has_expr(a),
            self.has_expr(b),
            self.term(a) == self.term(b),
        ensures
            a == b,
        decreases a.idx,
    {
        let (i, j) = (a.idx as int, b.idx as int);
        assert(self.expr_ok(self.exprs[i], i));
        assert(self.expr_ok(self.exprs[j], j));
        match (self.exprs[i], self.exprs[j]) {
            (ExprNode::FreeVar { ty: t1, .. }, ExprNode::FreeVar { ty: t2, .. }) => {
                self.lemma_term_injective(t1, t2);
            },
            (ExprNode::Sort { universe: u1, .. }, ExprNode::Sort { universe: u2, .. }) => {
                self.lemma_level_injective(u1, u2);
            },
            (
                ExprNode::Const { name: n1, universes: u1, .. },
                ExprNode::Const { name: n2, universes: u2, .. },
            ) => {
                self.lemma_name_injective(n1, n2);
                self.lemma_levels_injective(u1, u2);
            },
            (ExprNode::App { fun: f1, arg: a1, .. }, ExprNode::App { fun: f2, arg: a2, .. }) => {
                self.lemma_term_injective(f1, f2);
                self.lemma_term_injective(a1, a2);
            },
            (
                ExprNode::Lambda { name: n1, ty: t1, body: b1, .. },
                ExprNode::Lambda { name: n2, ty: t2, body: b2, .. },
            ) => {
                self.lemma_name_injective(n1, n2);
                self.lemma_term_injective(t1, t2);
                self.lemma_term_injective(b1, b2);
            },
            (
                ExprNode::Pi { name: n1, ty: t1, body: b1, .. },
                ExprNode::Pi { name: n2, ty: t2, body: b2, .. },
            ) => {
                self.lemma_name_injective(n1, n2);
                self.lemma_term_injective(t1, t2);
                self.lemma_term_injective(b1, b2);
            },
            (
                ExprNode::Let { name: n1, ty: t1, val: v1, body: b1, .. },
                ExprNode::Let { name: n2, ty: t2, val: v2, body: b2, .. },
            ) => {
                self.lemma_name_injective(n1, n2);
                self.lemma_term_injective(t1, t2);
                self.lemma_term_injective(v1, v2);
                self.lemma_term_injective(b1, b2);
            },
            (
                ExprNode::Proj { name: n1, structure: s1, .. },
                ExprNode::Proj { name: n2, structure: s2, .. },
            ) => {
                self.lemma_name_injective(n1, n2);
                self.lemma_term_injective(s1, s2);
            },
            _ => {},
        }
        assert(self.exprs[i] == self.exprs[j]);
    }

    /// A level is no higher than the number of levels interned up to it.
    pub proof fn lemma_level_height(self, p: UniversePtr)
        requires
            self.wf(),
            self.has_universe(p),
        ensures
            self.level(p).height() <= p.idx + 1,
        decreases p.idx,
    {
        assert(self.universe_ok(self.universes[p.idx as int], p.idx as int));
        match self.universes[p.idx as int] {
            Universe::Zero => {},
            Universe::Succ { pred, .. } => {
                self.lemma_level_height(pred);
            },
            Universe::Max { v1, v2, .. } => {
                self.lemma_level_height(v1);
                self.lemma_level_height(v2);
            },
            Universe::IMax { v1, v2, .. } => {
                self.lemma_level_height(v1);
                self.lemma_level_height(v2);
            },
            Universe::Param { .. } => {},
        }
    }

    // ---- the memo tables and the declarations, written out in full ----
    /// A memo table maps handles of the expression store to such handles.
    pub open spec fn memo_ok(self, m: Map<ExprPtr, ExprPtr>) -> bool {
        forall|k: ExprPtr| #[trigger] m.contains_key(k) ==> self.has_expr(k) && self.has_expr(m[k])
    }

    /// A memo table as a map from expressions to expressions.
    pub open spec fn memo(self, m: Map<ExprPtr, ExprPtr>) -> Map<Term, Term> {
        Map::new(
            |t: Term| exists|k: ExprPtr| m.contains_key(k) && self.term(k) == t,
            |t: Term| self.term(m[choose|k: ExprPtr| m.contains_key(k) && self.term(k) == t]),
        )
    }

    /// A declaration holds handles of the stores.
    pub open spec fn declar_ok(self, d: DeclarNode) -> bool {
        &&& self.has_name(d.name())
        &&& self.has_uparams(d.uparams())
        &&& self.has_expr(d.ty())
        &&& match d.val() {
            Some(v) => self.has_expr(v),
            None => true,
        }
        &&& match d {
            DeclarNode::Inductive { all_ctor_names, .. } => forall|j: int|
                0 <= j < all_ctor_names.len() ==> self.has_name(#[trigger] all_ctor_names[j]),
            DeclarNode::Constructor { parent, .. } => self.has_name(parent),
            _ => true,
        }
    }

    /// Every declaration is registered under its own name, once, and holds
    /// handles of the stores.
    pub open spec fn entries_ok(self, es: Seq<(NamePtr, DeclarNode)>) -> bool {
        &&& forall|i: int|
            0 <= i < es.len() ==> (#[trigger] es[i]).1.name() == es[i].0 && self.declar_ok(es[i].1)
        &&& forall|i: int, j: int|
            0 <= i < es.len() && 0 <= j < es.len() && (#[trigger] es[i]).0 == (#[trigger] es[j]).0
                ==> i == j
    }

    /// The names that a list of handles stands for.
    pub open spec fn names_of(self, l: Seq<NamePtr>) -> Seq<NameTerm> {
        Seq::new(l.len(), |j: int| self.name(l[j]))
    }

    /// A declaration written out in full.
    pub open spec fn decl(self, d: DeclarNode) -> Decl {
        Decl {
            kind: match d {
                DeclarNode::Axiom { .. } => Kind::Axiom,
                DeclarNode::Quot { .. } => Kind::Quot,
                DeclarNode::Opaq { .. } => Kind::Opaq,
                DeclarNode::Theorem { .. } => Kind::Theorem,
                DeclarNode::Definition { .. } => Kind::Definition,
                DeclarNode::Inductive { .. } => Kind::Inductive,
                DeclarNode::Constructor { .. } => Kind::Constructor,
                DeclarNode::Recursor { .. } => Kind::Recursor,
            },
            uparams: self.levels(d.uparams()),
            ty: self.term(d.ty()),
            val: match d.val() {
                Some(v) => Some(self.term(v)),
                None => None,
            },
            shape: match d {
                DeclarNode::Inductive { num_indices, all_ctor_names, .. } => Shape::Inductive {
                    num_indices,
                    ctors: self.names_of(all_ctor_names),
                },
                DeclarNode::Constructor { num_params, num_fields, parent, .. } => {
                    Shape::Constructor { num_params, num_fields, parent: self.name(parent) }
                },
                _ => Shape::Plain,
            },
        }
    }

    /// The declarations as a map from names to declarations.
    pub open spec fn decls(self, es: Seq<(NamePtr, DeclarNode)>) -> Decls {
        Map::new(
            |n: NameTerm| exists|i: int| 0 <= i < es.len() && self.name(es[i].0) == n,
            |n: NameTerm|
                self.decl(es[choose|i: int| 0 <= i < es.len() && self.name(es[i].0) == n].1),
        )
    }

    /// The declarations in the order in which they were registered.
    pub open spec fn decl_seq(self, es: Seq<(NamePtr, DeclarNode)>) -> Seq<(NameTerm, Decl)> {
        Seq::new(es.len(), |i: int| (self.name(es[i].0), self.decl(es[i].1)))
    }

    pub proof fn lemma_memo_get(self, m: Map<ExprPtr, ExprPtr>, e: ExprPtr)
        requires
            self.wf(),
            self.memo_ok(m),
            self.has_expr(e),
        ensures
            self.memo(m).contains_key(self.term(e)) == m.contains_key(e),
            m.contains_key(e) ==> self.memo(m)[self.term(e)] == self.term(m[e]),
    {
        let t = self.term(e);
        if self.memo(m).contains_key(t) {
            let k = choose|k: ExprPtr| m.contains_key(k) && self.term(k) == t;
            self.lemma_term_injective(k, e);
        }
    }

    pub proof fn lemma_memo_insert(self, m: Map<ExprPtr, ExprPtr>, k: ExprPtr, v: ExprPtr)
        requires
            self.wf(),
            self.memo_ok(m),
            self.has_expr(k),
            self.has_expr(v),
        ensures
            self.memo_ok(m.insert(k, v)),
            self.memo(m.insert(k, v)) == self.memo(m).insert(self.term(k), self.term(v)),
    {
        let m2 = m.insert(k, v);
        let a = self.memo(m2);
        let b = self.memo(m).insert(self.term(k), self.term(v));
        assert forall|t: Term| a.contains_key(t) == b.contains_key(t) by {
            if a.contains_key(t) {
                let x = choose|x: ExprPtr| m2.contains_key(x) && self.term(x) == t;
                if x != k {
                    assert(m.contains_key(x));
                }
            }
            if b.contains_key(t) {
                if t == self.term(k) {
                    assert(m2.contains_key(k));
                } else {
                    let x = choose|x: ExprPtr| m.contains_key(x) && self.term(x) == t;
                    assert(m2.contains_key(x));
                }
            }
        }
        assert forall|t: Term| a.contains_key(t) implies a[t] == b[t] by {
            let x = choose|x: ExprPtr| m2.contains_key(x) && self.term(x) == t;
            if t == self.term(k) {
                self.lemma_term_injective(x, k);
            } else {
                assert(x != k);
                assert(m.contains_key(x));
                let y = choose|y: ExprPtr| m.contains_key(y) && self.term(y) == t;
                self.lemma_term_injective(x, y);
            }
        }
        assert(a =~= b);
    }

    pub proof fn lemma_memo_keeps(self, old: Stores, m: Map<ExprPtr, ExprPtr>)
        requires
            old.wf(),
            self.keeps(old),
            old.memo_ok(m),
        ensures
            self.memo_ok(m),
            self.memo(m) == old.memo(m),
    {
        let a = self.memo(m);
        let b = old.memo(m);
        assert forall|t: Term| a.contains_key(t) == b.contains_key(t) by {
            if a.contains_key(t) {
                let x = choose|x: ExprPtr| m.contains_key(x) && self.term(x) == t;
                assert(old.term(x) == t);
            }
            if b.contains_key(t) {
                let x = choose|x: ExprPtr| m.contains_key(x) && old.term(x) == t;
                assert(self.term(x) == t);
            }
        }
        assert forall|t: Term| a.contains_key(t) implies a[t] == b[t] by {
            let x = choose|x: ExprPtr| m.contains_key(x) && self.term(x) == t;
            let y = choose|y: ExprPtr| m.contains_key(y) && old.term(y) == t;
            assert(self.term(x) == old.term(x));
            old.lemma_term_injective(x, y);
            assert(self.term(m[x]) == old.term(m[x]));
        }
        assert(a =~= b);
    }

    pub proof fn lemma_decl_keeps(self, old: Stores, d: DeclarNode)
        requires
            self.keeps(old),
            old.declar_ok(d),
        ensures
            self.declar_ok(d),
            self.decl(d) == old.decl(d),
    {
        match d {
            DeclarNode::Inductive { all_ctor_names, .. } => {
                assert forall|j: int| 0 <= j < all_ctor_names.len() implies self.has_name(
                    #[trigger] all_ctor_names[j],
                ) && self.name(all_ctor_names[j]) == old.name(all_ctor_names[j]) by {
                    assert(old.has_name(all_ctor_names[j]));
                }
                assert(self.names_of(all_ctor_names) =~= old.names_of(all_ctor_names));
            },
            _ => {},
        }
    }

    pub proof fn lemma_decls_keeps(self, old: Stores, es: Seq<(NamePtr, DeclarNode)>)
        requires
            old.wf(),
            self.keeps(old),
            old.entries_ok(es),
        ensures
            self.entries_ok(es),
            self.decls(es) == old.decls(es),
            self.decl_seq(es) == old.decl_seq(es),
    {
        let a = self.decls(es);
        let b = old.decls(es);
        assert forall|i: int| 0 <= i < es.len() implies self.declar_ok((#[trigger] es[i]).1)
            && self.decl(es[i].1) == old.decl(es[i].1) && self.name(es[i].0) == old.name(es[i].0) by {
            self.lemma_decl_keeps(old, es[i].1);
        }
        assert forall|n: NameTerm| a.contains_key(n) == b.contains_key(n) by {
            if a.contains_key(n) {
                let i = choose|i: int| 0 <= i < es.len() && self.name(es[i].0) == n;
                assert(old.name(es[i].0) == n);
            }
            if b.contains_key(n) {
                let i = choose|i: int| 0 <= i < es.len() && old.name(es[i].0) == n;
                assert(self.name(es[i].0) == n);
            }
        }
        assert forall|n: NameTerm| a.contains_key(n) implies a[n] == b[n] by {
            let i = choose|i: int| 0 <= i < es.len() && self.name(es[i].0) == n;
            let j = choose|j: int| 0 <= j < es.len() && old.name(es[j].0) == n;
            assert(old.name(es[i].0) == n);
            old.lemma_name_injective(es[i].0, es[j].0);
        }
        assert(a =~= b);
        assert(self.decl_seq(es) =~= old.decl_seq(es));
    }

    /// The declaration under a name is the one registered under the handle
    /// of that name.
    pub proof fn lemma_decls_get(self, es: Seq<(NamePtr, DeclarNode)>, name: NamePtr, i: int)
        requires
            self.wf(),
            self.entries_ok(es),
            self.has_name(name),
            0 <= i < es.len(),
            es[i].0 == name,
        ensures
            self.decls(es).contains_key(self.name(name)),
            self.decls(es)[self.name(name)] == self.decl(es[i].1),
    {
        let n = self.name(name);
        let j = choose|j: int| 0 <= j < es.len() && self.name(es[j].0) == n;
        self.lemma_name_injective(es[j].0, name);
    }

    /// A name whose handle registers nothing names no declaration.
    pub proof fn lemma_decls_none(self, es: Seq<(NamePtr, DeclarNode)>, name: NamePtr)
        requires
            self.wf(),
            self.entries_ok(es),
            self.has_name(name),
            forall|i: int| 0 <= i < es.len() ==> (#[trigger] es[i]).0 != name,
        ensures
            !self.decls(es).contains_key(self.name(name)),
    {
        let n = self.name(name);
        if self.decls(es).contains_key(n) {
            let j = choose|j: int| 0 <= j < es.len() && self.name(es[j].0) == n;
            self.lemma_name_injective(es[j].0, name);
        }
    }

    /// Registering a declaration under its name puts it into the map of
    /// declarations, in the place of the one that the name had before.
    pub proof fn lemma_decls_put(
        self,
        es: Seq<(NamePtr, DeclarNode)>,
        es2: Seq<(NamePtr, DeclarNode)>,
        v: DeclarNode,
    )
        requires
            self.wf(),
            self.entries_ok(es),
            self.declar_ok(v),
            forall|i: int| 0 <= i < es.len() && es[i].0 == v.name() ==> es2 == es.update(i, (v.name(), v)),
            (forall|i: int| 0 <= i < es.len() ==> (#[trigger] es[i]).0 != v.name()) ==> es2
                == es.push((v.name(), v)),
        ensures
            self.entries_ok(es2),
            self.decls(es2) == self.decls(es).insert(self.name(v.name()), self.decl(v)),
    {
        let k = v.name();
        let a = self.decls(es2);
        let b = self.decls(es).insert(self.name(k), self.decl(v));
        let hit = exists|i: int| 0 <= i < es.len() && es[i].0 == k;
        let at = if hit {
            choose|i: int| 0 <= i < es.len() && es[i].0 == k
        } else {
            es.len() as int
        };
        if hit {
            assert(es2 == es.update(at, (k, v)));
        } else {
            assert(es2 == es.push((k, v)));
        }
        assert(es2[at] == (k, v));
        assert forall|j: int| 0 <= j < es2.len() && j != at implies es2[j] == es[j] && es[j].0
            != k by {
            if hit {
                assert(es[j].0 == es[at].0 ==> j == at);
            }
        }
        assert(self.entries_ok(es2)) by {
            assert forall|i: int, j: int|
                0 <= i < es2.len() && 0 <= j < es2.len() && (#[trigger] es2[i]).0 == (
                #[trigger] es2[j]).0 implies i == j by {
                if i != at && j != at {
                    assert(es[i].0 == es[j].0);
                }
            }
        }
        assert forall|n: NameTerm| a.contains_key(n) == b.contains_key(n) by {
            if a.contains_key(n) {
                let i = choose|i: int| 0 <= i < es2.len() && self.name(es2[i].0) == n;
                if i != at {
                    assert(0 <= i < es.len() && self.name(es[i].0) == n);
                }
            }
            if b.contains_key(n) {
                if n == self.name(k) {
                    assert(0 <= at < es2.len() && self.name(es2[at].0) == n);
                } else {
                    let i = choose|i: int| 0 <= i < es.len() && self.name(es[i].0) == n;
                    assert(i != at);
                    assert(0 <= i < es2.len() && self.name(es2[i].0) == n);
                }
            }
        }
        assert forall|n: NameTerm| a.contains_key(n) implies a[n] == b[n] by {
            let i = choose|i: int| 0 <= i < es2.len() && self.name(es2[i].0) == n;
            if n == self.name(k) {
                self.lemma_name_injective(es2[i].0, k);
                assert(es2[i].0 == es2[at].0);
            } else {
                assert(i != at);
                let j = choose|j: int| 0 <= j < es.len() && self.name(es[j].0) == n;
                self.lemma_name_injective(es[i].0, es[j].0);
            }
        }
        assert(a =~= b);
    }
}

} // verus!
