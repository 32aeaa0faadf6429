//! Typed handles, and the environment that owns the interning stores.

use crate::declar::{Declar, RecRule, RecRulePtr};
use crate::expr::{Expr, ExprNode, ExprPtr};
use crate::kernel::{leaf_type, normal_form, Decl, Decls, KState};
use crate::model::{distinct, extends, put, Stores};
use crate::name::{Name, NameNode, NamePtr, NameTerm};
use crate::store::{
    declar_entries, declars_get, declars_get_index, declars_len, declars_new, entry_of, expr_items,
    exprs_get_index, exprs_insert_full, exprs_new, memo_entries, memo_get, memo_insert, memo_new,
    name_items, names_get_index, names_insert_full, names_new, rec_rule_items,
    rec_rules_insert_full, rec_rules_new, universe_items, universes_get_index,
    universes_insert_full, universes_new, uparams_get_index, uparams_insert_full, uparams_items,
    uparams_new, FxIndexMap, FxIndexSet,
};
use crate::universe::{Universe, UniversePtr, UparamsPtr};
use std::marker::PhantomData;
use vstd::prelude::*;

verus! {

/// A handle: the position of a value in the store that interned it. Two
/// handles of one store are equal exactly when they name the same value.
#[derive(Debug, PartialEq, Eq, Hash)]
pub struct Ptr<A> {
    pub idx: usize,
    pub ph: PhantomData<A>,
}

impl<A> Clone for Ptr<A> {
    fn clone(&self) -> (r: Self)
        ensures
            r == *self,
    {
        Ptr { idx: self.idx, ph: PhantomData }
    }
}

impl<A> Copy for Ptr<A> {

}

impl<A> Ptr<A> {
    pub fn from(idx: usize) -> (p: Self)
        ensures
            p.idx == idx,
    {
        Self { idx, ph: PhantomData }
    }

    /// A handle hashes as its position.
    pub fn get_hash(&self) -> (h: u64)
        ensures
            h == self.idx as u64,
    {
        self.idx as u64
    }
}

/// The environment: five interning stores, the declarations by name, the
/// memo tables of inference and normalization, and the counter that numbers
/// free variables.
pub struct ExportFile {
    pub names: FxIndexSet<Name>,
    pub universes: FxIndexSet<Universe>,
    pub exprs: FxIndexSet<Expr>,
    pub rec_rules: FxIndexSet<RecRule>,
    pub uparams: FxIndexSet<Vec<UniversePtr>>,
    pub declars: FxIndexMap<NamePtr, Declar>,
    pub infers: FxIndexMap<ExprPtr, ExprPtr>,
    pub whnfs: FxIndexMap<ExprPtr, ExprPtr>,
    pub next_fvar: u32,
}

impl ExportFile {
    /// The items of the stores that expressions are made of.
    pub open spec fn stores(&self) -> Stores {
        Stores {
            names: name_items(self.names),
            universes: universe_items(self.universes),
            uparams: uparams_items(self.uparams),
            exprs: expr_items(self.exprs),
        }
    }

    /// The declarations by name, written out in full.
    #[verifier::opaque]
    pub open spec fn decls(&self) -> Decls {
        self.stores().decls(declar_entries(self.declars))
    }

    /// The declarations in the order in which they were registered, written
    /// out in full.
    #[verifier::opaque]
    pub open spec fn decl_list(&self) -> Seq<(NameTerm, Decl)> {
        self.stores().decl_seq(declar_entries(self.declars))
    }

    /// The memo tables, written out in full, and the counter of free
    /// variables.
    #[verifier::opaque]
    pub open spec fn kstate(&self) -> KState {
        KState {
            infers: self.stores().memo(memo_entries(self.infers)),
            whnfs: self.stores().memo(memo_entries(self.whnfs)),
            next_fvar: self.next_fvar as nat,
        }
    }

    /// Every free variable of the store was numbered by the counter.
    pub open spec fn fvars_ok(&self) -> bool {
        let es = expr_items(self.exprs);
        forall|i: int|
            0 <= i < es.len() ==> match #[trigger] es[i] {
                ExprNode::FreeVar { idx, .. } => idx < self.next_fvar,
                _ => true,
            }
    }

    /// A recursor rule holds handles of the stores and the digest of its
    /// fields, and no rule is stored twice.
    pub open spec fn rec_rules_ok(&self) -> bool {
        let rs = rec_rule_items(self.rec_rules);
        &&& forall|i: int|
            0 <= i < rs.len() ==> self.stores().has_name((#[trigger] rs[i]).ctor_name)
                && self.stores().has_expr(rs[i].val) && rs[i].hash == rs[i].content_hash()
        &&& distinct(rs)
    }

    /// The invariant of the environment.
    #[verifier::opaque]
    pub open spec fn wf(&self) -> bool {
        &&& self.stores().wf()
        &&& self.stores().entries_ok(declar_entries(self.declars))
        &&& self.stores().memo_ok(memo_entries(self.infers))
        &&& self.stores().memo_ok(memo_entries(self.whnfs))
        &&& self.fvars_ok()
        &&& self.rec_rules_ok()
        &&& self.kstate().sound()
    }

    /// `self` is `old` after some interning: every handle stands for what it
    /// stood for, the recursor rules are at their places, and the
    /// declarations are the same.
    pub open spec fn ext(&self, old: &ExportFile) -> bool {
        &&& self.stores().keeps(old.stores())
        &&& extends(rec_rule_items(self.rec_rules), rec_rule_items(old.rec_rules))
        &&& declar_entries(self.declars) == declar_entries(old.declars)
        &&& self.decls() == old.decls()
        &&& self.decl_list() == old.decl_list()
    }

    /// The memo tables and the counter of free variables are those of `old`.
    pub open spec fn same_memo(&self, old: &ExportFile) -> bool {
        &&& memo_entries(self.infers) == memo_entries(old.infers)
        &&& memo_entries(self.whnfs) == memo_entries(old.whnfs)
        &&& self.next_fvar == old.next_fvar
        &&& self.kstate() == old.kstate()
    }

    /// Whatever `self` holds besides the stores of names, levels, lists of
    /// levels and expressions is what `old` held: the recursor rules, the
    /// declarations, the memo tables and the counter of free variables.
    pub open spec fn rest_kept(&self, old: &ExportFile) -> bool {
        &&& rec_rule_items(self.rec_rules) == rec_rule_items(old.rec_rules)
        &&& declar_entries(self.declars) == declar_entries(old.declars)
        &&& memo_entries(self.infers) == memo_entries(old.infers)
        &&& memo_entries(self.whnfs) == memo_entries(old.whnfs)
        &&& self.next_fvar == old.next_fvar
    }

    /// `self` is a valid environment that `old` grew into by interning
    /// alone.
    pub open spec fn grown(&self, old: &ExportFile) -> bool {
        &&& self.wf()
        &&& self.ext(old)
        &&& self.same_memo(old)
    }

    /// Interning leaves the declarations and the memo tables what they
    /// were.
    pub proof fn lemma_views_kept(&self, old: &ExportFile)
        requires
            old.stores().wf(),
            old.stores().entries_ok(declar_entries(old.declars)),
            old.stores().memo_ok(memo_entries(old.infers)),
            old.stores().memo_ok(memo_entries(old.whnfs)),
            self.stores().ext(old.stores()),
            declar_entries(self.declars) == declar_entries(old.declars),
            memo_entries(self.infers) == memo_entries(old.infers),
            memo_entries(self.whnfs) == memo_entries(old.whnfs),
        ensures
            self.stores().keeps(old.stores()),
            self.stores().entries_ok(declar_entries(self.declars)),
            self.stores().memo_ok(memo_entries(self.infers)),
            self.stores().memo_ok(memo_entries(self.whnfs)),
            self.decls() == old.decls(),
            self.decl_list() == old.decl_list(),
            self.stores().memo(memo_entries(self.infers)) == old.stores().memo(
                memo_entries(old.infers),
            ),
            self.stores().memo(memo_entries(self.whnfs)) == old.stores().memo(
                memo_entries(old.whnfs),
            ),
    {
        reveal(ExportFile::decls);
        reveal(ExportFile::decl_list);
        self.stores().lemma_ext_keeps(old.stores());
        self.stores().lemma_decls_keeps(old.stores(), declar_entries(old.declars));
        self.stores().lemma_memo_keeps(old.stores(), memo_entries(old.infers));
        self.stores().lemma_memo_keeps(old.stores(), memo_entries(old.whnfs));
    }

    /// Two handles that stand for one expression are one handle.
    pub proof fn lemma_same_term(&self, a: ExprPtr, b: ExprPtr)
        requires
            self.wf(),
            self.stores().has_expr(a),
            self.stores().has_expr(b),
            self.stores().term(a) == self.stores().term(b),
        ensures
            a == b,
    {
        reveal(ExportFile::wf);
        self.stores().lemma_term_injective(a, b);
    }

    /// Two handles that stand for one name are one handle.
    pub proof fn lemma_same_name(&self, a: NamePtr, b: NamePtr)
        requires
            self.wf(),
            self.stores().has_name(a),
            self.stores().has_name(b),
            self.stores().name(a) == self.stores().name(b),
        ensures
            a == b,
    {
        reveal(ExportFile::wf);
        self.stores().lemma_name_injective(a, b);
    }

    /// Two handles that stand for one level are one handle.
    pub proof fn lemma_same_level(&self, a: UniversePtr, b: UniversePtr)
        requires
            self.wf(),
            self.stores().has_universe(a),
            self.stores().has_universe(b),
            self.stores().level(a) == self.stores().level(b),
        ensures
            a == b,
    {
        reveal(ExportFile::wf);
        self.stores().lemma_level_injective(a, b);
    }

    /// Two handles that stand for one list of levels are one handle.
    pub proof fn lemma_same_levels(&self, a: UparamsPtr, b: UparamsPtr)
        requires
            self.wf(),
            self.stores().has_uparams(a),
            self.stores().has_uparams(b),
            self.stores().levels(a) == self.stores().levels(b),
        ensures
            a == b,
    {
        reveal(ExportFile::wf);
        self.stores().lemma_levels_injective(a, b);
    }

    /// An environment has grown from itself.
    pub proof fn lemma_grown_refl(&self)
        requires
            self.wf(),
        ensures
            self.grown(self),
    {
    }

    pub proof fn lemma_ext_trans(&self, mid: &ExportFile, old: &ExportFile)
        requires
            self.ext(mid),
            mid.ext(old),
        ensures
            self.ext(old),
    {
    }

    /// An environment that holds the anonymous name and the level zero, and
    /// nothing else.
    pub fn new() -> (out: Self)
        ensures
            out.wf(),
            out.stores().names == seq![NameNode::Anon],
            out.stores().universes == seq![Universe::Zero],
            out.stores().uparams.len() == 0,
            out.stores().exprs.len() == 0,
            declar_entries(out.declars).len() == 0,
            rec_rule_items(out.rec_rules).len() == 0,
            memo_entries(out.infers) == Map::<ExprPtr, ExprPtr>::empty(),
            memo_entries(out.whnfs) == Map::<ExprPtr, ExprPtr>::empty(),
            out.next_fvar == 0,
    {
        let mut out = Self {
            names: names_new(),
            universes: universes_new(),
            exprs: exprs_new(),
            rec_rules: rec_rules_new(),
            uparams: uparams_new(),
            declars: declars_new(),
            infers: memo_new(),
            whnfs: memo_new(),
            next_fvar: 0,
        };
        let ghost names0 = name_items(out.names);
        let ghost universes0 = universe_items(out.universes);
        assert(!names0.contains(NameNode::Anon));
        assert(!universes0.contains(Universe::Zero));
        names_insert_full(&mut out.names, Name::Anon);
        universes_insert_full(&mut out.universes, Universe::Zero);
        proof {
            reveal(ExportFile::wf);
            reveal(ExportFile::kstate);
            assert(name_items(out.names) =~= seq![NameNode::Anon]);
            assert(universe_items(out.universes) =~= seq![Universe::Zero]);
            assert(memo_entries(out.infers) =~= Map::<ExprPtr, ExprPtr>::empty());
            assert(memo_entries(out.whnfs) =~= Map::<ExprPtr, ExprPtr>::empty());
        }
        out
    }

    // ---- reading ----
    pub fn read_name(&self, p: NamePtr) -> (r: Name)
        requires
            self.stores().has_name(p),
        ensures
            r@ == self.stores().names[p.idx as int],
    {
        names_get_index(&self.names, p.idx).unwrap()
    }

    pub fn read_universe(&self, p: UniversePtr) -> (r: Universe)
        requires
            self.stores().has_universe(p),
        ensures
            r == self.stores().universes[p.idx as int],
    {
        universes_get_index(&self.universes, p.idx).unwrap()
    }

    pub fn read_uparams(&self, p: UparamsPtr) -> (r: Vec<UniversePtr>)
        requires
            self.stores().has_uparams(p),
        ensures
            r@ == self.stores().uparams[p.idx as int],
            self.stores().levels(p) == self.stores().levels_of(r@),
            self.wf() ==> self.stores().uparams_ok(r@),
    {
        proof {
            reveal(ExportFile::wf);
        }
        uparams_get_index(&self.uparams, p.idx).unwrap()
    }

    /// The expression at `p`. In a valid environment it holds handles of
    /// the stores, and `p` stands for its constructor over what those stand
    /// for.
    pub fn read_expr(&self, p: ExprPtr) -> (r: Expr)
        requires
            self.stores().has_expr(p),
        ensures
            r@ == self.stores().exprs[p.idx as int],
            self.wf() ==> self.stores().holds(r@) && self.stores().term(p)
                == self.stores().node_term(r@),
    {
        proof {
            reveal(ExportFile::wf);
            if self.wf() {
                assert(self.stores().expr_ok(self.stores().exprs[p.idx as int], p.idx as int));
            }
        }
        exprs_get_index(&self.exprs, p.idx).unwrap()
    }

    pub fn read_expr_pair(&self, a: ExprPtr, b: ExprPtr) -> (r: (Expr, Expr))
        requires
            self.stores().has_expr(a),
            self.stores().has_expr(b),
        ensures
            r.0@ == self.stores().exprs[a.idx as int],
            r.1@ == self.stores().exprs[b.idx as int],
            self.wf() ==> self.stores().holds(r.0@) && self.stores().term(a)
                == self.stores().node_term(r.0@),
            self.wf() ==> self.stores().holds(r.1@) && self.stores().term(b)
                == self.stores().node_term(r.1@),
    {
        (self.read_expr(a), self.read_expr(b))
    }

    /// The declaration registered under `name`, if there is one.
    pub fn read_declar(&self, name: NamePtr) -> (r: Option<Declar>)
        requires
            self.wf(),
            self.stores().has_name(name),
        ensures
            match r {
                Some(d) => {
                    &&& self.decls().contains_key(self.stores().name(name))
                    &&& self.decls()[self.stores().name(name)] == self.stores().decl(d@)
                    &&& self.stores().declar_ok(d@)
                    &&& d@.name() == name
                },
                None => !self.decls().contains_key(self.stores().name(name)),
            },
    {
        let r = declars_get(&self.declars, name);
        proof {
            reveal(ExportFile::wf);
            reveal(ExportFile::decls);
            let es = declar_entries(self.declars);
            if r is Some {
                let i = choose|i: int| entry_of(es, name, i) && es[i].1 == r.unwrap()@;
                self.stores().lemma_decls_get(es, name, i);
            } else {
                assert forall|i: int| 0 <= i < es.len() implies (#[trigger] es[i]).0 != name by {
                    assert(!entry_of(es, name, i));
                }
                self.stores().lemma_decls_none(es, name);
            }
        }
        r
    }

    /// The declarations in the order in which they were registered.
    pub fn declars_snapshot(&self) -> (r: Vec<Declar>)
        requires
            self.wf(),
        ensures
            r@.len() == self.decl_list().len(),
            forall|i: int|
                0 <= i < r@.len() ==> self.stores().declar_ok((#[trigger] r@[i])@)
                    && self.decl_list()[i] == (
                    self.stores().name(r@[i]@.name()),
                    self.stores().decl(r@[i]@),
                ),
    {
        proof {
            reveal(ExportFile::wf);
            reveal(ExportFile::decl_list);
        }
        let n = declars_len(&self.declars);
        let ghost es = declar_entries(self.declars);
        let mut out: Vec<Declar> = Vec::new();
        let mut i: usize = 0;
        while i < n
            invariant
                i <= n,
                n == es.len(),
                es == declar_entries(self.declars),
                self.stores().entries_ok(es),
                out@.len() == i,
                forall|j: int| 0 <= j < i ==> (#[trigger] out@[j])@ == es[j].1,
            decreases n - i,
        {
            let d = declars_get_index(&self.declars, i).unwrap();
            out.push(d);
            i += 1;
        }
        out
    }

    /// The type that inference recorded for `e`, if it recorded one.
    pub fn read_infer(&self, e: ExprPtr) -> (r: Option<ExprPtr>)
        requires
            self.wf(),
            self.stores().has_expr(e),
        ensures
            match r {
                Some(p) => {
                    &&& self.kstate().infers.contains_key(self.stores().term(e))
                    &&& self.stores().has_expr(p)
                    &&& self.stores().term(p) == self.kstate().infers[self.stores().term(e)]
                },
                None => !self.kstate().infers.contains_key(self.stores().term(e)),
            },
            r == if memo_entries(self.infers).contains_key(e) {
                Some(memo_entries(self.infers)[e])
            } else {
                None
            },
    {
        proof {
            reveal(ExportFile::wf);
            reveal(ExportFile::kstate);
            self.stores().lemma_memo_get(memo_entries(self.infers), e);
        }
        memo_get(&self.infers, e)
    }

    /// The normal form that normalization recorded for `e`, if it recorded
    /// one.
    pub fn read_whnf(&self, e: ExprPtr) -> (r: Option<ExprPtr>)
        requires
            self.wf(),
            self.stores().has_expr(e),
        ensures
            match r {
                Some(p) => {
                    &&& self.kstate().whnfs.contains_key(self.stores().term(e))
                    &&& self.stores().has_expr(p)
                    &&& self.stores().term(p) == self.kstate().whnfs[self.stores().term(e)]
                },
                None => !self.kstate().whnfs.contains_key(self.stores().term(e)),
            },
            r == if memo_entries(self.whnfs).contains_key(e) {
                Some(memo_entries(self.whnfs)[e])
            } else {
                None
            },
    {
        proof {
            reveal(ExportFile::wf);
            reveal(ExportFile::kstate);
            self.stores().lemma_memo_get(memo_entries(self.whnfs), e);
        }
        memo_get(&self.whnfs, e)
    }

    /// Records `out` as the type of `e`.
    pub(crate) fn record_infer(&mut self, e: ExprPtr, out: ExprPtr)
        requires
            old(self).wf(),
            old(self).stores().has_expr(e),
            old(self).stores().has_expr(out),
            leaf_type(old(self).stores().term(e)) is Some ==> old(self).stores().term(out)
                == leaf_type(old(self).stores().term(e)).unwrap(),
        ensures
            final(self).wf(),
            final(self).ext(old(self)),
            final(self).stores() == old(self).stores(),
            final(self).kstate() == old(self).kstate().with_infer(
                old(self).stores().term(e),
                old(self).stores().term(out),
            ),
            memo_entries(final(self).infers) == memo_entries(old(self).infers).insert(e, out),
            memo_entries(final(self).whnfs) == memo_entries(old(self).whnfs),
            rec_rule_items(final(self).rec_rules) == rec_rule_items(old(self).rec_rules),
            final(self).next_fvar == old(self).next_fvar,
    {
        proof {
            reveal(ExportFile::wf);
            reveal(ExportFile::kstate);
            reveal(ExportFile::decls);
            reveal(ExportFile::decl_list);
            self.stores().lemma_memo_insert(memo_entries(self.infers), e, out);
        }
        memo_insert(&mut self.infers, e, out);
        proof {
            assert(self.stores() == old(self).stores());
            assert(self.kstate().infers == old(self).kstate().infers.insert(
                self.stores().term(e),
                self.stores().term(out),
            ));
            assert(self.kstate().whnfs == old(self).kstate().whnfs);
            assert(self.kstate().sound());
        }
    }

    /// Records `out` as the weak head normal form of `e`.
    pub(crate) fn record_whnf(&mut self, e: ExprPtr, out: ExprPtr)
        requires
            old(self).wf(),
            old(self).stores().has_expr(e),
            old(self).stores().has_expr(out),
            normal_form(old(self).stores().term(e)) ==> old(self).stores().term(out) == old(
                self,
            ).stores().term(e),
        ensures
            final(self).wf(),
            final(self).ext(old(self)),
            final(self).stores() == old(self).stores(),
            final(self).kstate() == old(self).kstate().with_whnf(
                old(self).stores().term(e),
                old(self).stores().term(out),
            ),
            memo_entries(final(self).whnfs) == memo_entries(old(self).whnfs).insert(e, out),
            memo_entries(final(self).infers) == memo_entries(old(self).infers),
            rec_rule_items(final(self).rec_rules) == rec_rule_items(old(self).rec_rules),
            final(self).next_fvar == old(self).next_fvar,
    {
        proof {
            reveal(ExportFile::wf);
            reveal(ExportFile::kstate);
            reveal(ExportFile::decls);
            reveal(ExportFile::decl_list);
            self.stores().lemma_memo_insert(memo_entries(self.whnfs), e, out);
        }
        memo_insert(&mut self.whnfs, e, out);
        proof {
            assert(self.stores() == old(self).stores());
            assert(self.stores().memo_ok(memo_entries(self.whnfs)));
            assert(self.kstate().infers == old(self).kstate().infers);
            assert(self.kstate().whnfs == old(self).kstate().whnfs.insert(
                self.stores().term(e),
                self.stores().term(out),
            ));
            assert(self.kstate().sound());
            assert(self.fvars_ok());
            assert(self.rec_rules_ok());
            assert(self.stores().entries_ok(declar_entries(self.declars)));
        }
    }

    // ---- interning ----
    /// Interns a name: the handle of the equal name that the store holds, or
    /// of `n` appended to it.
    pub fn alloc_name(&mut self, n: Name) -> (p: NamePtr)
        requires
            old(self).wf(),
            old(self).stores().name_ok(n@, old(self).stores().names.len() as int),
        ensures
            final(self).grown(old(self)),
            final(self).stores().has_name(p),
            final(self).stores().with_name(old(self).stores(), n@, p),
            final(self).rest_kept(old(self)),
    {
        let r = names_insert_full(&mut self.names, n);
        proof {
            reveal(ExportFile::wf);
            reveal(ExportFile::kstate);
            self.lemma_views_kept(old(self));
        }
        Ptr::from(r.0)
    }

    /// Interns a level.
    pub fn alloc_universe(&mut self, n: Universe) -> (p: UniversePtr)
        requires
            old(self).wf(),
            old(self).stores().universe_ok(n, old(self).stores().universes.len() as int),
        ensures
            final(self).grown(old(self)),
            final(self).stores().has_universe(p),
            final(self).stores().with_universe(old(self).stores(), n, p),
            final(self).rest_kept(old(self)),
    {
        let r = universes_insert_full(&mut self.universes, n);
        proof {
            reveal(ExportFile::wf);
            reveal(ExportFile::kstate);
            self.lemma_views_kept(old(self));
        }
        Ptr::from(r.0)
    }

    /// Interns a list of levels, as a whole and in its order.
    pub fn alloc_uparams(&mut self, n: Vec<UniversePtr>) -> (p: UparamsPtr)
        requires
            old(self).wf(),
            old(self).stores().uparams_ok(n@),
        ensures
            final(self).grown(old(self)),
            final(self).stores().has_uparams(p),
            final(self).stores().levels(p) == old(self).stores().levels_of(n@),
            final(self).stores().with_uparams(old(self).stores(), n@, p),
            final(self).rest_kept(old(self)),
    {
        let ghost l = n@;
        let r = uparams_insert_full(&mut self.uparams, n);
        proof {
            reveal(ExportFile::wf);
            reveal(ExportFile::kstate);
            self.lemma_views_kept(old(self));
            self.stores().lemma_levels_of_ext(old(self).stores(), l);
        }
        Ptr::from(r.0)
    }

    /// Interns an expression.
    pub fn alloc_expr(&mut self, n: Expr) -> (p: ExprPtr)
        requires
            old(self).wf(),
            old(self).stores().expr_ok(n@, old(self).stores().exprs.len() as int),
            match n@ {
                ExprNode::FreeVar { idx, .. } => idx < old(self).next_fvar,
                _ => true,
            },
        ensures
            final(self).grown(old(self)),
            final(self).stores().has_expr(p),
            final(self).stores().with_expr(old(self).stores(), n@, p),
            final(self).rest_kept(old(self)),
    {
        let r = exprs_insert_full(&mut self.exprs, n);
        proof {
            reveal(ExportFile::wf);
            reveal(ExportFile::kstate);
            self.lemma_views_kept(old(self));
        }
        Ptr::from(r.0)
    }

    /// Interns a recursor rule.
    pub fn alloc_rec_rule(&mut self, n: RecRule) -> (p: RecRulePtr)
        requires
            old(self).wf(),
            old(self).stores().has_name(n.ctor_name),
            old(self).stores().has_expr(n.val),
            n.hash == n.content_hash(),
        ensures
            final(self).grown(old(self)),
            final(self).stores() == old(self).stores(),
            put(rec_rule_items(final(self).rec_rules), rec_rule_items(old(self).rec_rules), n, p.idx),
            declar_entries(final(self).declars) == declar_entries(old(self).declars),
    {
        let r = rec_rules_insert_full(&mut self.rec_rules, n);
        proof {
            reveal(ExportFile::wf);
            reveal(ExportFile::kstate);
            self.lemma_views_kept(old(self));
        }
        Ptr::from(r.0)
    }
}

} // verus!
