//! Expressions with de Bruijn indices.

use crate::error::KernelError;
use crate::hashing::{digest_of, digest_of_words, split_u128};
use crate::kernel::fresh;
use crate::name::{NamePtr, NameTerm};
use crate::store::{memo_entries, rec_rule_items};
use crate::term::{abstr_fits, abstr_term, inst_fits, inst_term, subst_term};
use crate::universe::{Level, UniversePtr, UparamsPtr};
use crate::util::{ExportFile, Ptr};
use vstd::prelude::*;

verus! {

pub const VAR_HASH: u64 = 20;

pub const SORT_HASH: u64 = 21;

pub const CONST_HASH: u64 = 22;

pub const APP_HASH: u64 = 23;

pub const LAMBDA_HASH: u64 = 24;

pub const PI_HASH: u64 = 25;

pub const LET_HASH: u64 = 26;

pub const PROJ_HASH: u64 = 27;

pub const NAT_LIT_HASH: u64 = 28;

pub const STR_LIT_HASH: u64 = 29;

pub const FREE_VAR_HASH: u64 = 30;

/// An expression as it is stored: a constructor over handles and scalars,
/// and the digest of both.
#[allow(inconsistent_fields)]
#[derive(Debug, Clone, PartialEq, Eq, Hash)]
pub enum Expr {
    Var { hash: u64, dbj_idx: u32 },
    FreeVar { hash: u64, idx: u32, ty: ExprPtr },
    Sort { hash: u64, universe: UniversePtr },
    Const { hash: u64, name: NamePtr, universes: UparamsPtr },
    App { hash: u64, fun: ExprPtr, arg: ExprPtr },
    Lambda { hash: u64, name: NamePtr, ty: ExprPtr, body: ExprPtr },
    Pi { hash: u64, name: NamePtr, ty: ExprPtr, body: ExprPtr },
    Let { hash: u64, name: NamePtr, ty: ExprPtr, val: ExprPtr, body: ExprPtr },
    Proj { hash: u64, name: NamePtr, idx: u32, structure: ExprPtr },
    NatLit { hash: u64, val: u128 },
    StrLit { hash: u64, val: String },
}

pub type ExprPtr = Ptr<Expr>;

/// What a stored expression holds, its text as a sequence of characters.
#[allow(inconsistent_fields)]
pub ghost enum ExprNode {
    Var { hash: u64, dbj_idx: u32 },
    FreeVar { hash: u64, idx: u32, ty: ExprPtr },
    Sort { hash: u64, universe: UniversePtr },
    Const { hash: u64, name: NamePtr, universes: UparamsPtr },
    App { hash: u64, fun: ExprPtr, arg: ExprPtr },
    Lambda { hash: u64, name: NamePtr, ty: ExprPtr, body: ExprPtr },
    Pi { hash: u64, name: NamePtr, ty: ExprPtr, body: ExprPtr },
    Let { hash: u64, name: NamePtr, ty: ExprPtr, val: ExprPtr, body: ExprPtr },
    Proj { hash: u64, name: NamePtr, idx: u32, structure: ExprPtr },
    NatLit { hash: u64, val: u128 },
    StrLit { hash: u64, val: Seq<char> },
}

impl View for Expr {
    type V = ExprNode;

    open spec fn view(&self) -> ExprNode {
        match *self {
            Expr::Var { hash, dbj_idx } => ExprNode::Var { hash, dbj_idx },
            Expr::FreeVar { hash, idx, ty } => ExprNode::FreeVar { hash, idx, ty },
            Expr::Sort { hash, universe } => ExprNode::Sort { hash, universe },
            Expr::Const { hash, name, universes } => ExprNode::Const { hash, name, universes },
            Expr::App { hash, fun, arg } => ExprNode::App { hash, fun, arg },
            Expr::Lambda { hash, name, ty, body } => ExprNode::Lambda { hash, name, ty, body },
            Expr::Pi { hash, name, ty, body } => ExprNode::Pi { hash, name, ty, body },
            Expr::Let { hash, name, ty, val, body } => ExprNode::Let { hash, name, ty, val, body },
            Expr::Proj { hash, name, idx, structure } => ExprNode::Proj {
                hash,
                name,
                idx,
                structure,
            },
            Expr::NatLit { hash, val } => ExprNode::NatLit { hash, val },
            Expr::StrLit { hash, val } => ExprNode::StrLit { hash, val: val@ },
        }
    }
}

/// An expression written out in full.
pub ghost enum Term {
    BVar(u32),
    FVar(u32, Box<Term>),
    Sort(Level),
    Const(NameTerm, Seq<Level>),
    App(Box<Term>, Box<Term>),
    Lam(NameTerm, Box<Term>, Box<Term>),
    Pi(NameTerm, Box<Term>, Box<Term>),
    Let(NameTerm, Box<Term>, Box<Term>, Box<Term>),
    Proj(NameTerm, u32, Box<Term>),
    NatLit(u128),
    StrLit(Seq<char>),
}

impl Expr {
    pub fn get_hash(&self) -> (h: u64)
        ensures
            h == self@.hash_of(),
    {
        match self {
            Expr::Var { hash, .. } => *hash,
            Expr::FreeVar { hash, .. } => *hash,
            Expr::Sort { hash, .. } => *hash,
            Expr::Const { hash, .. } => *hash,
            Expr::App { hash, .. } => *hash,
            Expr::Lambda { hash, .. } => *hash,
            Expr::Pi { hash, .. } => *hash,
            Expr::Let { hash, .. } => *hash,
            Expr::Proj { hash, .. } => *hash,
            Expr::NatLit { hash, .. } => *hash,
            Expr::StrLit { hash, .. } => *hash,
        }
    }
}

impl ExprNode {
    /// The digest cached in the node.
    pub open spec fn hash_of(self) -> u64 {
        match self {
            ExprNode::Var { hash, .. } => hash,
            ExprNode::FreeVar { hash, .. } => hash,
            ExprNode::Sort { hash, .. } => hash,
            ExprNode::Const { hash, .. } => hash,
            ExprNode::App { hash, .. } => hash,
            ExprNode::Lambda { hash, .. } => hash,
            ExprNode::Pi { hash, .. } => hash,
            ExprNode::Let { hash, .. } => hash,
            ExprNode::Proj { hash, .. } => hash,
            ExprNode::NatLit { hash, .. } => hash,
            ExprNode::StrLit { hash, .. } => hash,
        }
    }
}

impl ExportFile {
    /// The bound variable with de Bruijn index `dbj_idx`.
    pub fn var(&mut self, dbj_idx: u32) -> (p: ExprPtr)
        requires
            old(self).wf(),
        ensures
            final(self).grown(old(self)),
            final(self).stores().with_expr(
                old(self).stores(),
                (ExprNode::Var { hash: 0, dbj_idx }).hashed(),
                p,
            ),
            final(self).rest_kept(old(self)),
            final(self).stores().has_expr(p),
            final(self).stores().term(p) == Term::BVar(dbj_idx),
    {
        proof {
            reveal(ExportFile::wf);
        }
        let hash = digest_of_words(&vec![VAR_HASH, dbj_idx as u64]);
        let p = self.alloc_expr(Expr::Var { dbj_idx, hash });
        assert(self.stores().expr_ok(self.stores().exprs[p.idx as int], p.idx as int));
        assert(self.stores().term(p) == Term::BVar(dbj_idx));
        p
    }

    /// The sort of the level `universe`.
    pub fn sort(&mut self, universe: UniversePtr) -> (p: ExprPtr)
        requires
            old(self).wf(),
            old(self).stores().has_universe(universe),
        ensures
            final(self).grown(old(self)),
            final(self).stores().with_expr(
                old(self).stores(),
                (ExprNode::Sort { hash: 0, universe }).hashed(),
                p,
            ),
            final(self).rest_kept(old(self)),
            final(self).stores().has_expr(p),
            final(self).stores().term(p) == Term::Sort(old(self).stores().level(universe)),
    {
        proof {
            reveal(ExportFile::wf);
        }
        let hash = digest_of_words(&vec![SORT_HASH, universe.idx as u64]);
        let p = self.alloc_expr(Expr::Sort { universe, hash });
        assert(self.stores().expr_ok(self.stores().exprs[p.idx as int], p.idx as int));
        assert(self.stores().term(p) == Term::Sort(self.stores().level(universe)));
        p
    }

    /// The constant `name` at the levels `universes`.
    pub fn mk_const(&mut self, name: NamePtr, universes: UparamsPtr) -> (p: ExprPtr)
        requires
            old(self).wf(),
            old(self).stores().has_name(name),
            old(self).stores().has_uparams(universes),
        ensures
            final(self).grown(old(self)),
            final(self).stores().with_expr(
                old(self).stores(),
                (ExprNode::Const { hash: 0, name, universes }).hashed(),
                p,
            ),
            final(self).rest_kept(old(self)),
            final(self).stores().has_expr(p),
            final(self).stores().term(p) == Term::Const(
                old(self).stores().name(name),
                old(self).stores().levels(universes),
            ),
    {
        proof {
            reveal(ExportFile::wf);
        }
        let hash = digest_of_words(&vec![CONST_HASH, name.idx as u64, universes.idx as u64]);
        let p = self.alloc_expr(Expr::Const { name, universes, hash });
        assert(self.stores().expr_ok(self.stores().exprs[p.idx as int], p.idx as int));
        assert(self.stores().term(p) == Term::Const(
            self.stores().name(name),
            self.stores().levels(universes),
        ));
        p
    }

    /// The application of `fun` to `arg`.
    pub fn app(&mut self, fun: ExprPtr, arg: ExprPtr) -> (p: ExprPtr)
        requires
            old(self).wf(),
            old(self).stores().has_expr(fun),
            old(self).stores().has_expr(arg),
        ensures
            final(self).grown(old(self)),
            final(self).stores().with_expr(
                old(self).stores(),
                (ExprNode::App { hash: 0, fun, arg }).hashed(),
                p,
            ),
            final(self).rest_kept(old(self)),
            final(self).stores().has_expr(p),
            final(self).stores().term(p) == Term::App(
                Box::new(old(self).stores().term(fun)),
                Box::new(old(self).stores().term(arg)),
            ),
    {
        proof {
            reveal(ExportFile::wf);
        }
        let hash = digest_of_words(&vec![APP_HASH, fun.idx as u64, arg.idx as u64]);
        let p = self.alloc_expr(Expr::App { fun, arg, hash });
        assert(self.stores().expr_ok(self.stores().exprs[p.idx as int], p.idx as int));
        assert(self.stores().term(p) == Term::App(
            Box::new(self.stores().term(fun)),
            Box::new(self.stores().term(arg)),
        ));
        p
    }

    /// The function that binds a variable of type `ty` in `body`.
    pub fn lambda(&mut self, name: NamePtr, ty: ExprPtr, body: ExprPtr) -> (p: ExprPtr)
        requires
            old(self).wf(),
            old(self).stores().has_name(name),
            old(self).stores().has_expr(ty),
            old(self).stores().has_expr(body),
        ensures
            final(self).grown(old(self)),
            final(self).stores().with_expr(
                old(self).stores(),
                (ExprNode::Lambda { hash: 0, name, ty, body }).hashed(),
                p,
            ),
            final(self).rest_kept(old(self)),
            final(self).stores().has_expr(p),
            final(self).stores().term(p) == Term::Lam(
                old(self).stores().name(name),
                Box::new(old(self).stores().term(ty)),
                Box::new(old(self).stores().term(body)),
            ),
    {
        proof {
            reveal(ExportFile::wf);
        }
        let hash = digest_of_words(&vec![LAMBDA_HASH, name.idx as u64, ty.idx as u64, body.idx as u64]);
        let p = self.alloc_expr(Expr::Lambda { name, ty, body, hash });
        assert(self.stores().expr_ok(self.stores().exprs[p.idx as int], p.idx as int));
        assert(self.stores().term(p) == Term::Lam(
                self.stores().name(name),
                Box::new(self.stores().term(ty)),
                Box::new(self.stores().term(body)),
            ));
        p
    }

    /// The type of the functions from `ty` to `body`, which may depend on
    /// the argument.
    pub fn pi(&mut self, name: NamePtr, ty: ExprPtr, body: ExprPtr) -> (p: ExprPtr)
        requires
            old(self).wf(),
            old(self).stores().has_name(name),
            old(self).stores().has_expr(ty),
            old(self).stores().has_expr(body),
        ensures
            final(self).grown(old(self)),
            final(self).stores().with_expr(
                old(self).stores(),
                (ExprNode::Pi { hash: 0, name, ty, body }).hashed(),
                p,
            ),
            final(self).rest_kept(old(self)),
            final(self).stores().has_expr(p),
            final(self).stores().term(p) == Term::Pi(
                old(self).stores().name(name),
                Box::new(old(self).stores().term(ty)),
                Box::new(old(self).stores().term(body)),
            ),
    {
        proof {
            reveal(ExportFile::wf);
        }
        let hash = digest_of_words(&vec![PI_HASH, name.idx as u64, ty.idx as u64, body.idx as u64]);
        let p = self.alloc_expr(Expr::Pi { name, ty, body, hash });
        assert(self.stores().expr_ok(self.stores().exprs[p.idx as int], p.idx as int));
        assert(self.stores().term(p) == Term::Pi(
                self.stores().name(name),
                Box::new(self.stores().term(ty)),
                Box::new(self.stores().term(body)),
            ));
        p
    }

    /// The expression `body` with a variable bound to `val` of type `ty`.
    pub fn mk_let(
        &mut self,
        name: NamePtr,
        ty: ExprPtr,
        val: ExprPtr,
        body: ExprPtr,
    ) -> (p: ExprPtr)
        requires
            old(self).wf(),
            old(self).stores().has_name(name),
            old(self).stores().has_expr(ty),
            old(self).stores().has_expr(val),
            old(self).stores().has_expr(body),
        ensures
            final(self).grown(old(self)),
            final(self).stores().with_expr(
                old(self).stores(),
                (ExprNode::Let { hash: 0, name, ty, val, body }).hashed(),
                p,
            ),
            final(self).rest_kept(old(self)),
            final(self).stores().has_expr(p),
            final(self).stores().term(p) == Term::Let(
                old(self).stores().name(name),
                Box::new(old(self).stores().term(ty)),
                Box::new(old(self).stores().term(val)),
                Box::new(old(self).stores().term(body)),
            ),
    {
        proof {
            reveal(ExportFile::wf);
        }
        let hash = digest_of_words(
            &vec![LET_HASH, name.idx as u64, ty.idx as u64, val.idx as u64, body.idx as u64],
        );
        let p = self.alloc_expr(Expr::Let { name, ty, val, body, hash });
        assert(self.stores().expr_ok(self.stores().exprs[p.idx as int], p.idx as int));
        assert(self.stores().term(p) == Term::Let(
                self.stores().name(name),
                Box::new(self.stores().term(ty)),
                Box::new(self.stores().term(val)),
                Box::new(self.stores().term(body)),
            ));
        p
    }

    /// The field `idx` of `structure`, a value of the structure `name`.
    pub fn proj(&mut self, name: NamePtr, idx: u32, structure: ExprPtr) -> (p: ExprPtr)
        requires
            old(self).wf(),
            old(self).stores().has_name(name),
            old(self).stores().has_expr(structure),
        ensures
            final(self).grown(old(self)),
            final(self).stores().with_expr(
                old(self).stores(),
                (ExprNode::Proj { hash: 0, name, idx, structure }).hashed(),
                p,
            ),
            final(self).rest_kept(old(self)),
            final(self).stores().has_expr(p),
            final(self).stores().term(p) == Term::Proj(
                old(self).stores().name(name),
                idx,
                Box::new(old(self).stores().term(structure)),
            ),
    {
        proof {
            reveal(ExportFile::wf);
        }
        let hash = digest_of_words(&vec![PROJ_HASH, name.idx as u64, idx as u64, structure.idx as u64]);
        let p = self.alloc_expr(Expr::Proj { name, idx, structure, hash });
        assert(self.stores().expr_ok(self.stores().exprs[p.idx as int], p.idx as int));
        assert(self.stores().term(p) == Term::Proj(
            self.stores().name(name),
            idx,
            Box::new(self.stores().term(structure)),
        ));
        p
    }

    /// The literal of the natural number `val`.
    pub fn nat_lit(&mut self, val: u128) -> (p: ExprPtr)
        requires
            old(self).wf(),
        ensures
            final(self).grown(old(self)),
            final(self).stores().with_expr(
                old(self).stores(),
                (ExprNode::NatLit { hash: 0, val }).hashed(),
                p,
            ),
            final(self).rest_kept(old(self)),
            final(self).stores().has_expr(p),
            final(self).stores().term(p) == Term::NatLit(val),
    {
        proof {
            reveal(ExportFile::wf);
        }
        let halves = split_u128(val);
        let hash = digest_of_words(&vec![NAT_LIT_HASH, halves.0, halves.1]);
        let p = self.alloc_expr(Expr::NatLit { val, hash });
        p
    }

    /// The literal of the string `val`.
    pub fn str_lit(&mut self, val: String) -> (p: ExprPtr)
        requires
            old(self).wf(),
        ensures
            final(self).grown(old(self)),
            final(self).stores().with_expr(
                old(self).stores(),
                (ExprNode::StrLit { hash: 0, val: val@ }).hashed(),
                p,
            ),
            final(self).rest_kept(old(self)),
            final(self).stores().has_expr(p),
            final(self).stores().term(p) == Term::StrLit(val@),
    {
        proof {
            reveal(ExportFile::wf);
        }
        let words = vec![STR_LIT_HASH];
        assert(words@ =~= seq![STR_LIT_HASH]);
        let hash = digest_of(&words, val.as_str());
        let p = self.alloc_expr(Expr::StrLit { val, hash });
        p
    }

    /// A free variable of type `ty` that no expression of the store holds
    /// yet: it takes the number that the counter shows, and the counter
    /// moves on. Gives `IndexOverflow`, and changes nothing, once the counter
    /// has reached the end of its range.
    pub fn free_var(&mut self, ty: ExprPtr) -> (r: Result<ExprPtr, KernelError>)
        requires
            old(self).wf(),
            old(self).stores().has_expr(ty),
        ensures
            final(self).wf(),
            final(self).ext(old(self)),
            memo_entries(final(self).infers) == memo_entries(old(self).infers),
            memo_entries(final(self).whnfs) == memo_entries(old(self).whnfs),
            old(self).kstate().next_fvar == old(self).next_fvar,
            final(self).agrees(r, fresh(old(self).kstate(), old(self).stores().term(ty))),
            rec_rule_items(final(self).rec_rules) == rec_rule_items(old(self).rec_rules),
            match r {
                Ok(p) => {
                    &&& final(self).next_fvar == old(self).next_fvar + 1
                    &&& final(self).stores().with_expr(
                        old(self).stores(),
                        (ExprNode::FreeVar { hash: 0, idx: old(self).next_fvar, ty }).hashed(),
                        p,
                    )
                },
                Err(e) => final(self).next_fvar == old(self).next_fvar && final(self).stores()
                    == old(self).stores(),
            },
    {
        proof {
            reveal(ExportFile::wf);
        }
        proof {
            reveal(ExportFile::kstate);
            reveal(ExportFile::decls);
            reveal(ExportFile::decl_list);
        }
        if self.next_fvar == u32::MAX {
            proof {
                self.lemma_views_kept(old(self));
            }
            return Err(KernelError::IndexOverflow);
        }
        let idx = self.next_fvar;
        self.next_fvar = idx + 1;
        proof {
            self.lemma_views_kept(old(self));
            assert(self.kstate().infers == old(self).kstate().infers);
            assert(self.kstate().whnfs == old(self).kstate().whnfs);
        }
        let hash = digest_of_words(&vec![FREE_VAR_HASH, idx as u64, ty.idx as u64]);
        let p = self.alloc_expr(Expr::FreeVar { idx, ty, hash });
        assert(self.stores().expr_ok(self.stores().exprs[p.idx as int], p.idx as int));
        assert(self.stores().term(p) == Term::FVar(idx, Box::new(self.stores().term(ty))));
        Ok(p)
    }

    /// The expression `e` with the level parameters listed in `ups_dec`
    /// replaced by the levels at the same places of `ups_const`. Levels are
    /// not substituted in free variables: an expression that holds one gives
    /// `FVarInSubst`.
    pub fn subst_expr_universes(
        &mut self,
        e: ExprPtr,
        ups_dec: UparamsPtr,
        ups_const: UparamsPtr,
    ) -> (r: Result<ExprPtr, KernelError>)
        requires
            old(self).wf(),
            old(self).stores().has_expr(e),
            old(self).stores().has_uparams(ups_dec),
            old(self).stores().has_uparams(ups_const),
        ensures
            final(self).grown(old(self)),
            match r {
                Ok(p) => {
                    &&& !old(self).stores().term(e).has_fvar()
                    &&& final(self).stores().has_expr(p)
                    &&& final(self).stores().term(p) == subst_term(
                        old(self).stores().term(e),
                        old(self).stores().levels(ups_dec),
                        old(self).stores().levels(ups_const),
                    )
                },
                Err(err) => err == KernelError::FVarInSubst && old(self).stores().term(e).has_fvar(),
            },
        decreases e.idx,
    {
        proof {
            reveal(ExportFile::wf);
        }
        match self.read_expr(e) {
            Expr::Var { .. } => Ok(e),
            Expr::NatLit { .. } => Ok(e),
            Expr::StrLit { .. } => Ok(e),
            Expr::FreeVar { .. } => Err(KernelError::FVarInSubst),
            Expr::Sort { universe, .. } => {
                let universe = self.subst_universe(universe, ups_dec, ups_const);
                Ok(self.sort(universe))
            },
            Expr::Const { name, universes, .. } => {
                let universes = self.subst_universes(universes, ups_dec, ups_const);
                Ok(self.mk_const(name, universes))
            },
            Expr::App { fun, arg, .. } => {
                let f = self.subst_expr_universes(fun, ups_dec, ups_const)?;
                let a = self.subst_expr_universes(arg, ups_dec, ups_const)?;
                Ok(self.app(f, a))
            },
            Expr::Lambda { name, ty, body, .. } => {
                let t = self.subst_expr_universes(ty, ups_dec, ups_const)?;
                let b = self.subst_expr_universes(body, ups_dec, ups_const)?;
                Ok(self.lambda(name, t, b))
            },
            Expr::Pi { name, ty, body, .. } => {
                let t = self.subst_expr_universes(ty, ups_dec, ups_const)?;
                let b = self.subst_expr_universes(body, ups_dec, ups_const)?;
                Ok(self.pi(name, t, b))
            },
            Expr::Let { name, ty, val: val_let, body, .. } => {
                let t = self.subst_expr_universes(ty, ups_dec, ups_const)?;
                let v = self.subst_expr_universes(val_let, ups_dec, ups_const)?;
                let b = self.subst_expr_universes(body, ups_dec, ups_const)?;
                Ok(self.mk_let(name, t, v, b))
            },
            Expr::Proj { name, idx, structure, .. } => {
                let s = self.subst_expr_universes(structure, ups_dec, ups_const)?;
                Ok(self.proj(name, idx, s))
            },
        }
    }

    /// The expression `e` with the free variable `val` replaced by the
    /// bound variable `deph`, and the bound variables from `deph` on moved up
    /// by one. Gives `IndexOverflow` when an index would leave its range.
    pub fn abstr(&mut self, e: ExprPtr, val: ExprPtr, deph: u32) -> (r: Result<
        ExprPtr,
        KernelError,
    >)
        requires
            old(self).wf(),
            old(self).stores().has_expr(e),
            old(self).stores().has_expr(val),
        ensures
            final(self).grown(old(self)),
            match r {
                Ok(p) => {
                    &&& abstr_fits(old(self).stores().term(e), deph as nat)
                    &&& final(self).stores().has_expr(p)
                    &&& final(self).stores().term(p) == abstr_term(
                        old(self).stores().term(e),
                        old(self).stores().term(val),
                        deph as nat,
                    )
                },
                Err(err) => err == KernelError::IndexOverflow && !abstr_fits(
                    old(self).stores().term(e),
                    deph as nat,
                ),
            },
        decreases e.idx,
    {
        proof {
            reveal(ExportFile::wf);
        }
        match self.read_expr(e) {
            Expr::FreeVar { .. } => {
                proof {
                    if self.stores().term(e) == self.stores().term(val) {
                        self.stores().lemma_term_injective(e, val);
                    }
                }
                if e.idx == val.idx {
                    Ok(self.var(deph))
                } else {
                    Ok(e)
                }
            },
            Expr::Var { dbj_idx, .. } => {
                if dbj_idx >= deph {
                    if dbj_idx == u32::MAX {
                        return Err(KernelError::IndexOverflow);
                    }
                    Ok(self.var(dbj_idx + 1))
                } else {
                    Ok(e)
                }
            },
            Expr::NatLit { .. } => Ok(e),
            Expr::StrLit { .. } => Ok(e),
            Expr::Sort { .. } => Ok(e),
            Expr::Const { .. } => Ok(e),
            Expr::App { fun, arg, .. } => {
                let f = self.abstr(fun, val, deph)?;
                let a = self.abstr(arg, val, deph)?;
                Ok(self.app(f, a))
            },
            Expr::Lambda { name, ty, body, .. } => {
                let t = self.abstr(ty, val, deph)?;
                if deph == u32::MAX {
                    return Err(KernelError::IndexOverflow);
                }
                let b = self.abstr(body, val, deph + 1)?;
                Ok(self.lambda(name, t, b))
            },
            Expr::Pi { name, ty, body, .. } => {
                let t = self.abstr(ty, val, deph)?;
                if deph == u32::MAX {
                    return Err(KernelError::IndexOverflow);
                }
                let b = self.abstr(body, val, deph + 1)?;
                Ok(self.pi(name, t, b))
            },
            Expr::Let { name, ty, val: val_let, body, .. } => {
                let t = self.abstr(ty, val, deph)?;
                let v = self.abstr(val_let, val, deph)?;
                if deph == u32::MAX {
                    return Err(KernelError::IndexOverflow);
                }
                let b = self.abstr(body, val, deph + 1)?;
                Ok(self.mk_let(name, t, v, b))
            },
            Expr::Proj { name, idx, structure, .. } => {
                let s = self.abstr(structure, val, deph)?;
                Ok(self.proj(name, idx, s))
            },
        }
    }

    /// The expression `e` with the bound variable `deph` replaced by `val`,
    /// and the bound variables above `deph` moved down by one. Gives
    /// `IndexOverflow` when a binder would be entered past the last index.
    pub fn inst(&mut self, e: ExprPtr, val: ExprPtr, deph: u32) -> (r: Result<
        ExprPtr,
        KernelError,
    >)
        requires
            old(self).wf(),
            old(self).stores().has_expr(e),
            old(self).stores().has_expr(val),
        ensures
            final(self).grown(old(self)),
            match r {
                Ok(p) => {
                    &&& inst_fits(old(self).stores().term(e), deph as nat)
                    &&& final(self).stores().has_expr(p)
                    &&& final(self).stores().term(p) == inst_term(
                        old(self).stores().term(e),
                        old(self).stores().term(val),
                        deph as nat,
                    )
                },
                Err(err) => err == KernelError::IndexOverflow && !inst_fits(
                    old(self).stores().term(e),
                    deph as nat,
                ),
            },
        decreases e.idx,
    {
        proof {
            reveal(ExportFile::wf);
        }
        match self.read_expr(e) {
            Expr::Var { dbj_idx, .. } => {
                if dbj_idx == deph {
                    Ok(val)
                } else if dbj_idx > deph {
                    Ok(self.var(dbj_idx - 1))
                } else {
                    Ok(e)
                }
            },
            Expr::NatLit { .. } => Ok(e),
            Expr::StrLit { .. } => Ok(e),
            Expr::FreeVar { .. } => Ok(e),
            Expr::Sort { .. } => Ok(e),
            Expr::Const { .. } => Ok(e),
            Expr::App { fun, arg, .. } => {
                let f = self.inst(fun, val, deph)?;
                let a = self.inst(arg, val, deph)?;
                Ok(self.app(f, a))
            },
            Expr::Lambda { name, ty, body, .. } => {
                let t = self.inst(ty, val, deph)?;
                if deph == u32::MAX {
                    return Err(KernelError::IndexOverflow);
                }
                let b = self.inst(body, val, deph + 1)?;
                Ok(self.lambda(name, t, b))
            },
            Expr::Pi { name, ty, body, .. } => {
                let t = self.inst(ty, val, deph)?;
                if deph == u32::MAX {
                    return Err(KernelError::IndexOverflow);
                }
                let b = self.inst(body, val, deph + 1)?;
                Ok(self.pi(name, t, b))
            },
            Expr::Let { name, ty, val: val_let, body, .. } => {
                let t = self.inst(ty, val, deph)?;
                let v = self.inst(val_let, val, deph)?;
                if deph == u32::MAX {
                    return Err(KernelError::IndexOverflow);
                }
                let b = self.inst(body, val, deph + 1)?;
                Ok(self.mk_let(name, t, v, b))
            },
            Expr::Proj { name, idx, structure, .. } => {
                let s = self.inst(structure, val, deph)?;
                Ok(self.proj(name, idx, s))
            },
        }
    }
}

} // verus!
