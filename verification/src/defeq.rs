//! Definitional equality.

use crate::declar::Declar;
use crate::error::KernelError;
use crate::expr::{Expr, ExprPtr};
use crate::kernel::{
    def_eq_head, def_eq_spec, def_eq_struct_spec, def_eq_tail, eq_binders, eta,
    proof_irrelevant_spec, struct_check, struct_fields, unit_check, unit_like_spec,
};
use crate::name::NamePtr;
use crate::universe::Level;
use crate::util::ExportFile;
use vstd::prelude::*;

verus! {

impl ExportFile {
    /// Whether `x` and `y` are definitionally equal. `fuel` bounds the depth
    /// of nested checks; equal handles need none.
    pub fn def_eq(&mut self, x: ExprPtr, y: ExprPtr, fuel: usize) -> (r: Result<bool, KernelError>)
        requires
            old(self).wf(),
            old(self).stores().has_expr(x),
            old(self).stores().has_expr(y),
        ensures
            final(self).checked(old(self)),
            final(self).agrees_bool(
                r,
                def_eq_spec(
                    old(self).decls(),
                    old(self).kstate(),
                    old(self).stores().term(x),
                    old(self).stores().term(y),
                    fuel as nat,
                ),
            ),
        decreases fuel, 1nat, 0nat,
    {
        proof {
            if self.stores().term(x) == self.stores().term(y) {
                self.lemma_same_term(x, y);
            }
        }
        if x.idx == y.idx {
            return Ok(true);
        }
        if fuel == 0 {
            return Err(KernelError::OutOfFuel);
        }
        let g = fuel - 1;
        match self.def_eq_head(x, y, g)? {
            Some(b) => Ok(b),
            None => self.def_eq_tail(x, y, g),
        }
    }

    /// The rules of definitional equality by the forms of `x` and `y`: an
    /// answer, or none where the question stays open.
    pub(crate) fn def_eq_head(&mut self, x: ExprPtr, y: ExprPtr, g: usize) -> (r: Result<
        Option<bool>,
        KernelError,
    >)
        requires
            old(self).wf(),
            old(self).stores().has_expr(x),
            old(self).stores().has_expr(y),
        ensures
            final(self).checked(old(self)),
            final(self).agrees_open(
                r,
                def_eq_head(
                    old(self).decls(),
                    old(self).kstate(),
                    old(self).stores().term(x),
                    old(self).stores().term(y),
                    g as nat,
                ),
            ),
        decreases g, 3nat, 1nat,
    {
        match self.read_expr_pair(x, y) {
            (Expr::Var { .. }, _) => Err(KernelError::LooseBVar),
            (_, Expr::Var { .. }) => Err(KernelError::LooseBVar),
            (Expr::FreeVar { idx: idx_x, .. }, Expr::FreeVar { idx: idx_y, .. }) => Ok(
                Some(idx_x == idx_y),
            ),
            (Expr::Sort { universe: u_x, .. }, Expr::Sort { universe: u_y, .. }) => Ok(
                Some(self.leq(u_x, u_y, 0) && self.leq(u_y, u_x, 0)),
            ),
            (
                Expr::Const { name: n1, universes: u1, .. },
                Expr::Const { name: n2, universes: u2, .. },
            ) => {
                proof {
                    if self.stores().name(n1) == self.stores().name(n2) {
                        self.lemma_same_name(n1, n2);
                    }
                }
                if n1.idx == n2.idx {
                    Ok(Some(self.leq_many(u1, u2)))
                } else if self.unit_like(x, y, g)? {
                    Ok(Some(true))
                } else if self.unit_like(y, x, g)? {
                    Ok(Some(true))
                } else {
                    Ok(None)
                }
            },
            (Expr::App { fun: f1, arg: a1, .. }, Expr::App { fun: f2, arg: a2, .. }) => {
                if self.def_eq(f1, f2, g)? {
                    Ok(Some(self.def_eq(a1, a2, g)?))
                } else {
                    Ok(None)
                }
            },
            (
                Expr::Lambda { ty: ty1, body: b1, .. },
                Expr::Lambda { ty: ty2, body: b2, .. },
            ) => self.eq_binders(ty1, b1, ty2, b2, g),
            (Expr::Pi { ty: ty1, body: b1, .. }, Expr::Pi { ty: ty2, body: b2, .. }) => {
                self.eq_binders(ty1, b1, ty2, b2, g)
            },
            (Expr::Let { val: v1, body: b1, .. }, Expr::Let { val: v2, body: b2, .. }) => {
                if self.def_eq(v1, v2, g)? {
                    let x1 = self.inst(b1, v1, 0)?;
                    let y1 = self.inst(b2, v2, 0)?;
                    Ok(Some(self.def_eq(x1, y1, g)?))
                } else {
                    Ok(None)
                }
            },
            (
                Expr::Proj { name: n1, idx: i1, structure: s1, .. },
                Expr::Proj { name: n2, idx: i2, structure: s2, .. },
            ) => {
                proof {
                    if self.stores().name(n1) == self.stores().name(n2) {
                        self.lemma_same_name(n1, n2);
                    }
                }
                if n1.idx == n2.idx && i1 == i2 {
                    Ok(Some(self.def_eq(s1, s2, g)?))
                } else {
                    Ok(Some(false))
                }
            },
            (Expr::Lambda { .. }, _) => self.eta(x, y, true, g),
            (_, Expr::Lambda { .. }) => self.eta(y, x, false, g),
            (Expr::App { .. }, _) => {
                if self.def_eq_struct(y, x, g)? {
                    Ok(Some(true))
                } else {
                    Ok(None)
                }
            },
            (_, Expr::App { .. }) => {
                if self.def_eq_struct(x, y, g)? {
                    Ok(Some(true))
                } else {
                    Ok(None)
                }
            },
            _ => Ok(None),
        }
    }

    /// Compares two binders with the given domains and bodies.
    pub(crate) fn eq_binders(
        &mut self,
        ty1: ExprPtr,
        b1: ExprPtr,
        ty2: ExprPtr,
        b2: ExprPtr,
        g: usize,
    ) -> (r: Result<Option<bool>, KernelError>)
        requires
            old(self).wf(),
            old(self).stores().has_expr(ty1),
            old(self).stores().has_expr(b1),
            old(self).stores().has_expr(ty2),
            old(self).stores().has_expr(b2),
        ensures
            final(self).checked(old(self)),
            final(self).agrees_open(
                r,
                eq_binders(
                    old(self).decls(),
                    old(self).kstate(),
                    old(self).stores().term(ty1),
                    old(self).stores().term(b1),
                    old(self).stores().term(ty2),
                    old(self).stores().term(b2),
                    g as nat,
                ),
            ),
        decreases g, 3nat, 0nat,
    {
        if self.def_eq(ty1, ty2, g)? {
            let free = self.free_var(ty1)?;
            let a = self.inst(b1, free, 0)?;
            let b = self.inst(b2, free, 0)?;
            Ok(Some(self.def_eq(a, b, g)?))
        } else {
            Ok(None)
        }
    }

    /// Compares the function `lam` with `other`, which is none, by way of
    /// the type of `other`.
    pub(crate) fn eta(
        &mut self,
        lam: ExprPtr,
        other: ExprPtr,
        lam_first: bool,
        g: usize,
    ) -> (r: Result<
        Option<bool>,
        KernelError,
    >)
        requires
            old(self).wf(),
            old(self).stores().has_expr(lam),
            old(self).stores().has_expr(other),
        ensures
            final(self).checked(old(self)),
            final(self).agrees_open(
                r,
                eta(
                    old(self).decls(),
                    old(self).kstate(),
                    old(self).stores().term(lam),
                    old(self).stores().term(other),
                    lam_first,
                    g as nat,
                ),
            ),
        decreases g, 3nat, 0nat,
    {
        let i = self.infer(other, g)?;
        let w = self.whnf(i, g)?;
        match self.read_expr(w) {
            Expr::Pi { name, ty, .. } => {
                let var = self.var(0);
                let lambda = self.lambda(name, ty, var);
                let app = self.app(lambda, other);
                if lam_first {
                    Ok(Some(self.def_eq(lam, app, g)?))
                } else {
                    Ok(Some(self.def_eq(app, lam, g)?))
                }
            },
            _ => Ok(None),
        }
    }

    /// Decides by proof irrelevance and by reduction what the forms of `x`
    /// and `y` left open.
    pub(crate) fn def_eq_tail(
        &mut self,
        x: ExprPtr,
        y: ExprPtr,
        g: usize,
    ) -> (r: Result<bool, KernelError>)
        requires
            old(self).wf(),
            old(self).stores().has_expr(x),
            old(self).stores().has_expr(y),
        ensures
            final(self).checked(old(self)),
            final(self).agrees_bool(
                r,
                def_eq_tail(
                    old(self).decls(),
                    old(self).kstate(),
                    old(self).stores().term(x),
                    old(self).stores().term(y),
                    g as nat,
                ),
            ),
        decreases g, 3nat, 0nat,
    {
        if self.proof_irrelevant(x, y, g)? {
            return Ok(true);
        }
        if self.proof_irrelevant(y, x, g)? {
            return Ok(true);
        }
        let whnf_x = self.whnf(x, g)?;
        let whnf_y = self.whnf(y, g)?;
        proof {
            if self.stores().term(whnf_x) == self.stores().term(x) {
                self.lemma_same_term(whnf_x, x);
            }
            if self.stores().term(whnf_y) == self.stores().term(y) {
                self.lemma_same_term(whnf_y, y);
            }
        }
        if whnf_x.idx != x.idx || whnf_y.idx != y.idx {
            return self.def_eq(whnf_x, whnf_y, g);
        }
        Ok(false)
    }

    /// Whether `y` is equal to the constant `x` because the declared type
    /// of `x` is a structure.
    pub fn unit_like(&mut self, x: ExprPtr, y: ExprPtr, fuel: usize) -> (r: Result<
        bool,
        KernelError,
    >)
        requires
            old(self).wf(),
            old(self).stores().has_expr(x),
            old(self).stores().has_expr(y),
        ensures
            final(self).checked(old(self)),
            final(self).agrees_bool(
                r,
                unit_like_spec(
                    old(self).decls(),
                    old(self).kstate(),
                    old(self).stores().term(x),
                    old(self).stores().term(y),
                    fuel as nat,
                ),
            ),
        decreases fuel, 1nat, 0nat,
    {
        match self.read_expr(x) {
            Expr::Const { name: n1, universes, .. } => {
                let dec = match self.read_declar(n1) {
                    Some(dec) => dec,
                    None => {
                        return Err(KernelError::UnknownDeclaration);
                    },
                };
                let (head, _) = self.spine(dec.ty());
                match self.read_expr(head) {
                    Expr::Const { name, .. } => {
                        let ind = match self.read_declar(name) {
                            Some(ind) => ind,
                            None => {
                                return Err(KernelError::UnknownDeclaration);
                            },
                        };
                        match ind {
                            Declar::Inductive { all_ctor_names, num_indices, .. } => {
                                if all_ctor_names.len() == 1 && num_indices == 0 {
                                    if fuel == 0 {
                                        return Err(KernelError::OutOfFuel);
                                    }
                                    let u1 = self.read_uparams(universes);
                                    self.unit_check(x, y, u1.len(), all_ctor_names[0], fuel - 1)
                                } else {
                                    Ok(false)
                                }
                            },
                            _ => Ok(false),
                        }
                    },
                    _ => Ok(false),
                }
            },
            _ => Ok(false),
        }
    }

    /// Whether `x` and `y` have equal types and `ctor_name` names a
    /// constructor with `arity` level parameters.
    pub(crate) fn unit_check(
        &mut self,
        x: ExprPtr,
        y: ExprPtr,
        arity: usize,
        ctor_name: NamePtr,
        g: usize,
    ) -> (r: Result<bool, KernelError>)
        requires
            old(self).wf(),
            old(self).stores().has_expr(x),
            old(self).stores().has_expr(y),
            old(self).stores().has_name(ctor_name),
        ensures
            final(self).checked(old(self)),
            final(self).agrees_bool(
                r,
                unit_check(
                    old(self).decls(),
                    old(self).kstate(),
                    old(self).stores().term(x),
                    old(self).stores().term(y),
                    arity as nat,
                    old(self).stores().name(ctor_name),
                    g as nat,
                ),
            ),
        decreases g, 3nat, 0nat,
    {
        let infer_x = self.infer(x, g)?;
        let infer_y = self.infer(y, g)?;
        if self.def_eq(infer_x, infer_y, g)? {
            let ctor = match self.read_declar(ctor_name) {
                Some(ctor) => ctor,
                None => {
                    return Err(KernelError::UnknownDeclaration);
                },
            };
            match ctor {
                Declar::Constructor { uparams, .. } => {
                    let u2 = self.read_uparams(uparams);
                    Ok(arity == u2.len())
                },
                _ => Ok(false),
            }
        } else {
            Ok(false)
        }
    }

    /// Whether `x` and `y` are proofs of one proposition.
    pub fn proof_irrelevant(&mut self, x: ExprPtr, y: ExprPtr, fuel: usize) -> (r: Result<
        bool,
        KernelError,
    >)
        requires
            old(self).wf(),
            old(self).stores().has_expr(x),
            old(self).stores().has_expr(y),
        ensures
            final(self).checked(old(self)),
            final(self).agrees_bool(
                r,
                proof_irrelevant_spec(
                    old(self).decls(),
                    old(self).kstate(),
                    old(self).stores().term(x),
                    old(self).stores().term(y),
                    fuel as nat,
                ),
            ),
        decreases fuel, 1nat, 0nat,
    {
        if fuel == 0 {
            return Err(KernelError::OutOfFuel);
        }
        let g = fuel - 1;
        let infer_x = self.infer(x, g)?;
        let infer_y = self.infer(y, g)?;
        let sort_x = self.is_sort(infer_x, g)?;
        let zero = self.zero();
        proof {
            if self.stores().level(sort_x) == Level::Zero {
                self.lemma_same_level(sort_x, zero);
            }
        }
        if sort_x.idx == zero.idx {
            let sort_y = self.is_sort(infer_y, g)?;
            proof {
                if self.stores().level(sort_y) == Level::Zero {
                    self.lemma_same_level(sort_y, zero);
                }
            }
            if sort_y.idx == zero.idx {
                return self.def_eq(infer_x, infer_y, g);
            }
        }
        Ok(false)
    }

    /// Whether `x` equals the constructor application `y` field by field.
    pub fn def_eq_struct(&mut self, x: ExprPtr, y: ExprPtr, fuel: usize) -> (r: Result<
        bool,
        KernelError,
    >)
        requires
            old(self).wf(),
            old(self).stores().has_expr(x),
            old(self).stores().has_expr(y),
        ensures
            final(self).checked(old(self)),
            final(self).agrees_bool(
                r,
                def_eq_struct_spec(
                    old(self).decls(),
                    old(self).kstate(),
                    old(self).stores().term(x),
                    old(self).stores().term(y),
                    fuel as nat,
                ),
            ),
        decreases fuel, 1nat, 0nat,
    {
        let (s, args) = self.spine(y);
        match self.read_expr(s) {
            Expr::Const { name, .. } => {
                let dec = match self.read_declar(name) {
                    Some(dec) => dec,
                    None => {
                        return Err(KernelError::UnknownDeclaration);
                    },
                };
                match dec {
                    Declar::Constructor { num_params, num_fields, parent, .. } => {
                        let ind = match self.read_declar(parent) {
                            Some(ind) => ind,
                            None => {
                                return Err(KernelError::UnknownDeclaration);
                            },
                        };
                        match ind {
                            Declar::Inductive { all_ctor_names, num_indices, .. } => {
                                if all_ctor_names.len() == 1 && num_indices == 0 {
                                    let num: u64 = num_params as u64 + num_fields as u64;
                                    if args.len() as u64 == num {
                                        if fuel == 0 {
                                            return Err(KernelError::OutOfFuel);
                                        }
                                        return self.struct_check(
                                            x,
                                            y,
                                            parent,
                                            num_params,
                                            &args,
                                            num_fields,
                                            fuel - 1,
                                        );
                                    }
                                }
                                Ok(false)
                            },
                            _ => Ok(false),
                        }
                    },
                    _ => Ok(false),
                }
            },
            _ => Ok(false),
        }
    }

    /// Whether `x` and the constructor application `y`, whose arguments
    /// are `args`, have equal types and equal fields.
    pub(crate) fn struct_check(
        &mut self,
        x: ExprPtr,
        y: ExprPtr,
        parent: NamePtr,
        num_params: u32,
        args: &Vec<ExprPtr>,
        num_fields: u32,
        g: usize,
    ) -> (r: Result<bool, KernelError>)
        requires
            old(self).wf(),
            old(self).stores().has_expr(x),
            old(self).stores().has_expr(y),
            old(self).stores().has_name(parent),
            old(self).has_exprs(args@),
            old(self).terms_of(args@) == crate::kernel::spine_args(old(self).stores().term(y)),
            args@.len() == num_params + num_fields,
        ensures
            final(self).checked(old(self)),
            final(self).agrees_bool(
                r,
                struct_check(
                    old(self).decls(),
                    old(self).kstate(),
                    old(self).stores().term(x),
                    old(self).stores().term(y),
                    old(self).stores().name(parent),
                    num_params as nat,
                    num_fields as nat,
                    g as nat,
                ),
            ),
        decreases g, 3nat, 0nat,
    {
        let ghost all = self.terms_of(args@);
        let inf_x = self.infer(x, g)?;
        let inf_y = self.infer(y, g)?;
        if self.def_eq(inf_x, inf_y, g)? {
            proof {
                assert forall|j: int| 0 <= j < args@.len() implies self.stores().has_expr(
                    #[trigger] args@[j],
                ) && self.stores().term(args@[j]) == all[j] by {
                    assert(old(self).stores().has_expr(args@[j]));
                    assert(all[j] == old(self).stores().term(args@[j]));
                }
                assert(self.terms_of(args@) =~= all);
            }
            self.struct_fields(parent, num_params, x, args, 0, num_fields, g)
        } else {
            Ok(false)
        }
    }

    /// Compares the projections `i..n` of `x` with the fields among
    /// `args`.
    pub(crate) fn struct_fields(
        &mut self,
        parent: NamePtr,
        num_params: u32,
        x: ExprPtr,
        args: &Vec<ExprPtr>,
        i: u32,
        n: u32,
        g: usize,
    ) -> (r: Result<bool, KernelError>)
        requires
            old(self).wf(),
            old(self).stores().has_name(parent),
            old(self).stores().has_expr(x),
            old(self).has_exprs(args@),
            args@.len() == num_params + n,
            i <= n,
        ensures
            final(self).checked(old(self)),
            final(self).agrees_bool(
                r,
                struct_fields(
                    old(self).decls(),
                    old(self).kstate(),
                    old(self).stores().name(parent),
                    num_params as nat,
                    old(self).stores().term(x),
                    old(self).terms_of(args@),
                    i as nat,
                    n as nat,
                    g as nat,
                ),
            ),
        decreases g, 2nat, n - i,
    {
        if i >= n {
            return Ok(true);
        }
        let ghost all = self.terms_of(args@);
        let pos: u64 = num_params as u64 + i as u64;
        if pos > u32::MAX as u64 {
            return Err(KernelError::IndexOverflow);
        }
        assert(self.stores().has_expr(args@[pos as int]));
        assert(all[pos as int] == self.stores().term(args@[pos as int]));
        let proj = self.proj(parent, pos as u32, x);
        if !self.def_eq(proj, args[pos as usize], g)? {
            return Ok(false);
        }
        proof {
            assert forall|j: int| 0 <= j < args@.len() implies self.stores().has_expr(
                #[trigger] args@[j],
            ) && self.stores().term(args@[j]) == all[j] by {
                assert(old(self).stores().has_expr(args@[j]));
                assert(all[j] == old(self).stores().term(args@[j]));
            }
            assert(self.terms_of(args@) =~= all);
        }
        self.struct_fields(parent, num_params, x, args, i + 1, n, g)
    }
}

} // verus!
