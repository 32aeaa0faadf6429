//! Inference of types.

use crate::declar::Declar;
use crate::error::KernelError;
use crate::expr::{Expr, ExprPtr, Term};
use crate::kernel::{
    infer_app, infer_case, infer_lam, infer_let, infer_pi, infer_proj, infer_spec,
    is_sort_spec, proj_fields, proj_params, proj_type, proj_walk,
};
use crate::name::{NamePtr, NameTerm};
use crate::store::memo_entries;
use crate::universe::{Level, UniversePtr};
use crate::util::ExportFile;
use vstd::prelude::*;
use vstd::string::StringExecFns;

verus! {

impl ExportFile {
    /// The type of `e`. A type that the memo table holds is returned as it
    /// is; one that is computed is recorded. `fuel` bounds the depth of
    /// nested checks.
    pub fn infer(&mut self, e: ExprPtr, fuel: usize) -> (r: Result<ExprPtr, KernelError>)
        requires
            old(self).wf(),
            old(self).stores().has_expr(e),
        ensures
            final(self).checked(old(self)),
            final(self).agrees(
                r,
                infer_spec(
                    old(self).decls(),
                    old(self).kstate(),
                    old(self).stores().term(e),
                    fuel as nat,
                ),
            ),
            memo_entries(old(self).infers).contains_key(e) ==> *final(self) == *old(self) && r
                == Ok::<ExprPtr, KernelError>(memo_entries(old(self).infers)[e]),
            r is Ok ==> memo_entries(final(self).infers).contains_key(e) && memo_entries(
                final(self).infers,
            )[e] == r.unwrap(),
        decreases fuel, 1nat, 0nat,
    {
        match self.read_infer(e) {
            Some(out) => {
                return Ok(out);
            },
            None => {},
        }
        let out = self.infer_rule(e, fuel)?;
        self.record_infer(e, out);
        Ok(out)
    }

    /// The constant that is the type of the literals called `text`.
    pub(crate) fn literal_type(&mut self, text: &str) -> (p: ExprPtr)
        requires
            old(self).wf(),
        ensures
            final(self).grown(old(self)),
            final(self).stores().has_expr(p),
            final(self).stores().term(p) == Term::Const(
                NameTerm::Str(Box::new(NameTerm::Anon), text@),
                Seq::empty(),
            ),
    {
        let anon = self.anonymous();
        let name = self.mk_str(anon, String::from_str(text));
        let vuoto = self.alloc_uparams(Vec::new());
        assert(self.stores().levels(vuoto) =~= Seq::<Level>::empty());
        self.mk_const(name, vuoto)
    }

    /// The rule of inference for the form of `e`.
    pub(crate) fn infer_rule(&mut self, e: ExprPtr, fuel: usize) -> (r: Result<
        ExprPtr,
        KernelError,
    >)
        requires
            old(self).wf(),
            old(self).stores().has_expr(e),
        ensures
            final(self).checked(old(self)),
            final(self).agrees(
                r,
                infer_case(
                    old(self).decls(),
                    old(self).kstate(),
                    old(self).stores().term(e),
                    fuel as nat,
                ),
            ),
        decreases fuel, 0nat, 0nat,
    {
        match self.read_expr(e) {
            Expr::Var { .. } => Err(KernelError::LooseBVar),
            Expr::FreeVar { ty, .. } => Ok(ty),
            Expr::NatLit { .. } => Ok(self.literal_type("Nat")),
            Expr::StrLit { .. } => Ok(self.literal_type("String")),
            Expr::Sort { universe, .. } => {
                let s = self.succ(universe);
                Ok(self.sort(s))
            },
            Expr::Const { name, universes, .. } => {
                let dec = match self.read_declar(name) {
                    Some(dec) => dec,
                    None => {
                        return Err(KernelError::UnknownDeclaration);
                    },
                };
                proof {
                    if self.stores().levels(dec@.uparams()) == self.stores().levels(universes) {
                        self.lemma_same_levels(dec@.uparams(), universes);
                    }
                }
                if dec.uparams().idx == universes.idx {
                    return Ok(dec.ty());
                }
                self.subst_expr_universes(dec.ty(), dec.uparams(), universes)
            },
            Expr::Let { ty, val, body, .. } => {
                if fuel == 0 {
                    return Err(KernelError::OutOfFuel);
                }
                self.infer_let(ty, val, body, fuel - 1)
            },
            Expr::Pi { ty, body, .. } => {
                if fuel == 0 {
                    return Err(KernelError::OutOfFuel);
                }
                self.infer_pi(ty, body, fuel - 1)
            },
            Expr::Lambda { name, ty, body, .. } => {
                if fuel == 0 {
                    return Err(KernelError::OutOfFuel);
                }
                self.infer_lam(name, ty, body, fuel - 1)
            },
            Expr::App { fun, arg, .. } => {
                if fuel == 0 {
                    return Err(KernelError::OutOfFuel);
                }
                self.infer_app(fun, arg, fuel - 1)
            },
            Expr::Proj { name, idx, structure, .. } => {
                if fuel == 0 {
                    return Err(KernelError::OutOfFuel);
                }
                self.infer_proj(name, idx, structure, fuel - 1)
            },
        }
    }

    /// The type of a `Let` with the given parts.
    pub(crate) fn infer_let(
        &mut self,
        ty: ExprPtr,
        val: ExprPtr,
        body: ExprPtr,
        g: usize,
    ) -> (r: Result<
        ExprPtr,
        KernelError,
    >)
        requires
            old(self).wf(),
            old(self).stores().has_expr(ty),
            old(self).stores().has_expr(val),
            old(self).stores().has_expr(body),
        ensures
            final(self).checked(old(self)),
            final(self).agrees(
                r,
                infer_let(
                    old(self).decls(),
                    old(self).kstate(),
                    old(self).stores().term(ty),
                    old(self).stores().term(val),
                    old(self).stores().term(body),
                    g as nat,
                ),
            ),
        decreases g, 3nat, 0nat,
    {
        self.is_sort(ty, g)?;
        let v = self.infer(val, g)?;
        if !self.def_eq(ty, v, g)? {
            return Err(KernelError::TypeMismatch);
        }
        let inst = self.inst(body, val, 0)?;
        self.infer(inst, g)
    }

    /// The type of a function type with the given parts.
    pub(crate) fn infer_pi(&mut self, ty: ExprPtr, body: ExprPtr, g: usize) -> (r: Result<
        ExprPtr,
        KernelError,
    >)
        requires
            old(self).wf(),
            old(self).stores().has_expr(ty),
            old(self).stores().has_expr(body),
        ensures
            final(self).checked(old(self)),
            final(self).agrees(
                r,
                infer_pi(
                    old(self).decls(),
                    old(self).kstate(),
                    old(self).stores().term(ty),
                    old(self).stores().term(body),
                    g as nat,
                ),
            ),
        decreases g, 3nat, 0nat,
    {
        let l = self.is_sort(ty, g)?;
        let free = self.free_var(ty)?;
        let b = self.inst(body, free, 0)?;
        let r = self.is_sort(b, g)?;
        let imax = self.imax(l, r);
        Ok(self.sort(imax))
    }

    /// The type of a function with the given parts.
    pub(crate) fn infer_lam(
        &mut self,
        name: NamePtr,
        ty: ExprPtr,
        body: ExprPtr,
        g: usize,
    ) -> (r: Result<
        ExprPtr,
        KernelError,
    >)
        requires
            old(self).wf(),
            old(self).stores().has_name(name),
            old(self).stores().has_expr(ty),
            old(self).stores().has_expr(body),
        ensures
            final(self).checked(old(self)),
            final(self).agrees(
                r,
                infer_lam(
                    old(self).decls(),
                    old(self).kstate(),
                    old(self).stores().name(name),
                    old(self).stores().term(ty),
                    old(self).stores().term(body),
                    g as nat,
                ),
            ),
        decreases g, 3nat, 0nat,
    {
        self.is_sort(ty, g)?;
        let free = self.free_var(ty)?;
        let inst = self.inst(body, free, 0)?;
        let inf = self.infer(inst, g)?;
        let abstr = self.abstr(inf, free, 0)?;
        Ok(self.pi(name, ty, abstr))
    }

    /// The type of an application with the given parts.
    pub(crate) fn infer_app(&mut self, fun: ExprPtr, arg: ExprPtr, g: usize) -> (r: Result<
        ExprPtr,
        KernelError,
    >)
        requires
            old(self).wf(),
            old(self).stores().has_expr(fun),
            old(self).stores().has_expr(arg),
        ensures
            final(self).checked(old(self)),
            final(self).agrees(
                r,
                infer_app(
                    old(self).decls(),
                    old(self).kstate(),
                    old(self).stores().term(fun),
                    old(self).stores().term(arg),
                    g as nat,
                ),
            ),
        decreases g, 3nat, 0nat,
    {
        let infer = self.infer(fun, g)?;
        let whnf_fun = self.whnf(infer, g)?;
        match self.read_expr(whnf_fun) {
            Expr::Pi { ty, body, .. } => {
                let a = self.infer(arg, g)?;
                if !self.def_eq(ty, a, g)? {
                    return Err(KernelError::TypeMismatch);
                }
                self.inst(body, arg, 0)
            },
            _ => Err(KernelError::ExpectedPi),
        }
    }

    /// The type of a projection with the given parts.
    pub(crate) fn infer_proj(
        &mut self,
        name: NamePtr,
        idx: u32,
        structure: ExprPtr,
        g: usize,
    ) -> (r:
        Result<ExprPtr, KernelError>)
        requires
            old(self).wf(),
            old(self).stores().has_name(name),
            old(self).stores().has_expr(structure),
        ensures
            final(self).checked(old(self)),
            final(self).agrees(
                r,
                infer_proj(
                    old(self).decls(),
                    old(self).kstate(),
                    old(self).stores().name(name),
                    idx,
                    old(self).stores().term(structure),
                    g as nat,
                ),
            ),
        decreases g, 3nat, 2nat,
    {
        let s = self.infer(structure, g)?;
        let s = self.whnf(s, g)?;
        self.proj_type(name, idx, structure, s, g)
    }

    /// The type of the field `idx` of `structure`, whose type is `w`.
    pub(crate) fn proj_type(
        &mut self,
        name: NamePtr,
        idx: u32,
        structure: ExprPtr,
        w: ExprPtr,
        g: usize,
    ) -> (r: Result<ExprPtr, KernelError>)
        requires
            old(self).wf(),
            old(self).stores().has_name(name),
            old(self).stores().has_expr(structure),
            old(self).stores().has_expr(w),
        ensures
            final(self).checked(old(self)),
            final(self).agrees(
                r,
                proj_type(
                    old(self).decls(),
                    old(self).kstate(),
                    old(self).stores().name(name),
                    idx,
                    old(self).stores().term(structure),
                    old(self).stores().term(w),
                    g as nat,
                ),
            ),
        decreases g, 3nat, 1nat,
    {
        let (head, args) = self.spine(w);
        match self.read_expr(head) {
            Expr::Const { name: name_c, universes, .. } => {
                proof {
                    if self.stores().name(name_c) == self.stores().name(name) {
                        self.lemma_same_name(name_c, name);
                    }
                }
                if name_c.idx != name.idx {
                    return Err(KernelError::NotAStructure);
                }
                let dec = match self.read_declar(name) {
                    Some(dec) => dec,
                    None => {
                        return Err(KernelError::UnknownDeclaration);
                    },
                };
                match dec {
                    Declar::Inductive { all_ctor_names, num_indices, .. } => {
                        if all_ctor_names.len() != 1 || num_indices != 0 {
                            return Err(KernelError::NotAStructure);
                        }
                        let ctor_name = all_ctor_names[0];
                        let ctor = match self.read_declar(ctor_name) {
                            Some(ctor) => ctor,
                            None => {
                                return Err(KernelError::UnknownDeclaration);
                            },
                        };
                        match ctor {
                            Declar::Constructor { num_params, ty, uparams, .. } => {
                                let ghost all = self.terms_of(args@);
                                let ctor_ty = self.subst_expr_universes(ty, uparams, universes)?;
                                let n = if (num_params as usize) <= args.len() {
                                    num_params as usize
                                } else {
                                    args.len()
                                };
                                proof {
                                    assert forall|j: int| 0 <= j < args@.len() implies
                                        self.stores().has_expr(#[trigger] args@[j])
                                        && self.stores().term(args@[j]) == all[j] by {
                                        assert(old(self).stores().has_expr(args@[j]));
                                        assert(all[j] == old(self).stores().term(args@[j]));
                                    }
                                    assert(self.terms_of(args@) =~= all);
                                }
                                self.proj_walk(ctor_ty, &args, n, name, idx, structure, g)
                            },
                            _ => Err(KernelError::NotAStructure),
                        }
                    },
                    _ => Err(KernelError::NotAStructure),
                }
            },
            _ => Err(KernelError::NotAStructure),
        }
    }

    /// Reads the type of the field `idx` off the type `kt` of the
    /// constructor.
    pub(crate) fn proj_walk(
        &mut self,
        kt: ExprPtr,
        args: &Vec<ExprPtr>,
        n: usize,
        name: NamePtr,
        idx: u32,
        structure: ExprPtr,
        g: usize,
    ) -> (r: Result<ExprPtr, KernelError>)
        requires
            old(self).wf(),
            old(self).stores().has_expr(kt),
            old(self).has_exprs(args@),
            n <= args.len(),
            old(self).stores().has_name(name),
            old(self).stores().has_expr(structure),
        ensures
            final(self).checked(old(self)),
            final(self).agrees(
                r,
                proj_walk(
                    old(self).decls(),
                    old(self).kstate(),
                    old(self).stores().term(kt),
                    old(self).terms_of(args@),
                    n as nat,
                    old(self).stores().name(name),
                    idx,
                    old(self).stores().term(structure),
                    g as nat,
                ),
            ),
        decreases g, 3nat, 0nat,
    {
        let ctor_ty = self.proj_params(kt, args, 0, n, g)?;
        let ctor_ty = self.proj_fields(ctor_ty, name, structure, 0, idx, g)?;
        let ctor_ty = self.whnf(ctor_ty, g)?;
        match self.read_expr(ctor_ty) {
            Expr::Pi { ty, .. } => Ok(ty),
            _ => Err(KernelError::ExpectedPi),
        }
    }

    /// Puts the parameters `args[i..n]` into the type `kt` of a
    /// constructor.
    pub(crate) fn proj_params(
        &mut self,
        kt: ExprPtr,
        args: &Vec<ExprPtr>,
        i: usize,
        n: usize,
        g: usize,
    ) -> (r:
        Result<ExprPtr, KernelError>)
        requires
            old(self).wf(),
            old(self).stores().has_expr(kt),
            old(self).has_exprs(args@),
            n <= args.len(),
        ensures
            final(self).checked(old(self)),
            final(self).agrees(
                r,
                proj_params(
                    old(self).decls(),
                    old(self).kstate(),
                    old(self).stores().term(kt),
                    old(self).terms_of(args@),
                    i as nat,
                    n as nat,
                    g as nat,
                ),
            ),
        decreases g, 2nat, n - i,
    {
        if i >= n {
            return Ok(kt);
        }
        let ghost all = self.terms_of(args@);
        let w = self.whnf(kt, g)?;
        match self.read_expr(w) {
            Expr::Pi { body, .. } => {
                assert(self.stores().has_expr(args@[i as int]));
                assert(all[i as int] == old(self).stores().term(args@[i as int]));
                let k1 = self.inst(body, args[i], 0)?;
                proof {
                    assert forall|j: int| 0 <= j < args@.len() implies self.stores().has_expr(
                        #[trigger] args@[j],
                    ) && self.stores().term(args@[j]) == all[j] by {
                        assert(old(self).stores().has_expr(args@[j]));
                        assert(all[j] == old(self).stores().term(args@[j]));
                    }
                    assert(self.terms_of(args@) =~= all);
                }
                self.proj_params(k1, args, i + 1, n, g)
            },
            _ => Err(KernelError::ExpectedPi),
        }
    }

    /// Puts the projections of the fields `i..n` of `structure` into the
    /// type `kt` of a constructor.
    pub(crate) fn proj_fields(
        &mut self,
        kt: ExprPtr,
        name: NamePtr,
        structure: ExprPtr,
        i: u32,
        n: u32,
        g: usize,
    ) -> (r: Result<ExprPtr, KernelError>)
        requires
            old(self).wf(),
            old(self).stores().has_expr(kt),
            old(self).stores().has_name(name),
            old(self).stores().has_expr(structure),
        ensures
            final(self).checked(old(self)),
            final(self).agrees(
                r,
                proj_fields(
                    old(self).decls(),
                    old(self).kstate(),
                    old(self).stores().term(kt),
                    old(self).stores().name(name),
                    old(self).stores().term(structure),
                    i as nat,
                    n as nat,
                    g as nat,
                ),
            ),
        decreases g, 2nat, n - i,
    {
        if i >= n {
            return Ok(kt);
        }
        let w = self.whnf(kt, g)?;
        match self.read_expr(w) {
            Expr::Pi { body, .. } => {
                let p = self.proj(name, i, structure);
                let k1 = self.inst(body, p, 0)?;
                self.proj_fields(k1, name, structure, i + 1, n, g)
            },
            _ => Err(KernelError::ExpectedPi),
        }
    }

    /// The level of the sort that `e` lives in.
    pub fn is_sort(&mut self, e: ExprPtr, fuel: usize) -> (r: Result<UniversePtr, KernelError>)
        requires
            old(self).wf(),
            old(self).stores().has_expr(e),
        ensures
            final(self).checked(old(self)),
            final(self).agrees_level(
                r,
                is_sort_spec(
                    old(self).decls(),
                    old(self).kstate(),
                    old(self).stores().term(e),
                    fuel as nat,
                ),
            ),
        decreases fuel, 1nat, 0nat,
    {
        if fuel == 0 {
            return Err(KernelError::OutOfFuel);
        }
        let g = fuel - 1;
        let expr = self.infer(e, g)?;
        let expr = self.whnf(expr, g)?;
        match self.read_expr(expr) {
            Expr::Sort { universe, .. } => Ok(universe),
            Expr::FreeVar { ty, .. } => self.is_sort(ty, g),
            Expr::Const { name, universes, .. } => {
                let d = match self.read_declar(name) {
                    Some(d) => d,
                    None => {
                        return Err(KernelError::UnknownDeclaration);
                    },
                };
                let next = self.subst_expr_universes(d.ty(), d.uparams(), universes)?;
                self.is_sort(next, g)
            },
            _ => Err(KernelError::ExpectedSort),
        }
    }
}

} // verus!
