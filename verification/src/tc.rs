//! Weak head normalization and the checks of declarations, and what it
//! means that a result agrees with the rules of the kernel.

use crate::declar::Declar;
use crate::error::KernelError;
use crate::expr::{Expr, ExprPtr, Term};
use crate::kernel::{
    apply_all, beta, check_all_spec, check_info_spec, check_steps, inst_all, lam_body, lam_count,
    prepend, spine_args, spine_head, term_params_in, whnf_loop, whnf_spec, Step,
};
use crate::name::{NamePtr, NameTerm};
use crate::store::memo_entries;
use crate::universe::{Level, UniversePtr, UparamsPtr};
use crate::util::ExportFile;
use vstd::prelude::*;

verus! {

impl ExportFile {
    /// The expressions that a list of handles stands for.
    pub open spec fn terms_of(&self, l: Seq<ExprPtr>) -> Seq<Term> {
        Seq::new(l.len(), |j: int| self.stores().term(l[j]))
    }

    /// Every handle of the list is one of the expression store.
    pub open spec fn has_exprs(&self, l: Seq<ExprPtr>) -> bool {
        forall|j: int| 0 <= j < l.len() ==> self.stores().has_expr(#[trigger] l[j])
    }

    /// The result `r` and the state of `self` are what the rules give: the
    /// same expression or the same failure, and the same state.
    pub open spec fn agrees(&self, r: Result<ExprPtr, KernelError>, rule: Step<Term>) -> bool {
        match r {
            Ok(p) => {
                &&& rule is Ok
                &&& self.stores().has_expr(p)
                &&& self.stores().term(p) == rule->Ok_0.1
                &&& self.kstate() == rule->Ok_0.0
            },
            Err(e) => rule is Err && rule->Err_0.1 == e && self.kstate() == rule->Err_0.0,
        }
    }

    /// The same for a rule that answers yes or no.
    pub open spec fn agrees_bool(&self, r: Result<bool, KernelError>, rule: Step<bool>) -> bool {
        match r {
            Ok(b) => rule is Ok && rule->Ok_0.1 == b && self.kstate() == rule->Ok_0.0,
            Err(e) => rule is Err && rule->Err_0.1 == e && self.kstate() == rule->Err_0.0,
        }
    }

    /// The same for a rule that may leave its question open.
    pub open spec fn agrees_open(
        &self,
        r: Result<Option<bool>, KernelError>,
        rule: Step<Option<bool>>,
    ) -> bool {
        match r {
            Ok(b) => rule is Ok && rule->Ok_0.1 == b && self.kstate() == rule->Ok_0.0,
            Err(e) => rule is Err && rule->Err_0.1 == e && self.kstate() == rule->Err_0.0,
        }
    }

    /// The same for a rule that gives a level.
    pub open spec fn agrees_level(
        &self,
        r: Result<UniversePtr, KernelError>,
        rule: Step<Level>,
    ) -> bool {
        match r {
            Ok(p) => {
                &&& rule is Ok
                &&& self.stores().has_universe(p)
                &&& self.stores().level(p) == rule->Ok_0.1
                &&& self.kstate() == rule->Ok_0.0
            },
            Err(e) => rule is Err && rule->Err_0.1 == e && self.kstate() == rule->Err_0.0,
        }
    }

    /// The same for a rule that gives a list of names.
    pub open spec fn agrees_names(
        &self,
        r: Result<Vec<NamePtr>, KernelError>,
        rule: Step<Seq<NameTerm>>,
    ) -> bool {
        match r {
            Ok(l) => {
                &&& rule is Ok
                &&& forall|j: int| 0 <= j < l@.len() ==> self.stores().has_name(#[trigger] l@[j])
                &&& self.stores().names_of(l@) == rule->Ok_0.1
                &&& self.kstate() == rule->Ok_0.0
            },
            Err(e) => rule is Err && rule->Err_0.1 == e && self.kstate() == rule->Err_0.0,
        }
    }

    /// `self` is a valid environment that `old` became by checking: the
    /// stores grew, the memo tables and the counter may have changed.
    pub open spec fn checked(&self, old: &ExportFile) -> bool {
        self.wf() && self.ext(old)
    }

    /// Appends the arguments of the chain of applications `e` to `out`, the
    /// first one first, and returns the function at its head.
    fn spine_into(&self, e: ExprPtr, out: &mut Vec<ExprPtr>) -> (head: ExprPtr)
        requires
            self.wf(),
            self.stores().has_expr(e),
            self.has_exprs(old(out)@),
        ensures
            self.stores().has_expr(head),
            self.stores().term(head) == spine_head(self.stores().term(e)),
            self.has_exprs(final(out)@),
            final(out)@.len() == old(out)@.len() + spine_args(self.stores().term(e)).len(),
            final(out)@.subrange(0, old(out)@.len() as int) == old(out)@,
            self.terms_of(final(out)@) == self.terms_of(old(out)@) + spine_args(
                self.stores().term(e),
            ),
        decreases e.idx,
    {
        match self.read_expr(e) {
            Expr::App { fun, arg, .. } => {
                let head = self.spine_into(fun, out);
                let ghost before = out@;
                out.push(arg);
                proof {
                    assert(self.terms_of(out@) =~= self.terms_of(before).push(
                        self.stores().term(arg),
                    ));
                    assert(self.terms_of(out@) =~= self.terms_of(old(out)@) + spine_args(
                        self.stores().term(e),
                    ));
                    assert(out@.subrange(0, old(out)@.len() as int) =~= before.subrange(
                        0,
                        old(out)@.len() as int,
                    ));
                }
                head
            },
            _ => {
                assert(out@.subrange(0, old(out)@.len() as int) =~= old(out)@);
                assert(self.terms_of(out@) =~= self.terms_of(old(out)@) + spine_args(
                    self.stores().term(e),
                ));
                e
            },
        }
    }

    /// The function at the head of the chain of applications `e`, and its
    /// arguments, the first one first.
    pub fn spine(&self, e: ExprPtr) -> (r: (ExprPtr, Vec<ExprPtr>))
        requires
            self.wf(),
            self.stores().has_expr(e),
        ensures
            self.stores().has_expr(r.0),
            self.stores().term(r.0) == spine_head(self.stores().term(e)),
            self.has_exprs(r.1@),
            self.terms_of(r.1@) == spine_args(self.stores().term(e)),
    {
        let mut args: Vec<ExprPtr> = Vec::new();
        let head = self.spine_into(e, &mut args);
        assert(self.terms_of(Seq::<ExprPtr>::empty()) =~= Seq::<Term>::empty());
        assert(self.terms_of(args@) =~= spine_args(self.stores().term(e)));
        (head, args)
    }

    /// Takes the leading arguments of the chain of applications `e` into
    /// the functions at its head.
    fn whnf_app(&mut self, e: ExprPtr) -> (r: Result<ExprPtr, KernelError>)
        requires
            old(self).wf(),
            old(self).stores().has_expr(e),
        ensures
            final(self).grown(old(self)),
            match r {
                Ok(p) => final(self).stores().has_expr(p) && beta(old(self).stores().term(e))
                    == Ok::<Term, KernelError>(final(self).stores().term(p)),
                Err(err) => beta(old(self).stores().term(e)) == Err::<Term, KernelError>(err),
            },
    {
        let (head, args) = self.spine(e);
        let n = args.len();
        let ghost all = self.terms_of(args@);
        let ghost th = self.stores().term(head);
        let ghost count = lam_count(th, n as nat);
        let mut h = head;
        let mut k: usize = 0;
        let mut going = true;
        while going && k < n
            invariant
                k <= n,
                self.wf(),
                *self == *old(self),
                self.stores().has_expr(h),
                k + lam_count(self.stores().term(h), (n - k) as nat) == count,
                lam_body(th, count) == lam_body(self.stores().term(h), (count - k) as nat),
                !going ==> !(self.stores().term(h) is Lam),
            decreases n - k, if going { 1nat } else { 0nat },
        {
            match self.read_expr(h) {
                Expr::Lambda { body, .. } => {
                    h = body;
                    k += 1;
                },
                _ => {
                    going = false;
                },
            }
        }
        assert(count == k);
        let ghost taken = all.take(k as int);
        let ghost body = self.stores().term(h);
        assert(taken.take(k as int) =~= taken);
        let mut i: usize = k;
        while i > 0
            invariant
                i <= k,
                k <= n,
                n == args.len(),
                all.len() == n,
                taken == all.take(k as int),
                self.grown(old(self)),
                self.stores().has_expr(h),
                self.has_exprs(args@),
                self.terms_of(args@) == all,
                inst_all(body, taken) == inst_all(self.stores().term(h), taken.take(i as int)),
                beta(old(self).stores().term(e)) == match inst_all(body, taken) {
                    Err(err) => Err::<Term, KernelError>(err),
                    Ok(b) => Ok(apply_all(b, all.skip(k as int))),
                },
            decreases i,
        {
            let ghost mid = *self;
            let ghost rest = taken.take(i as int);
            assert(rest.last() == self.stores().term(args@[i - 1]));
            assert(rest.drop_last() =~= taken.take(i - 1));
            match self.inst(h, args[i - 1], 0) {
                Ok(x) => {
                    h = x;
                },
                Err(err) => {
                    return Err(err);
                },
            }
            proof {
                self.lemma_ext_trans(&mid, old(self));
                assert forall|j: int| 0 <= j < args@.len() implies self.stores().has_expr(
                    #[trigger] args@[j],
                ) && self.stores().term(args@[j]) == all[j] by {
                    assert(mid.stores().has_expr(args@[j]));
                    assert(mid.terms_of(args@)[j] == mid.stores().term(args@[j]));
                }
                assert(self.terms_of(args@) =~= all);
            }
            i -= 1;
        }
        assert(taken.take(0).len() == 0);
        let ghost reduced = self.stores().term(h);
        let ghost left = all.skip(k as int);
        let mut j: usize = k;
        while j < n
            invariant
                k <= j <= n,
                n == args.len(),
                all.len() == n,
                left == all.skip(k as int),
                self.grown(old(self)),
                self.stores().has_expr(h),
                self.has_exprs(args@),
                self.terms_of(args@) == all,
                apply_all(reduced, left) == apply_all(self.stores().term(h), all.skip(j as int)),
            decreases n - j,
        {
            let ghost mid = *self;
            let ghost rest = all.skip(j as int);
            assert(rest[0] == self.stores().term(args@[j as int]));
            assert(rest.skip(1) =~= all.skip(j + 1));
            h = self.app(h, args[j]);
            proof {
                self.lemma_ext_trans(&mid, old(self));
                assert forall|x: int| 0 <= x < args@.len() implies self.stores().has_expr(
                    #[trigger] args@[x],
                ) && self.stores().term(args@[x]) == all[x] by {
                    assert(mid.stores().has_expr(args@[x]));
                    assert(mid.terms_of(args@)[x] == mid.stores().term(args@[x]));
                }
                assert(self.terms_of(args@) =~= all);
            }
            j += 1;
        }
        assert(all.skip(n as int).len() == 0);
        Ok(h)
    }

    /// The weak head normal form of `v`. A result that the memo table holds
    /// is returned as it is; one that is computed is recorded. `fuel` bounds
    /// the rounds of reduction and the depth of nested normalization.
    pub fn whnf(&mut self, v: ExprPtr, fuel: usize) -> (r: Result<ExprPtr, KernelError>)
        requires
            old(self).wf(),
            old(self).stores().has_expr(v),
        ensures
            final(self).checked(old(self)),
            final(self).agrees(
                r,
                whnf_spec(
                    old(self).decls(),
                    old(self).kstate(),
                    old(self).stores().term(v),
                    fuel as nat,
                ),
            ),
            memo_entries(old(self).whnfs).contains_key(v) ==> *final(self) == *old(self) && r
                == Ok::<ExprPtr, KernelError>(memo_entries(old(self).whnfs)[v]),
            r is Ok ==> memo_entries(final(self).whnfs).contains_key(v) && memo_entries(
                final(self).whnfs,
            )[v] == r.unwrap(),
        decreases fuel, 1nat, 0nat,
    {
        match self.read_whnf(v) {
            Some(out) => {
                return Ok(out);
            },
            None => {},
        }
        let out = match self.reduce_head(v, fuel) {
            Ok(out) => out,
            Err(err) => {
                return Err(err);
            },
        };
        self.record_whnf(v, out);
        Ok(out)
    }

    /// Reduces `v` at its head until it is in weak head normal form.
    fn reduce_head(&mut self, v: ExprPtr, fuel: usize) -> (r: Result<ExprPtr, KernelError>)
        requires
            old(self).wf(),
            old(self).stores().has_expr(v),
        ensures
            final(self).checked(old(self)),
            final(self).agrees(
                r,
                whnf_loop(
                    old(self).decls(),
                    old(self).kstate(),
                    old(self).stores().term(v),
                    fuel as nat,
                ),
            ),
        decreases fuel, 0nat, 0nat,
    {
        let ghost d = self.decls();
        let ghost goal = whnf_loop(d, self.kstate(), self.stores().term(v), fuel as nat);
        let mut e = v;
        let mut left = fuel;
        loop
            invariant
                self.checked(old(self)),
                self.stores().has_expr(e),
                left <= fuel,
                d == self.decls(),
                goal == whnf_loop(d, self.kstate(), self.stores().term(e), left as nat),
                goal == whnf_loop(
                    old(self).decls(),
                    old(self).kstate(),
                    old(self).stores().term(v),
                    fuel as nat,
                ),
            decreases left,
        {
            let ghost mid = *self;
            match self.read_expr(e) {
                Expr::Let { val, body, .. } => {
                    let opened = match self.inst(body, val, 0) {
                        Ok(x) => x,
                        Err(err) => {
                            proof {
                                self.lemma_ext_trans(&mid, old(self));
                            }
                            return Err(err);
                        },
                    };
                    proof {
                        self.lemma_ext_trans(&mid, old(self));
                    }
                    if left == 0 {
                        return Err(KernelError::OutOfFuel);
                    }
                    left = left - 1;
                    e = opened;
                },
                Expr::Const { name, universes, .. } => {
                    let dec = match self.read_declar(name) {
                        Some(dec) => dec,
                        None => {
                            return Err(KernelError::UnknownDeclaration);
                        },
                    };
                    match dec.val() {
                        None => {
                            return Ok(e);
                        },
                        Some(val) => {
                            let unfolded = match self.subst_expr_universes(
                                val,
                                dec.uparams(),
                                universes,
                            ) {
                                Ok(x) => x,
                                Err(err) => {
                                    proof {
                                        self.lemma_ext_trans(&mid, old(self));
                                    }
                                    return Err(err);
                                },
                            };
                            proof {
                                self.lemma_ext_trans(&mid, old(self));
                            }
                            if left == 0 {
                                return Err(KernelError::OutOfFuel);
                            }
                            left = left - 1;
                            e = unfolded;
                        },
                    }
                },
                Expr::Proj { idx, structure, .. } => {
                    if left == 0 {
                        return Err(KernelError::OutOfFuel);
                    }
                    left = left - 1;
                    let x = match self.whnf(structure, left) {
                        Ok(x) => x,
                        Err(err) => {
                            proof {
                                self.lemma_ext_trans(&mid, old(self));
                            }
                            return Err(err);
                        },
                    };
                    proof {
                        self.lemma_ext_trans(&mid, old(self));
                    }
                    let (head, args) = self.spine(x);
                    match self.read_expr(head) {
                        Expr::Const { name, .. } => {
                            let dec = match self.read_declar(name) {
                                Some(dec) => dec,
                                None => {
                                    return Err(KernelError::UnknownDeclaration);
                                },
                            };
                            match dec {
                                Declar::Constructor { num_params, .. } => {
                                    let pos: u64 = idx as u64 + num_params as u64;
                                    if (args.len() as u64) > pos {
                                        assert(self.terms_of(args@)[pos as int]
                                            == self.stores().term(args@[pos as int]));
                                        e = args[pos as usize];
                                    } else {
                                        return Err(KernelError::MissingField);
                                    }
                                },
                                _ => {
                                    return Ok(e);
                                },
                            }
                        },
                        _ => {
                            return Ok(e);
                        },
                    }
                },
                Expr::App { .. } => {
                    let r = self.whnf_app(e);
                    proof {
                        self.lemma_ext_trans(&mid, old(self));
                    }
                    return r;
                },
                _ => {
                    return Ok(e);
                },
            }
        }
    }

    /// Whether every level parameter that occurs in `ty` is one of `ups`:
    /// `UndeclaredParam` if not.
    pub fn controllo_parametri(&self, ty: ExprPtr, ups: UparamsPtr) -> (r: Result<(), KernelError>)
        requires
            self.wf(),
            self.stores().has_expr(ty),
            self.stores().has_uparams(ups),
        ensures
            r is Ok <==> term_params_in(self.stores().term(ty), self.stores().levels(ups)),
            r is Err ==> r->Err_0 == KernelError::UndeclaredParam,
        decreases ty.idx,
    {
        proof {
            reveal(ExportFile::wf);
            assert(self.stores().expr_ok(self.stores().exprs[ty.idx as int], ty.idx as int));
        }
        match self.read_expr(ty) {
            Expr::FreeVar { .. } => Ok(()),
            Expr::NatLit { .. } => Ok(()),
            Expr::StrLit { .. } => Ok(()),
            Expr::Var { .. } => Ok(()),
            Expr::Sort { universe, .. } => {
                if self.contiene_param(universe, ups) {
                    Ok(())
                } else {
                    Err(KernelError::UndeclaredParam)
                }
            },
            Expr::Const { universes, .. } => {
                let list = self.read_uparams(universes);
                let ghost us = self.stores().levels(universes);
                let ghost given = self.stores().levels(ups);
                let mut i: usize = 0;
                while i < list.len()
                    invariant
                        i <= list.len(),
                        self.wf(),
                        self.stores().has_uparams(ups),
                        self.stores().uparams_ok(list@),
                        us == self.stores().levels_of(list@),
                        given == self.stores().levels(ups),
                        self.stores().term(ty) is Const,
                        self.stores().term(ty)->Const_1 == us,
                        forall|j: int|
                            0 <= j < i ==> crate::level::params_in(#[trigger] us[j], given),
                    decreases list.len() - i,
                {
                    assert(self.stores().has_universe(list@[i as int]));
                    if !self.contiene_param(list[i], ups) {
                        assert(!crate::level::params_in(us[i as int], given));
                        return Err(KernelError::UndeclaredParam);
                    }
                    i += 1;
                }
                Ok(())
            },
            Expr::App { fun, arg, .. } => {
                self.controllo_parametri(fun, ups)?;
                self.controllo_parametri(arg, ups)
            },
            Expr::Pi { ty, body, .. } => {
                self.controllo_parametri(ty, ups)?;
                self.controllo_parametri(body, ups)
            },
            Expr::Lambda { ty, body, .. } => {
                self.controllo_parametri(ty, ups)?;
                self.controllo_parametri(body, ups)
            },
            Expr::Let { ty, val, body, .. } => {
                self.controllo_parametri(ty, ups)?;
                self.controllo_parametri(val, ups)?;
                self.controllo_parametri(body, ups)
            },
            Expr::Proj { structure, .. } => self.controllo_parametri(structure, ups),
        }
    }

    /// Whether a declaration with the level parameters `uparams`, the type
    /// `ty` and maybe the value `val` is in order. Types that differ give
    /// `false`; every other failure is passed on.
    pub fn check_info(
        &mut self,
        uparams: UparamsPtr,
        ty: ExprPtr,
        val: Option<ExprPtr>,
        fuel: usize,
    ) -> (r: Result<bool, KernelError>)
        requires
            old(self).wf(),
            old(self).stores().has_uparams(uparams),
            old(self).stores().has_expr(ty),
            val is Some ==> old(self).stores().has_expr(val.unwrap()),
        ensures
            final(self).checked(old(self)),
            final(self).agrees_bool(
                r,
                check_info_spec(
                    old(self).decls(),
                    old(self).kstate(),
                    old(self).stores().levels(uparams),
                    old(self).stores().term(ty),
                    match val {
                        Some(v) => Some(old(self).stores().term(v)),
                        None => None,
                    },
                    fuel as nat,
                ),
            ),
    {
        match self.check_info_raw(uparams, ty, val, fuel) {
            Err(KernelError::TypeMismatch) => Ok(false),
            r => r,
        }
    }

    /// The check of a declaration, differing types among its failures.
    fn check_info_raw(
        &mut self,
        uparams: UparamsPtr,
        ty: ExprPtr,
        val: Option<ExprPtr>,
        fuel: usize,
    ) -> (r: Result<bool, KernelError>)
        requires
            old(self).wf(),
            old(self).stores().has_uparams(uparams),
            old(self).stores().has_expr(ty),
            val is Some ==> old(self).stores().has_expr(val.unwrap()),
        ensures
            final(self).checked(old(self)),
            final(self).agrees_bool(
                r,
                check_steps(
                    old(self).decls(),
                    old(self).kstate(),
                    old(self).stores().levels(uparams),
                    old(self).stores().term(ty),
                    match val {
                        Some(v) => Some(old(self).stores().term(v)),
                        None => None,
                    },
                    fuel as nat,
                ),
            ),
    {
        let em = self.read_uparams(uparams);
        if !em.is_empty() {
            self.controllo_parametri(ty, uparams)?;
        }
        self.is_sort(ty, fuel)?;
        match val {
            Some(val) => {
                if !em.is_empty() {
                    self.controllo_parametri(val, uparams)?;
                }
                let v = self.infer(val, fuel)?;
                self.def_eq(ty, v, fuel)
            },
            None => Ok(true),
        }
    }

    /// Checks the declarations in the order in which they were registered
    /// and returns, in that order, the names of those that are not in order.
    /// A check that fails for another reason than differing types ends the
    /// whole.
    pub fn check_all_declars(&mut self, fuel: usize) -> (r: Result<Vec<NamePtr>, KernelError>)
        requires
            old(self).wf(),
        ensures
            final(self).checked(old(self)),
            final(self).agrees_names(
                r,
                check_all_spec(
                    old(self).decls(),
                    old(self).kstate(),
                    old(self).decl_list(),
                    0,
                    fuel as nat,
                ),
            ),
    {
        let snapshot = self.declars_snapshot();
        let ghost d = self.decls();
        let ghost list = self.decl_list();
        let ghost goal = check_all_spec(d, self.kstate(), list, 0, fuel as nat);
        let ghost mut acc: Seq<NameTerm> = Seq::empty();
        let mut bad: Vec<NamePtr> = Vec::new();
        let mut i: usize = 0;
        assert(self.stores().names_of(bad@) =~= acc);
        assert(goal == prepend(acc, goal)) by {
            if goal is Ok {
                assert(acc + goal->Ok_0.1 =~= goal->Ok_0.1);
            }
        }
        while i < snapshot.len()
            invariant
                i <= snapshot.len(),
                snapshot@.len() == list.len(),
                self.checked(old(self)),
                d == self.decls(),
                d == old(self).decls(),
                list == old(self).decl_list(),
                goal == check_all_spec(d, old(self).kstate(), list, 0, fuel as nat),
                forall|j: int|
                    0 <= j < snapshot@.len() ==> self.stores().declar_ok((#[trigger] snapshot@[j])@)
                        && list[j] == (
                        self.stores().name(snapshot@[j]@.name()),
                        self.stores().decl(snapshot@[j]@),
                    ),
                forall|j: int| 0 <= j < bad@.len() ==> self.stores().has_name(#[trigger] bad@[j]),
                self.stores().names_of(bad@) == acc,
                goal == prepend(acc, check_all_spec(d, self.kstate(), list, i as nat, fuel as nat)),
            decreases snapshot.len() - i,
        {
            let ghost mid = *self;
            let dec = &snapshot[i];
            let ghost before = check_all_spec(d, self.kstate(), list, i as nat, fuel as nat);
            let fine = match self.check_info(dec.uparams(), dec.ty(), dec.val(), fuel) {
                Ok(fine) => fine,
                Err(err) => {
                    return Err(err);
                },
            };
            let ghost after = check_all_spec(d, self.kstate(), list, (i + 1) as nat, fuel as nat);
            let ghost found = if fine {
                Seq::<NameTerm>::empty()
            } else {
                seq![list[i as int].0]
            };
            proof {
                assert(before == prepend(found, after));
                assert forall|j: int| 0 <= j < snapshot@.len() implies self.stores().declar_ok(
                    (#[trigger] snapshot@[j])@,
                ) && list[j] == (
                    self.stores().name(snapshot@[j]@.name()),
                    self.stores().decl(snapshot@[j]@),
                ) by {
                    self.stores().lemma_decl_keeps(mid.stores(), snapshot@[j]@);
                }
                assert forall|j: int| 0 <= j < bad@.len() implies self.stores().has_name(
                    #[trigger] bad@[j],
                ) && self.stores().name(bad@[j]) == acc[j] by {
                    assert(mid.stores().has_name(bad@[j]));
                    assert(mid.stores().names_of(bad@)[j] == mid.stores().name(bad@[j]));
                }
                assert(self.stores().names_of(bad@) =~= acc);
            }
            if !fine {
                bad.push(dec.name());
            }
            proof {
                assert(self.stores().names_of(bad@) =~= acc + found);
                if after is Ok {
                    assert(acc + (found + after->Ok_0.1) =~= (acc + found) + after->Ok_0.1);
                }
                acc = acc + found;
            }
            i += 1;
        }
        proof {
            assert(acc + Seq::<NameTerm>::empty() =~= acc);
        }
        Ok(bad)
    }
}

} // verus!
