//! The rules of the kernel, on expressions written out in full: what
//! normalization, inference and definitional equality compute from the
//! declarations, the memo tables and the counter of free variables.

use crate::error::KernelError;
use crate::expr::Term;
use crate::level::{level_eq, levels_eq, params_in};
use crate::name::NameTerm;
use crate::term::{abstr_fits, abstr_term, inst_fits, inst_term, subst_term};
use crate::universe::Level;
use vstd::prelude::*;

verus! {

/// What sets a declaration apart from an axiom.
pub ghost enum Shape {
    Plain,
    Inductive { num_indices: u32, ctors: Seq<NameTerm> },
    Constructor { num_params: u32, num_fields: u32, parent: NameTerm },
}

/// The kinds of declarations.
pub ghost enum Kind {
    Axiom,
    Quot,
    Opaq,
    Theorem,
    Definition,
    Inductive,
    Constructor,
    Recursor,
}

/// A declaration written out in full.
pub ghost struct Decl {
    pub kind: Kind,
    pub uparams: Seq<Level>,
    pub ty: Term,
    pub val: Option<Term>,
    pub shape: Shape,
}

/// The declarations by name.
pub type Decls = Map<NameTerm, Decl>;

/// What checking reads and changes besides the stores: the two memo tables
/// and the number of the next free variable.
pub ghost struct KState {
    pub infers: Map<Term, Term>,
    pub whnfs: Map<Term, Term>,
    pub next_fvar: nat,
}

/// The outcome of a step of checking: the state it leaves, with its result
/// or with the reason why it gave none.
pub type Step<T> = Result<(KState, T), (KState, KernelError)>;

impl KState {
    pub open spec fn with_whnf(self, k: Term, v: Term) -> KState {
        KState { whnfs: self.whnfs.insert(k, v), ..self }
    }

    pub open spec fn with_infer(self, k: Term, v: Term) -> KState {
        KState { infers: self.infers.insert(k, v), ..self }
    }

    /// The state after a free variable was numbered.
    pub open spec fn bumped(self) -> KState {
        KState { next_fvar: self.next_fvar + 1, ..self }
    }
}

/// A free variable of type `ty` with the next number.
pub open spec fn fresh(s: KState, ty: Term) -> Step<Term> {
    if s.next_fvar >= u32::MAX {
        Err((s, KernelError::IndexOverflow))
    } else {
        Ok((s.bumped(), Term::FVar(s.next_fvar as u32, Box::new(ty))))
    }
}

/// The body of a binder with `v` in the place of the bound variable.
pub open spec fn open_body(body: Term, v: Term) -> Result<Term, KernelError> {
    if inst_fits(body, 0) {
        Ok(inst_term(body, v, 0))
    } else {
        Err(KernelError::IndexOverflow)
    }
}

/// An expression of a declaration at the level arguments `to`.
pub open spec fn at_levels(t: Term, from: Seq<Level>, to: Seq<Level>) -> Result<
    Term,
    KernelError,
> {
    if t.has_fvar() {
        Err(KernelError::FVarInSubst)
    } else {
        Ok(subst_term(t, from, to))
    }
}

/// The function at the head of a chain of applications.
pub open spec fn spine_head(t: Term) -> Term
    decreases t,
{
    match t {
        Term::App(f, _) => spine_head(*f),
        _ => t,
    }
}

/// The arguments of a chain of applications, the first one first.
pub open spec fn spine_args(t: Term) -> Seq<Term>
    decreases t,
{
    match t {
        Term::App(f, a) => spine_args(*f).push(*a),
        _ => Seq::empty(),
    }
}

/// How many binders of a chain of functions `n` arguments can enter.
pub open spec fn lam_count(t: Term, n: nat) -> nat
    decreases n,
{
    match t {
        Term::Lam(_, _, b) if n > 0 => 1 + lam_count(*b, (n - 1) as nat),
        _ => 0,
    }
}

/// The body under the first `k` binders of a chain of functions.
pub open spec fn lam_body(t: Term, k: nat) -> Term
    decreases k,
{
    match t {
        Term::Lam(_, _, b) if k > 0 => lam_body(*b, (k - 1) as nat),
        _ => t,
    }
}

/// The body `e` under as many binders as there are arguments, with each
/// argument in the place of the variable of its binder: the last argument
/// belongs to the innermost binder, which is the bound variable 0, and goes
/// in first; the first argument goes in last.
pub open spec fn inst_all(e: Term, args: Seq<Term>) -> Result<Term, KernelError>
    decreases args.len(),
{
    if args.len() == 0 {
        Ok(e)
    } else {
        match open_body(e, args.last()) {
            Ok(e1) => inst_all(e1, args.drop_last()),
            Err(err) => Err(err),
        }
    }
}

/// `e` applied to the arguments, the first one first.
pub open spec fn apply_all(e: Term, args: Seq<Term>) -> Term
    decreases args.len(),
{
    if args.len() == 0 {
        e
    } else {
        apply_all(Term::App(Box::new(e), Box::new(args[0])), args.skip(1))
    }
}

/// A chain of applications with its leading arguments taken into the
/// functions at its head: as many binders are entered as there are
/// arguments for them, each argument is put into the body that is reached
/// in the place of the variable of its binder, the first argument for the
/// outermost binder, and the result is applied to the arguments that are
/// left.
pub open spec fn beta(e: Term) -> Result<Term, KernelError> {
    let head = spine_head(e);
    let args = spine_args(e);
    let k = lam_count(head, args.len());
    match inst_all(lam_body(head, k), args.take(k as int)) {
        Err(err) => Err(err),
        Ok(b) => Ok(apply_all(b, args.skip(k as int))),
    }
}

/// The weak head normal form of `v`: the entry of the memo table where
/// there is one, else what reduction arrives at, which the table then
/// holds.
pub open spec fn whnf_spec(d: Decls, s: KState, v: Term, fuel: nat) -> Step<Term>
    decreases fuel, 1nat, 0nat,
{
    if s.whnfs.contains_key(v) {
        Ok((s, s.whnfs[v]))
    } else {
        match whnf_loop(d, s, v, fuel) {
            Ok((s1, out)) => Ok((s1.with_whnf(v, out), out)),
            Err(err) => Err(err),
        }
    }
}

/// Reduction at the head of `e`, one round for each unit of `fuel`: a `Let`
/// is opened, a constant with a value is unfolded, a projection out of a
/// constructor application takes the field, and an application of functions
/// takes its arguments in, which ends the reduction. Anything else is in
/// normal form.
pub open spec fn whnf_loop(d: Decls, s: KState, e: Term, fuel: nat) -> Step<Term>
    decreases fuel, 0nat, 0nat,
{
    match e {
        Term::Let(_, _, val, body) => match open_body(*body, *val) {
            Err(err) => Err((s, err)),
            Ok(e1) => if fuel == 0 {
                Err((s, KernelError::OutOfFuel))
            } else {
                whnf_loop(d, s, e1, (fuel - 1) as nat)
            },
        },
        Term::Const(name, us) => if !d.contains_key(name) {
            Err((s, KernelError::UnknownDeclaration))
        } else {
            match d[name].val {
                None => Ok((s, e)),
                Some(v) => match at_levels(v, d[name].uparams, us) {
                    Err(err) => Err((s, err)),
                    Ok(e1) => if fuel == 0 {
                        Err((s, KernelError::OutOfFuel))
                    } else {
                        whnf_loop(d, s, e1, (fuel - 1) as nat)
                    },
                },
            }
        },
        Term::Proj(_, idx, structure) => if fuel == 0 {
            Err((s, KernelError::OutOfFuel))
        } else {
            match whnf_spec(d, s, *structure, (fuel - 1) as nat) {
                Err(err) => Err(err),
                Ok((s1, x)) => match spine_head(x) {
                    Term::Const(c, _) => if !d.contains_key(c) {
                        Err((s1, KernelError::UnknownDeclaration))
                    } else {
                        match d[c].shape {
                            Shape::Constructor { num_params, .. } => if spine_args(x).len() > idx
                                + num_params {
                                whnf_loop(
                                    d,
                                    s1,
                                    spine_args(x)[idx + num_params],
                                    (fuel - 1) as nat,
                                )
                            } else {
                                Err((s1, KernelError::MissingField))
                            },
                            _ => Ok((s1, e)),
                        }
                    },
                    _ => Ok((s1, e)),
                },
            }
        },
        Term::App(_, _) => match beta(e) {
            Err(err) => Err((s, err)),
            Ok(b) => Ok((s, b)),
        },
        _ => Ok((s, e)),
    }
}

/// An expression that is in normal form by its form alone is its own weak
/// head normal form, whatever the fuel and whatever else the memo tables
/// hold.
pub proof fn lemma_whnf_normal(d: Decls, s: KState, e: Term, fuel: nat)
    requires
        s.sound(),
        normal_form(e),
    ensures
        whnf_spec(d, s, e, fuel) is Ok,
        whnf_spec(d, s, e, fuel)->Ok_0.1 == e,
{
}

/// Normalizing an expression a second time gives what the first time gave,
/// and changes nothing.
pub proof fn lemma_whnf_again(d: Decls, s: KState, v: Term, fuel: nat, again: nat)
    requires
        whnf_spec(d, s, v, fuel) is Ok,
    ensures
        whnf_spec(d, whnf_spec(d, s, v, fuel)->Ok_0.0, v, again) == whnf_spec(d, s, v, fuel),
{
}

/// The type of the literals of natural numbers.
pub open spec fn nat_type() -> Term {
    Term::Const(NameTerm::Str(Box::new(NameTerm::Anon), "Nat"@), Seq::empty())
}

/// The type of the literals of strings.
pub open spec fn string_type() -> Term {
    Term::Const(NameTerm::Str(Box::new(NameTerm::Anon), "String"@), Seq::empty())
}

/// The type of an expression that has one by its form alone.
pub open spec fn leaf_type(e: Term) -> Option<Term> {
    match e {
        Term::FVar(_, ty) => Some(*ty),
        Term::NatLit(_) => Some(nat_type()),
        Term::StrLit(_) => Some(string_type()),
        Term::Sort(u) => Some(Term::Sort(Level::Succ(Box::new(u)))),
        _ => None,
    }
}

/// Whether an expression is in weak head normal form by its form alone: a
/// variable, a sort, a function, a function type or a literal.
pub open spec fn normal_form(e: Term) -> bool {
    match e {
        Term::BVar(_) => true,
        Term::FVar(_, _) => true,
        Term::Sort(_) => true,
        Term::Lam(_, _, _) => true,
        Term::Pi(_, _, _) => true,
        Term::NatLit(_) => true,
        Term::StrLit(_) => true,
        _ => false,
    }
}

impl KState {
    /// What the memo tables hold is what the rules give, as far as the form
    /// of an expression alone tells it: the table of inference holds, for an
    /// expression that has its type by its form, that type; the table of
    /// normalization holds, for an expression that is in normal form by its
    /// form, the expression itself.
    pub open spec fn sound(self) -> bool {
        &&& forall|e: Term| #[trigger]
            self.infers.contains_key(e) && leaf_type(e) is Some ==> self.infers[e] == leaf_type(
                e,
            ).unwrap()
        &&& forall|e: Term| #[trigger]
            self.whnfs.contains_key(e) && normal_form(e) ==> self.whnfs[e] == e
    }
}

/// The type of `e`: the entry of the memo table where there is one, else
/// what the rule for the form of `e` gives, which the table then holds.
pub open spec fn infer_spec(d: Decls, s: KState, e: Term, fuel: nat) -> Step<Term>
    decreases fuel, 1nat, 0nat,
{
    if s.infers.contains_key(e) {
        Ok((s, s.infers[e]))
    } else {
        match infer_case(d, s, e, fuel) {
            Ok((s1, out)) => Ok((s1.with_infer(e, out), out)),
            Err(err) => Err(err),
        }
    }
}

/// The rule of inference for each form of expression.
pub open spec fn infer_case(d: Decls, s: KState, e: Term, fuel: nat) -> Step<Term>
    decreases fuel, 0nat, 0nat,
{
    match e {
        Term::BVar(_) => Err((s, KernelError::LooseBVar)),
        Term::FVar(_, ty) => Ok((s, *ty)),
        Term::NatLit(_) => Ok((s, nat_type())),
        Term::StrLit(_) => Ok((s, string_type())),
        Term::Sort(u) => Ok((s, Term::Sort(Level::Succ(Box::new(u))))),
        Term::Const(n, us) => if !d.contains_key(n) {
            Err((s, KernelError::UnknownDeclaration))
        } else if d[n].uparams == us {
            Ok((s, d[n].ty))
        } else {
            match at_levels(d[n].ty, d[n].uparams, us) {
                Ok(t) => Ok((s, t)),
                Err(err) => Err((s, err)),
            }
        },
        Term::Let(_, ty, val, body) => if fuel == 0 {
            Err((s, KernelError::OutOfFuel))
        } else {
            infer_let(d, s, *ty, *val, *body, (fuel - 1) as nat)
        },
        Term::Pi(_, ty, body) => if fuel == 0 {
            Err((s, KernelError::OutOfFuel))
        } else {
            infer_pi(d, s, *ty, *body, (fuel - 1) as nat)
        },
        Term::Lam(n, ty, body) => if fuel == 0 {
            Err((s, KernelError::OutOfFuel))
        } else {
            infer_lam(d, s, n, *ty, *body, (fuel - 1) as nat)
        },
        Term::App(f, a) => if fuel == 0 {
            Err((s, KernelError::OutOfFuel))
        } else {
            infer_app(d, s, *f, *a, (fuel - 1) as nat)
        },
        Term::Proj(n, i, st) => if fuel == 0 {
            Err((s, KernelError::OutOfFuel))
        } else {
            infer_proj(d, s, n, i, *st, (fuel - 1) as nat)
        },
    }
}

/// A `Let`: its type is a type, its value has that type, and the type of
/// the whole is that of the body with the value put in.
pub open spec fn infer_let(d: Decls, s: KState, ty: Term, val: Term, body: Term, g: nat) -> Step<
    Term,
>
    decreases g, 3nat, 0nat,
{
    match is_sort_spec(d, s, ty, g) {
        Err(err) => Err(err),
        Ok((s1, _)) => match infer_spec(d, s1, val, g) {
            Err(err) => Err(err),
            Ok((s2, v)) => match def_eq_spec(d, s2, ty, v, g) {
                Err(err) => Err(err),
                Ok((s3, same)) => if !same {
                    Err((s3, KernelError::TypeMismatch))
                } else {
                    match open_body(body, val) {
                        Err(err) => Err((s3, err)),
                        Ok(b) => infer_spec(d, s3, b, g),
                    }
                },
            },
        }
    }
}

/// A function type: the sort of the impredicative maximum of the levels of
/// its domain and of its body, the body opened with a new free variable.
pub open spec fn infer_pi(d: Decls, s: KState, ty: Term, body: Term, g: nat) -> Step<Term>
    decreases g, 3nat, 0nat,
{
    match is_sort_spec(d, s, ty, g) {
        Err(err) => Err(err),
        Ok((s1, l)) => match fresh(s1, ty) {
            Err(err) => Err(err),
            Ok((s2, fv)) => match open_body(body, fv) {
                Err(err) => Err((s2, err)),
                Ok(b) => match is_sort_spec(d, s2, b, g) {
                    Err(err) => Err(err),
                    Ok((s3, r)) => Ok(
                        (s3, Term::Sort(Level::IMax(Box::new(l), Box::new(r)))),
                    ),
                },
            },
        }
    }
}

/// A function: the function type from its domain to the type of its body,
/// which is inferred with a new free variable in the body and abstracted
/// over it again.
pub open spec fn infer_lam(d: Decls, s: KState, n: NameTerm, ty: Term, body: Term, g: nat) -> Step<
    Term,
>
    decreases g, 3nat, 0nat,
{
    match is_sort_spec(d, s, ty, g) {
        Err(err) => Err(err),
        Ok((s1, _)) => match fresh(s1, ty) {
            Err(err) => Err(err),
            Ok((s2, fv)) => match open_body(body, fv) {
                Err(err) => Err((s2, err)),
                Ok(b) => match infer_spec(d, s2, b, g) {
                    Err(err) => Err(err),
                    Ok((s3, t)) => if !abstr_fits(t, 0) {
                        Err((s3, KernelError::IndexOverflow))
                    } else {
                        Ok((s3, Term::Pi(n, Box::new(ty), Box::new(abstr_term(t, fv, 0)))))
                    },
                },
            },
        }
    }
}

/// An application: the type of the function is a function type in weak
/// head normal form, the argument has the type of its domain, and the type of
/// the whole is its body with the argument put in.
pub open spec fn infer_app(d: Decls, s: KState, f: Term, a: Term, g: nat) -> Step<Term>
    decreases g, 3nat, 0nat,
{
    match infer_spec(d, s, f, g) {
        Err(err) => Err(err),
        Ok((s1, tf)) => match whnf_spec(d, s1, tf, g) {
            Err(err) => Err(err),
            Ok((s2, w)) => match w {
                Term::Pi(_, ty, body) => match infer_spec(d, s2, a, g) {
                    Err(err) => Err(err),
                    Ok((s3, ta)) => match def_eq_spec(d, s3, *ty, ta, g) {
                        Err(err) => Err(err),
                        Ok((s4, same)) => if !same {
                            Err((s4, KernelError::TypeMismatch))
                        } else {
                            match open_body(*body, a) {
                                Err(err) => Err((s4, err)),
                                Ok(r) => Ok((s4, r)),
                            }
                        },
                    },
                },
                _ => Err((s2, KernelError::ExpectedPi)),
            },
        }
    }
}

/// Whether `name` is a structure: an inductive type with one constructor
/// and no indices.
pub open spec fn is_structure(shape: Shape) -> bool {
    match shape {
        Shape::Inductive { num_indices, ctors } => ctors.len() == 1 && num_indices == 0,
        _ => false,
    }
}

/// A projection: the type of the structure value, in weak head normal
/// form, is the structure `name` applied to its parameters, and the type of
/// the field is read off the type of the constructor.
pub open spec fn infer_proj(
    d: Decls,
    s: KState,
    name: NameTerm,
    idx: u32,
    st: Term,
    g: nat,
) -> Step<
    Term,
>
    decreases g, 3nat, 2nat,
{
    match infer_spec(d, s, st, g) {
        Err(err) => Err(err),
        Ok((s1, t)) => match whnf_spec(d, s1, t, g) {
            Err(err) => Err(err),
            Ok((s2, w)) => proj_type(d, s2, name, idx, st, w, g),
        }
    }
}

/// The type of the field `idx` of `st`, whose type is `w`: `w` applies the
/// structure `name` to its parameters, and the type of its one constructor
/// is taken at the level arguments of `w`.
pub open spec fn proj_type(
    d: Decls,
    s: KState,
    name: NameTerm,
    idx: u32,
    st: Term,
    w: Term,
    g: nat,
) -> Step<Term>
    decreases g, 3nat, 1nat,
{
    match spine_head(w) {
        Term::Const(c, us) => if c != name {
            Err((s, KernelError::NotAStructure))
        } else if !d.contains_key(name) {
            Err((s, KernelError::UnknownDeclaration))
        } else if !is_structure(d[name].shape) {
            Err((s, KernelError::NotAStructure))
        } else {
            let k = d[name].shape->ctors[0];
            if !d.contains_key(k) {
                Err((s, KernelError::UnknownDeclaration))
            } else {
                match d[k].shape {
                    Shape::Constructor { num_params, .. } => match at_levels(
                        d[k].ty,
                        d[k].uparams,
                        us,
                    ) {
                        Err(err) => Err((s, err)),
                        Ok(kt) => {
                            let args = spine_args(w);
                            let n = if num_params <= args.len() {
                                num_params as nat
                            } else {
                                args.len()
                            };
                            proj_walk(d, s, kt, args, n, name, idx, st, g)
                        },
                    },
                    _ => Err((s, KernelError::NotAStructure)),
                }
            }
        },
        _ => Err((s, KernelError::NotAStructure)),
    }
}

/// The type of the field `idx` read off the type `kt` of the constructor:
/// the first `n` of `args` are put in as its parameters, then the
/// projections of the fields before `idx`; what is left is a function type
/// whose domain is the type of the field.
pub open spec fn proj_walk(
    d: Decls,
    s: KState,
    kt: Term,
    args: Seq<Term>,
    n: nat,
    name: NameTerm,
    idx: u32,
    st: Term,
    g: nat,
) -> Step<Term>
    decreases g, 3nat, 0nat,
{
    match proj_params(d, s, kt, args, 0, n, g) {
        Err(err) => Err(err),
        Ok((s3, k1)) => match proj_fields(d, s3, k1, name, st, 0, idx as nat, g) {
            Err(err) => Err(err),
            Ok((s4, k2)) => match whnf_spec(d, s4, k2, g) {
                Err(err) => Err(err),
                Ok((s5, w2)) => match w2 {
                    Term::Pi(_, ty, _) => Ok((s5, *ty)),
                    _ => Err((s5, KernelError::ExpectedPi)),
                },
            },
        },
    }
}

/// The type `kt` of a constructor with the parameters `args[i..n]` put
/// in, one function type after the other.
pub open spec fn proj_params(
    d: Decls,
    s: KState,
    kt: Term,
    args: Seq<Term>,
    i: nat,
    n: nat,
    g: nat,
) -> Step<Term>
    decreases g, 2nat, n - i,
{
    if i >= n {
        Ok((s, kt))
    } else {
        match whnf_spec(d, s, kt, g) {
            Err(err) => Err(err),
            Ok((s1, w)) => match w {
                Term::Pi(_, _, body) => match open_body(*body, args[i as int]) {
                    Err(err) => Err((s1, err)),
                    Ok(k1) => proj_params(d, s1, k1, args, i + 1, n, g),
                },
                _ => Err((s1, KernelError::ExpectedPi)),
            },
        }
    }
}

/// The type `kt` of a constructor, its parameters in place, with the
/// projections of the fields `i..n` of `st` put in, one function type after
/// the other.
pub open spec fn proj_fields(
    d: Decls,
    s: KState,
    kt: Term,
    name: NameTerm,
    st: Term,
    i: nat,
    n: nat,
    g: nat,
) -> Step<Term>
    decreases g, 2nat, n - i,
{
    if i >= n {
        Ok((s, kt))
    } else {
        match whnf_spec(d, s, kt, g) {
            Err(err) => Err(err),
            Ok((s1, w)) => match w {
                Term::Pi(_, _, body) => match open_body(
                    *body,
                    Term::Proj(name, i as u32, Box::new(st)),
                ) {
                    Err(err) => Err((s1, err)),
                    Ok(k1) => proj_fields(d, s1, k1, name, st, i + 1, n, g),
                },
                _ => Err((s1, KernelError::ExpectedPi)),
            },
        }
    }
}

/// The level of the sort that `e` lives in: the type of `e` is normalized;
/// a sort gives its level, and a free variable or a constant is followed to
/// its own type.
pub open spec fn is_sort_spec(d: Decls, s: KState, e: Term, fuel: nat) -> Step<Level>
    decreases fuel, 1nat, 0nat,
{
    if fuel == 0 {
        Err((s, KernelError::OutOfFuel))
    } else {
        let g = (fuel - 1) as nat;
        match infer_spec(d, s, e, g) {
            Err(err) => Err(err),
            Ok((s1, t)) => match whnf_spec(d, s1, t, g) {
                Err(err) => Err(err),
                Ok((s2, w)) => match w {
                    Term::Sort(u) => Ok((s2, u)),
                    Term::FVar(_, ty) => is_sort_spec(d, s2, *ty, g),
                    Term::Const(n, us) => if !d.contains_key(n) {
                        Err((s2, KernelError::UnknownDeclaration))
                    } else {
                        match at_levels(d[n].ty, d[n].uparams, us) {
                            Err(err) => Err((s2, err)),
                            Ok(t2) => is_sort_spec(d, s2, t2, g),
                        }
                    },
                    _ => Err((s2, KernelError::ExpectedSort)),
                },
            },
        }
    }
}

/// Whether `x` and `y` are definitionally equal. Equal expressions are;
/// else the rule for the forms of `x` and `y` decides, and where it leaves
/// the question open, proof irrelevance and then reduction do.
pub open spec fn def_eq_spec(d: Decls, s: KState, x: Term, y: Term, fuel: nat) -> Step<bool>
    decreases fuel, 1nat, 0nat,
{
    if x == y {
        Ok((s, true))
    } else if fuel == 0 {
        Err((s, KernelError::OutOfFuel))
    } else {
        let g = (fuel - 1) as nat;
        match def_eq_head(d, s, x, y, g) {
            Err(err) => Err(err),
            Ok((s1, Some(b))) => Ok((s1, b)),
            Ok((s1, None)) => def_eq_tail(d, s1, x, y, g),
        }
    }
}

/// An answer of a rule that decides.
pub open spec fn decided(r: Step<bool>) -> Step<Option<bool>> {
    match r {
        Ok((s, b)) => Ok((s, Some(b))),
        Err(err) => Err(err),
    }
}

/// An answer of a rule that says yes or leaves the question open.
pub open spec fn yes_or_open(r: Step<bool>) -> Step<Option<bool>> {
    match r {
        Ok((s, b)) => Ok(
            (
                s,
                if b {
                    Some(true)
                } else {
                    None
                },
            ),
        ),
        Err(err) => Err(err),
    }
}

/// The rules by the forms of `x` and `y`, the first that applies: an
/// answer, or none where the question stays open.
pub open spec fn def_eq_head(d: Decls, s: KState, x: Term, y: Term, g: nat) -> Step<Option<bool>>
    decreases g, 3nat, 1nat,
{
    match (x, y) {
        (Term::BVar(_), _) => Err((s, KernelError::LooseBVar)),
        (_, Term::BVar(_)) => Err((s, KernelError::LooseBVar)),
        (Term::FVar(i, _), Term::FVar(j, _)) => Ok((s, Some(i == j))),
        (Term::Sort(u), Term::Sort(v)) => Ok((s, Some(level_eq(u, v)))),
        (Term::Const(n1, u1), Term::Const(n2, u2)) => if n1 == n2 {
            Ok((s, Some(levels_eq(u1, u2))))
        } else {
            match unit_like_spec(d, s, x, y, g) {
                Err(err) => Err(err),
                Ok((s1, b)) => if b {
                    Ok((s1, Some(true)))
                } else {
                    yes_or_open(unit_like_spec(d, s1, y, x, g))
                },
            }
        },
        (Term::App(f1, a1), Term::App(f2, a2)) => match def_eq_spec(d, s, *f1, *f2, g) {
            Err(err) => Err(err),
            Ok((s1, b)) => if b {
                decided(def_eq_spec(d, s1, *a1, *a2, g))
            } else {
                Ok((s1, None))
            },
        },
        (Term::Lam(_, t1, b1), Term::Lam(_, t2, b2)) => eq_binders(d, s, *t1, *b1, *t2, *b2, g),
        (Term::Pi(_, t1, b1), Term::Pi(_, t2, b2)) => eq_binders(d, s, *t1, *b1, *t2, *b2, g),
        (Term::Let(_, _, v1, b1), Term::Let(_, _, v2, b2)) => match def_eq_spec(
            d,
            s,
            *v1,
            *v2,
            g,
        ) {
            Err(err) => Err(err),
            Ok((s1, b)) => if b {
                match open_body(*b1, *v1) {
                    Err(err) => Err((s1, err)),
                    Ok(x1) => match open_body(*b2, *v2) {
                        Err(err) => Err((s1, err)),
                        Ok(y1) => decided(def_eq_spec(d, s1, x1, y1, g)),
                    },
                }
            } else {
                Ok((s1, None))
            },
        },
        (Term::Proj(n1, i1, s1), Term::Proj(n2, i2, s2)) => if n1 == n2 && i1 == i2 {
            decided(def_eq_spec(d, s, *s1, *s2, g))
        } else {
            Ok((s, Some(false)))
        },
        (Term::Lam(_, _, _), _) => eta(d, s, x, y, true, g),
        (_, Term::Lam(_, _, _)) => eta(d, s, y, x, false, g),
        (Term::App(_, _), _) => yes_or_open(def_eq_struct_spec(d, s, y, x, g)),
        (_, Term::App(_, _)) => yes_or_open(def_eq_struct_spec(d, s, x, y, g)),
        _ => Ok((s, None)),
    }
}

/// Two binders: equal where their domains are equal and their bodies are,
/// both opened with one new free variable. Unequal domains leave the question
/// open.
pub open spec fn eq_binders(
    d: Decls,
    s: KState,
    t1: Term,
    b1: Term,
    t2: Term,
    b2: Term,
    g: nat,
) -> Step<Option<bool>>
    decreases g, 3nat, 0nat,
{
    match def_eq_spec(d, s, t1, t2, g) {
        Err(err) => Err(err),
        Ok((s1, b)) => if b {
            match fresh(s1, t1) {
                Err(err) => Err(err),
                Ok((s2, fv)) => match open_body(b1, fv) {
                    Err(err) => Err((s2, err)),
                    Ok(x1) => match open_body(b2, fv) {
                        Err(err) => Err((s2, err)),
                        Ok(y1) => decided(def_eq_spec(d, s2, x1, y1, g)),
                    },
                },
            }
        } else {
            Ok((s1, None))
        },
    }
}

/// A function `lam` against `other`, which is none: where the type of
/// `other` is a function type, `lam` is compared with the identity on the
/// domain of that type applied to `other`. `lam_first` tells on which side
/// `lam` stands.
pub open spec fn eta(d: Decls, s: KState, lam: Term, other: Term, lam_first: bool, g: nat) -> Step<
    Option<bool>,
>
    decreases g, 3nat, 0nat,
{
    match infer_spec(d, s, other, g) {
        Err(err) => Err(err),
        Ok((s1, t)) => match whnf_spec(d, s1, t, g) {
            Err(err) => Err(err),
            Ok((s2, w)) => match w {
                Term::Pi(n, ty, _) => {
                    let wrapped = Term::App(
                        Box::new(Term::Lam(n, ty, Box::new(Term::BVar(0)))),
                        Box::new(other),
                    );
                    if lam_first {
                        decided(def_eq_spec(d, s2, lam, wrapped, g))
                    } else {
                        decided(def_eq_spec(d, s2, wrapped, lam, g))
                    }
                },
                _ => Ok((s2, None)),
            },
        }
    }
}

/// What is left when the forms of `x` and `y` did not decide: two proofs
/// of one proposition are equal; else both sides are normalized and, where
/// that changed one of them, compared again.
pub open spec fn def_eq_tail(d: Decls, s: KState, x: Term, y: Term, g: nat) -> Step<bool>
    decreases g, 3nat, 0nat,
{
    match proof_irrelevant_spec(d, s, x, y, g) {
        Err(err) => Err(err),
        Ok((s1, b1)) => if b1 {
            Ok((s1, true))
        } else {
            match proof_irrelevant_spec(d, s1, y, x, g) {
                Err(err) => Err(err),
                Ok((s2, b2)) => if b2 {
                    Ok((s2, true))
                } else {
                    match whnf_spec(d, s2, x, g) {
                        Err(err) => Err(err),
                        Ok((s3, wx)) => match whnf_spec(d, s3, y, g) {
                            Err(err) => Err(err),
                            Ok((s4, wy)) => if wx != x || wy != y {
                                def_eq_spec(d, s4, wx, wy, g)
                            } else {
                                Ok((s4, false))
                            },
                        },
                    }
                },
            }
        },
    }
}

/// Whether `y` is equal to the constant `x` because the declared type of
/// `x` is a structure: the constant at the head of that type names an
/// inductive type with one constructor and no indices, the types of `x` and
/// `y` are equal, and `x` has as many level arguments as the constructor has
/// level parameters.
pub open spec fn unit_like_spec(d: Decls, s: KState, x: Term, y: Term, fuel: nat) -> Step<bool>
    decreases fuel, 1nat, 0nat,
{
    match x {
        Term::Const(n1, us) => if !d.contains_key(n1) {
            Err((s, KernelError::UnknownDeclaration))
        } else {
            match spine_head(d[n1].ty) {
                Term::Const(i, _) => if !d.contains_key(i) {
                    Err((s, KernelError::UnknownDeclaration))
                } else if !is_structure(d[i].shape) {
                    Ok((s, false))
                } else if fuel == 0 {
                    Err((s, KernelError::OutOfFuel))
                } else {
                    unit_check(d, s, x, y, us.len(), d[i].shape->ctors[0], (fuel - 1) as nat)
                },
                _ => Ok((s, false)),
            }
        },
        _ => Ok((s, false)),
    }
}

/// Whether `x` and `y` have equal types and `k` names a constructor with
/// `arity` level parameters.
pub open spec fn unit_check(
    d: Decls,
    s: KState,
    x: Term,
    y: Term,
    arity: nat,
    k: NameTerm,
    g: nat,
) -> Step<bool>
    decreases g, 3nat, 0nat,
{
    match infer_spec(d, s, x, g) {
        Err(err) => Err(err),
        Ok((s1, ix)) => match infer_spec(d, s1, y, g) {
            Err(err) => Err(err),
            Ok((s2, iy)) => match def_eq_spec(d, s2, ix, iy, g) {
                Err(err) => Err(err),
                Ok((s3, same)) => if !same {
                    Ok((s3, false))
                } else if !d.contains_key(k) {
                    Err((s3, KernelError::UnknownDeclaration))
                } else {
                    Ok((s3, d[k].shape is Constructor && arity == d[k].uparams.len()))
                },
            },
        }
    }
}

/// Whether `x` and `y` are proofs of one proposition: the types of both
/// live in the sort of level zero and are equal.
pub open spec fn proof_irrelevant_spec(d: Decls, s: KState, x: Term, y: Term, fuel: nat) -> Step<
    bool,
>
    decreases fuel, 1nat, 0nat,
{
    if fuel == 0 {
        Err((s, KernelError::OutOfFuel))
    } else {
        let g = (fuel - 1) as nat;
        match infer_spec(d, s, x, g) {
            Err(err) => Err(err),
            Ok((s1, ix)) => match infer_spec(d, s1, y, g) {
                Err(err) => Err(err),
                Ok((s2, iy)) => match is_sort_spec(d, s2, ix, g) {
                    Err(err) => Err(err),
                    Ok((s3, u)) => if u != Level::Zero {
                        Ok((s3, false))
                    } else {
                        match is_sort_spec(d, s3, iy, g) {
                            Err(err) => Err(err),
                            Ok((s4, v)) => if v != Level::Zero {
                                Ok((s4, false))
                            } else {
                                def_eq_spec(d, s4, ix, iy, g)
                            },
                        }
                    },
                },
            }
        }
    }
}

/// Whether `x` equals the constructor application `y` field by field: `y`
/// applies the constructor of a structure to all its parameters and fields,
/// the types of `x` and `y` are equal, and each projection of `x` equals the
/// field of `y` at its place.
pub open spec fn def_eq_struct_spec(d: Decls, s: KState, x: Term, y: Term, fuel: nat) -> Step<bool>
    decreases fuel, 1nat, 0nat,
{
    match spine_head(y) {
        Term::Const(name, _) => if !d.contains_key(name) {
            Err((s, KernelError::UnknownDeclaration))
        } else {
            match d[name].shape {
                Shape::Constructor { num_params, num_fields, parent } => if !d.contains_key(
                    parent,
                ) {
                    Err((s, KernelError::UnknownDeclaration))
                } else if !is_structure(d[parent].shape) || spine_args(y).len() != num_params
                    + num_fields {
                    Ok((s, false))
                } else if fuel == 0 {
                    Err((s, KernelError::OutOfFuel))
                } else {
                    struct_check(
                        d,
                        s,
                        x,
                        y,
                        parent,
                        num_params as nat,
                        num_fields as nat,
                        (fuel - 1) as nat,
                    )
                },
                _ => Ok((s, false)),
            }
        },
        _ => Ok((s, false)),
    }
}

/// Whether `x` and the constructor application `y` have equal types and
/// equal fields.
pub open spec fn struct_check(
    d: Decls,
    s: KState,
    x: Term,
    y: Term,
    parent: NameTerm,
    num_params: nat,
    num_fields: nat,
    g: nat,
) -> Step<bool>
    decreases g, 3nat, 0nat,
{
    match infer_spec(d, s, x, g) {
        Err(err) => Err(err),
        Ok((s1, ix)) => match infer_spec(d, s1, y, g) {
            Err(err) => Err(err),
            Ok((s2, iy)) => match def_eq_spec(d, s2, ix, iy, g) {
                Err(err) => Err(err),
                Ok((s3, same)) => if !same {
                    Ok((s3, false))
                } else {
                    struct_fields(d, s3, parent, num_params, x, spine_args(y), 0, num_fields, g)
                },
            },
        }
    }
}

/// Whether the projections `i..n` of `x` equal the fields of a constructor
/// application with the arguments `args`, the first difference ending the
/// comparison.
pub open spec fn struct_fields(
    d: Decls,
    s: KState,
    parent: NameTerm,
    num_params: nat,
    x: Term,
    args: Seq<Term>,
    i: nat,
    n: nat,
    g: nat,
) -> Step<bool>
    decreases g, 2nat, n - i,
{
    if i >= n {
        Ok((s, true))
    } else if num_params + i > u32::MAX {
        Err((s, KernelError::IndexOverflow))
    } else {
        match def_eq_spec(
            d,
            s,
            Term::Proj(parent, (num_params + i) as u32, Box::new(x)),
            args[(num_params + i) as int],
            g,
        ) {
            Err(err) => Err(err),
            Ok((s1, b)) => if !b {
                Ok((s1, false))
            } else {
                struct_fields(d, s1, parent, num_params, x, args, i + 1, n, g)
            },
        }
    }
}

/// Inferring the type of an expression a second time gives what the first
/// time gave, and changes nothing.
pub proof fn lemma_infer_again(d: Decls, s: KState, e: Term, fuel: nat, again: nat)
    requires
        infer_spec(d, s, e, fuel) is Ok,
    ensures
        infer_spec(d, infer_spec(d, s, e, fuel)->Ok_0.0, e, again) == infer_spec(d, s, e, fuel),
{
}

/// Every expression is definitionally equal to itself, whatever the fuel.
pub proof fn lemma_def_eq_refl(d: Decls, s: KState, x: Term, fuel: nat)
    ensures
        def_eq_spec(d, s, x, x, fuel) == Ok::<(KState, bool), (KState, KernelError)>((s, true)),
{
}

/// The type of a sort is the sort one level up, whatever the fuel.
pub proof fn lemma_infer_sort(d: Decls, s: KState, u: Level, fuel: nat)
    requires
        s.sound(),
    ensures
        infer_spec(d, s, Term::Sort(u), fuel) is Ok,
        infer_spec(d, s, Term::Sort(u), fuel)->Ok_0.1 == Term::Sort(Level::Succ(Box::new(u))),
{
}

/// Whether every level parameter that occurs in `t` is listed in `ups`.
/// The types of free variables are not looked into.
pub open spec fn term_params_in(t: Term, ups: Seq<Level>) -> bool
    decreases t,
{
    match t {
        Term::Sort(u) => params_in(u, ups),
        Term::Const(_, us) => forall|i: int| 0 <= i < us.len() ==> params_in(#[trigger] us[i], ups),
        Term::App(f, a) => term_params_in(*f, ups) && term_params_in(*a, ups),
        Term::Lam(_, ty, b) => term_params_in(*ty, ups) && term_params_in(*b, ups),
        Term::Pi(_, ty, b) => term_params_in(*ty, ups) && term_params_in(*b, ups),
        Term::Let(_, ty, v, b) => term_params_in(*ty, ups) && term_params_in(*v, ups)
            && term_params_in(*b, ups),
        Term::Proj(_, _, s) => term_params_in(*s, ups),
        _ => true,
    }
}

/// A check that found two types to differ counts as a check that says no.
pub open spec fn recovered(r: Step<bool>) -> Step<bool> {
    match r {
        Err((s, KernelError::TypeMismatch)) => Ok((s, false)),
        _ => r,
    }
}

/// Whether a declaration with the level parameters `ups`, the type `ty` and
/// maybe a value is in order: the type and the value hold no other level
/// parameters, the type lives in a sort, and the type of the value equals
/// it. Types that are found to differ on the way make the check say no.
pub open spec fn check_info_spec(
    d: Decls,
    s: KState,
    ups: Seq<Level>,
    ty: Term,
    val: Option<Term>,
    fuel: nat,
) -> Step<bool> {
    recovered(check_steps(d, s, ups, ty, val, fuel))
}

/// The steps of the check of a declaration, one after the other.
pub open spec fn check_steps(
    d: Decls,
    s: KState,
    ups: Seq<Level>,
    ty: Term,
    val: Option<Term>,
    fuel: nat,
) -> Step<bool> {
    if ups.len() > 0 && !term_params_in(ty, ups) {
        Err((s, KernelError::UndeclaredParam))
    } else {
        match is_sort_spec(d, s, ty, fuel) {
            Err(err) => Err(err),
            Ok((s1, _)) => match val {
                None => Ok((s1, true)),
                Some(v) => if ups.len() > 0 && !term_params_in(v, ups) {
                    Err((s1, KernelError::UndeclaredParam))
                } else {
                    match infer_spec(d, s1, v, fuel) {
                        Err(err) => Err(err),
                        Ok((s2, t)) => def_eq_spec(d, s2, ty, t, fuel),
                    }
                },
            },
        }
    }
}

/// The names put before the names of an outcome.
pub open spec fn prepend(acc: Seq<NameTerm>, r: Step<Seq<NameTerm>>) -> Step<Seq<NameTerm>> {
    match r {
        Ok((s, rest)) => Ok((s, acc + rest)),
        Err(err) => Err(err),
    }
}

/// The names of the declarations from the `i`th on that are not in order,
/// in the order of the list. The first check that stops for another reason
/// than differing types stops the whole.
pub open spec fn check_all_spec(
    d: Decls,
    s: KState,
    list: Seq<(NameTerm, Decl)>,
    i: nat,
    fuel: nat,
) -> Step<Seq<NameTerm>>
    decreases list.len() - i,
{
    if i >= list.len() {
        Ok((s, Seq::empty()))
    } else {
        let dec = list[i as int].1;
        match check_info_spec(d, s, dec.uparams, dec.ty, dec.val, fuel) {
            Err(err) => Err(err),
            Ok((s1, fine)) => prepend(
                if fine {
                    Seq::empty()
                } else {
                    seq![list[i as int].0]
                },
                check_all_spec(d, s1, list, i + 1, fuel),
            ),
        }
    }
}

} // verus!
