//! Fuel only bounds the work: a step that came to an end by itself comes to
//! the same end with more fuel.

use crate::error::KernelError;
use crate::expr::Term;
use crate::kernel::{
    at_levels, check_all_spec, check_info_spec, check_steps, def_eq_head, def_eq_spec,
    def_eq_struct_spec, def_eq_tail, eq_binders, eta, fresh, infer_app, infer_case, infer_lam,
    infer_let, infer_pi, infer_proj, infer_spec, is_sort_spec, is_structure, open_body,
    proj_fields, proj_params, proj_type, proj_walk, proof_irrelevant_spec, spine_args,
    spine_head, struct_check, struct_fields, unit_check, unit_like_spec, whnf_loop, whnf_spec,
    Decl, Decls, KState, Shape, Step,
};
use crate::name::NameTerm;
use crate::universe::Level;
use vstd::prelude::*;

verus! {

/// Whether a step came to an end by itself: it gave a result, or failed
/// for another reason than want of fuel.
pub open spec fn settled<T>(r: Step<T>) -> bool {
    match r {
        Ok(_) => true,
        Err((_, k)) => k != KernelError::OutOfFuel,
    }
}

/// More fuel does not change what normalization arrived at.
pub proof fn lemma_whnf_fuel(d: Decls, s: KState, v: Term, fuel: nat, more: nat)
    requires
        settled(whnf_spec(d, s, v, fuel)),
        fuel <= more,
    ensures
        whnf_spec(d, s, v, more) == whnf_spec(d, s, v, fuel),
    decreases fuel, 1nat, 0nat,
{
    if !s.whnfs.contains_key(v) {
        lemma_whnf_loop_fuel(d, s, v, fuel, more);
    }
}

/// More fuel does not change what reduction at the head arrived at.
pub proof fn lemma_whnf_loop_fuel(d: Decls, s: KState, e: Term, fuel: nat, more: nat)
    requires
        settled(whnf_loop(d, s, e, fuel)),
        fuel <= more,
    ensures
        whnf_loop(d, s, e, more) == whnf_loop(d, s, e, fuel),
    decreases fuel, 0nat, 0nat,
{
    match e {
        Term::Let(_, _, val, body) => {
            match open_body(*body, *val) {
                Ok(e1) => {
                    lemma_whnf_loop_fuel(d, s, e1, (fuel - 1) as nat, (more - 1) as nat);
                },
                Err(_) => {},
            }
        },
        Term::Const(name, us) => {
            if d.contains_key(name) {
                match d[name].val {
                    Some(v) => match at_levels(v, d[name].uparams, us) {
                        Ok(e1) => {
                            lemma_whnf_loop_fuel(d, s, e1, (fuel - 1) as nat, (more - 1) as nat);
                        },
                        Err(_) => {},
                    },
                    None => {},
                }
            }
        },
        Term::Proj(_, idx, structure) => {
            lemma_whnf_fuel(d, s, *structure, (fuel - 1) as nat, (more - 1) as nat);
            match whnf_spec(d, s, *structure, (fuel - 1) as nat) {
                Ok((s1, x)) => match spine_head(x) {
                    Term::Const(c, _) => {
                        if d.contains_key(c) {
                            match d[c].shape {
                                Shape::Constructor { num_params, .. } => {
                                    if spine_args(x).len() > idx + num_params {
                                        lemma_whnf_loop_fuel(
                                            d,
                                            s1,
                                            spine_args(x)[idx + num_params],
                                            (fuel - 1) as nat,
                                            (more - 1) as nat,
                                        );
                                    }
                                },
                                _ => {},
                            }
                        }
                    },
                    _ => {},
                },
                Err(_) => {},
            }
        },
        _ => {},
    }
}

/// More fuel does not change what inference arrived at.
pub proof fn lemma_infer_fuel(d: Decls, s: KState, e: Term, fuel: nat, more: nat)
    requires
        settled(infer_spec(d, s, e, fuel)),
        fuel <= more,
    ensures
        infer_spec(d, s, e, more) == infer_spec(d, s, e, fuel),
    decreases fuel, 1nat, 0nat,
{
    if !s.infers.contains_key(e) {
        lemma_infer_case_fuel(d, s, e, fuel, more);
    }
}

pub proof fn lemma_infer_case_fuel(d: Decls, s: KState, e: Term, fuel: nat, more: nat)
    requires
        settled(infer_case(d, s, e, fuel)),
        fuel <= more,
    ensures
        infer_case(d, s, e, more) == infer_case(d, s, e, fuel),
    decreases fuel, 0nat, 0nat,
{
    let g = (fuel - 1) as nat;
    let m = (more - 1) as nat;
    match e {
        Term::Let(_, ty, val, body) => {
            lemma_infer_let_fuel(d, s, *ty, *val, *body, g, m);
        },
        Term::Pi(_, ty, body) => {
            lemma_infer_pi_fuel(d, s, *ty, *body, g, m);
        },
        Term::Lam(n, ty, body) => {
            lemma_infer_lam_fuel(d, s, n, *ty, *body, g, m);
        },
        Term::App(f, a) => {
            lemma_infer_app_fuel(d, s, *f, *a, g, m);
        },
        Term::Proj(n, i, st) => {
            lemma_infer_proj_fuel(d, s, n, i, *st, g, m);
        },
        _ => {},
    }
}

pub proof fn lemma_infer_let_fuel(
    d: Decls,
    s: KState,
    ty: Term,
    val: Term,
    body: Term,
    g: nat,
    m: nat,
)
    requires
        settled(infer_let(d, s, ty, val, body, g)),
        g <= m,
    ensures
        infer_let(d, s, ty, val, body, m) == infer_let(d, s, ty, val, body, g),
    decreases g, 3nat, 0nat,
{
    lemma_is_sort_fuel(d, s, ty, g, m);
    match is_sort_spec(d, s, ty, g) {
        Ok((s1, _)) => {
            lemma_infer_fuel(d, s1, val, g, m);
            match infer_spec(d, s1, val, g) {
                Ok((s2, v)) => {
                    lemma_def_eq_fuel(d, s2, ty, v, g, m);
                    match def_eq_spec(d, s2, ty, v, g) {
                        Ok((s3, same)) => {
                            if same {
                                match open_body(body, val) {
                                    Ok(b) => {
                                        lemma_infer_fuel(d, s3, b, g, m);
                                    },
                                    Err(_) => {},
                                }
                            }
                        },
                        Err(_) => {},
                    }
                },
                Err(_) => {},
            }
        },
        Err(_) => {},
    }
}

pub proof fn lemma_infer_pi_fuel(d: Decls, s: KState, ty: Term, body: Term, g: nat, m: nat)
    requires
        settled(infer_pi(d, s, ty, body, g)),
        g <= m,
    ensures
        infer_pi(d, s, ty, body, m) == infer_pi(d, s, ty, body, g),
    decreases g, 3nat, 0nat,
{
    lemma_is_sort_fuel(d, s, ty, g, m);
    match is_sort_spec(d, s, ty, g) {
        Ok((s1, _)) => match fresh(s1, ty) {
            Ok((s2, fv)) => match open_body(body, fv) {
                Ok(b) => {
                    lemma_is_sort_fuel(d, s2, b, g, m);
                },
                Err(_) => {},
            },
            Err(_) => {},
        },
        Err(_) => {},
    }
}

pub proof fn lemma_infer_lam_fuel(
    d: Decls,
    s: KState,
    n: NameTerm,
    ty: Term,
    body: Term,
    g: nat,
    m: nat,
)
    requires
        settled(infer_lam(d, s, n, ty, body, g)),
        g <= m,
    ensures
        infer_lam(d, s, n, ty, body, m) == infer_lam(d, s, n, ty, body, g),
    decreases g, 3nat, 0nat,
{
    lemma_is_sort_fuel(d, s, ty, g, m);
    match is_sort_spec(d, s, ty, g) {
        Ok((s1, _)) => match fresh(s1, ty) {
            Ok((s2, fv)) => match open_body(body, fv) {
                Ok(b) => {
                    lemma_infer_fuel(d, s2, b, g, m);
                },
                Err(_) => {},
            },
            Err(_) => {},
        },
        Err(_) => {},
    }
}

pub proof fn lemma_infer_app_fuel(d: Decls, s: KState, f: Term, a: Term, g: nat, m: nat)
    requires
        settled(infer_app(d, s, f, a, g)),
        g <= m,
    ensures
        infer_app(d, s, f, a, m) == infer_app(d, s, f, a, g),
    decreases g, 3nat, 0nat,
{
    lemma_infer_fuel(d, s, f, g, m);
    match infer_spec(d, s, f, g) {
        Ok((s1, tf)) => {
            lemma_whnf_fuel(d, s1, tf, g, m);
            match whnf_spec(d, s1, tf, g) {
                Ok((s2, w)) => match w {
                    Term::Pi(_, ty, body) => {
                        lemma_infer_fuel(d, s2, a, g, m);
                        match infer_spec(d, s2, a, g) {
                            Ok((s3, ta)) => {
                                lemma_def_eq_fuel(d, s3, *ty, ta, g, m);
                            },
                            Err(_) => {},
                        }
                    },
                    _ => {},
                },
                Err(_) => {},
            }
        },
        Err(_) => {},
    }
}

pub proof fn lemma_infer_proj_fuel(
    d: Decls,
    s: KState,
    name: NameTerm,
    idx: u32,
    st: Term,
    g: nat,
    m: nat,
)
    requires
        settled(infer_proj(d, s, name, idx, st, g)),
        g <= m,
    ensures
        infer_proj(d, s, name, idx, st, m) == infer_proj(d, s, name, idx, st, g),
    decreases g, 3nat, 2nat,
{
    lemma_infer_fuel(d, s, st, g, m);
    match infer_spec(d, s, st, g) {
        Ok((s1, t)) => {
            lemma_whnf_fuel(d, s1, t, g, m);
            match whnf_spec(d, s1, t, g) {
                Ok((s2, w)) => {
                    lemma_proj_type_fuel(d, s2, name, idx, st, w, g, m);
                },
                Err(_) => {},
            }
        },
        Err(_) => {},
    }
}

pub proof fn lemma_proj_type_fuel(
    d: Decls,
    s: KState,
    name: NameTerm,
    idx: u32,
    st: Term,
    w: Term,
    g: nat,
    m: nat,
)
    requires
        settled(proj_type(d, s, name, idx, st, w, g)),
        g <= m,
    ensures
        proj_type(d, s, name, idx, st, w, m) == proj_type(d, s, name, idx, st, w, g),
    decreases g, 3nat, 1nat,
{
    match spine_head(w) {
        Term::Const(c, us) => {
            if c == name && d.contains_key(name) && is_structure(d[name].shape) {
                let k = d[name].shape->ctors[0];
                if d.contains_key(k) {
                    match d[k].shape {
                        Shape::Constructor { num_params, .. } => match at_levels(
                            d[k].ty,
                            d[k].uparams,
                            us,
                        ) {
                            Ok(kt) => {
                                let args = spine_args(w);
                                let n = if num_params <= args.len() {
                                    num_params as nat
                                } else {
                                    args.len()
                                };
                                lemma_proj_walk_fuel(d, s, kt, args, n, name, idx, st, g, m);
                            },
                            Err(_) => {},
                        },
                        _ => {},
                    }
                }
            }
        },
        _ => {},
    }
}

pub proof fn lemma_proj_walk_fuel(
    d: Decls,
    s: KState,
    kt: Term,
    args: Seq<Term>,
    n: nat,
    name: NameTerm,
    idx: u32,
    st: Term,
    g: nat,
    m: nat,
)
    requires
        settled(proj_walk(d, s, kt, args, n, name, idx, st, g)),
        g <= m,
    ensures
        proj_walk(d, s, kt, args, n, name, idx, st, m) == proj_walk(
            d,
            s,
            kt,
            args,
            n,
            name,
            idx,
            st,
            g,
        ),
    decreases g, 3nat, 0nat,
{
    lemma_proj_params_fuel(d, s, kt, args, 0, n, g, m);
    match proj_params(d, s, kt, args, 0, n, g) {
        Ok((s3, k1)) => {
            lemma_proj_fields_fuel(d, s3, k1, name, st, 0, idx as nat, g, m);
            match proj_fields(d, s3, k1, name, st, 0, idx as nat, g) {
                Ok((s4, k2)) => {
                    lemma_whnf_fuel(d, s4, k2, g, m);
                },
                Err(_) => {},
            }
        },
        Err(_) => {},
    }
}

pub proof fn lemma_proj_params_fuel(
    d: Decls,
    s: KState,
    kt: Term,
    args: Seq<Term>,
    i: nat,
    n: nat,
    g: nat,
    m: nat,
)
    requires
        settled(proj_params(d, s, kt, args, i, n, g)),
        g <= m,
    ensures
        proj_params(d, s, kt, args, i, n, m) == proj_params(d, s, kt, args, i, n, g),
    decreases g, 2nat, n - i,
{
    if i < n {
        lemma_whnf_fuel(d, s, kt, g, m);
        match whnf_spec(d, s, kt, g) {
            Ok((s1, w)) => match w {
                Term::Pi(_, _, body) => match open_body(*body, args[i as int]) {
                    Ok(k1) => {
                        lemma_proj_params_fuel(d, s1, k1, args, i + 1, n, g, m);
                    },
                    Err(_) => {},
                },
                _ => {},
            },
            Err(_) => {},
        }
    }
}

pub proof fn lemma_proj_fields_fuel(
    d: Decls,
    s: KState,
    kt: Term,
    name: NameTerm,
    st: Term,
    i: nat,
    n: nat,
    g: nat,
    m: nat,
)
    requires
        settled(proj_fields(d, s, kt, name, st, i, n, g)),
        g <= m,
    ensures
        proj_fields(d, s, kt, name, st, i, n, m) == proj_fields(d, s, kt, name, st, i, n, g),
    decreases g, 2nat, n - i,
{
    if i < n {
        lemma_whnf_fuel(d, s, kt, g, m);
        match whnf_spec(d, s, kt, g) {
            Ok((s1, w)) => match w {
                Term::Pi(_, _, body) => match open_body(
                    *body,
                    Term::Proj(name, i as u32, Box::new(st)),
                ) {
                    Ok(k1) => {
                        lemma_proj_fields_fuel(d, s1, k1, name, st, i + 1, n, g, m);
                    },
                    Err(_) => {},
                },
                _ => {},
            },
            Err(_) => {},
        }
    }
}

/// More fuel does not change the level that was found.
pub proof fn lemma_is_sort_fuel(d: Decls, s: KState, e: Term, fuel: nat, more: nat)
    requires
        settled(is_sort_spec(d, s, e, fuel)),
        fuel <= more,
    ensures
        is_sort_spec(d, s, e, more) == is_sort_spec(d, s, e, fuel),
    decreases fuel, 1nat, 0nat,
{
    let g = (fuel - 1) as nat;
    let m = (more - 1) as nat;
    lemma_infer_fuel(d, s, e, g, m);
    match infer_spec(d, s, e, g) {
        Ok((s1, t)) => {
            lemma_whnf_fuel(d, s1, t, g, m);
            match whnf_spec(d, s1, t, g) {
                Ok((s2, w)) => match w {
                    Term::FVar(_, ty) => {
                        lemma_is_sort_fuel(d, s2, *ty, g, m);
                    },
                    Term::Const(n, us) => {
                        if d.contains_key(n) {
                            match at_levels(d[n].ty, d[n].uparams, us) {
                                Ok(t2) => {
                                    lemma_is_sort_fuel(d, s2, t2, g, m);
                                },
                                Err(_) => {},
                            }
                        }
                    },
                    _ => {},
                },
                Err(_) => {},
            }
        },
        Err(_) => {},
    }
}

/// More fuel does not change the answer of definitional equality.
pub proof fn lemma_def_eq_fuel(d: Decls, s: KState, x: Term, y: Term, fuel: nat, more: nat)
    requires
        settled(def_eq_spec(d, s, x, y, fuel)),
        fuel <= more,
    ensures
        def_eq_spec(d, s, x, y, more) == def_eq_spec(d, s, x, y, fuel),
    decreases fuel, 1nat, 0nat,
{
    if x != y {
        let g = (fuel - 1) as nat;
        let m = (more - 1) as nat;
        lemma_def_eq_head_fuel(d, s, x, y, g, m);
        match def_eq_head(d, s, x, y, g) {
            Ok((s1, None)) => {
                lemma_def_eq_tail_fuel(d, s1, x, y, g, m);
            },
            _ => {},
        }
    }
}

pub proof fn lemma_def_eq_head_fuel(d: Decls, s: KState, x: Term, y: Term, g: nat, m: nat)
    requires
        settled(def_eq_head(d, s, x, y, g)),
        g <= m,
    ensures
        def_eq_head(d, s, x, y, m) == def_eq_head(d, s, x, y, g),
    decreases g, 3nat, 1nat,
{
    match (x, y) {
        (Term::BVar(_), _) => {},
        (_, Term::BVar(_)) => {},
        (Term::FVar(_, _), Term::FVar(_, _)) => {},
        (Term::Sort(_), Term::Sort(_)) => {},
        (Term::Const(n1, _), Term::Const(n2, _)) => {
            if n1 != n2 {
                lemma_unit_like_fuel(d, s, x, y, g, m);
                match unit_like_spec(d, s, x, y, g) {
                    Ok((s1, b)) => {
                        if !b {
                            lemma_unit_like_fuel(d, s1, y, x, g, m);
                        }
                    },
                    Err(_) => {},
                }
            }
        },
        (Term::App(f1, a1), Term::App(f2, a2)) => {
            lemma_def_eq_fuel(d, s, *f1, *f2, g, m);
            match def_eq_spec(d, s, *f1, *f2, g) {
                Ok((s1, b)) => {
                    if b {
                        lemma_def_eq_fuel(d, s1, *a1, *a2, g, m);
                    }
                },
                Err(_) => {},
            }
        },
        (Term::Lam(_, t1, b1), Term::Lam(_, t2, b2)) => {
            lemma_eq_binders_fuel(d, s, *t1, *b1, *t2, *b2, g, m);
        },
        (Term::Pi(_, t1, b1), Term::Pi(_, t2, b2)) => {
            lemma_eq_binders_fuel(d, s, *t1, *b1, *t2, *b2, g, m);
        },
        (Term::Let(_, _, v1, b1), Term::Let(_, _, v2, b2)) => {
            lemma_def_eq_fuel(d, s, *v1, *v2, g, m);
            match def_eq_spec(d, s, *v1, *v2, g) {
                Ok((s1, b)) => {
                    if b {
                        match open_body(*b1, *v1) {
                            Ok(x1) => match open_body(*b2, *v2) {
                                Ok(y1) => {
                                    lemma_def_eq_fuel(d, s1, x1, y1, g, m);
                                },
                                Err(_) => {},
                            },
                            Err(_) => {},
                        }
                    }
                },
                Err(_) => {},
            }
        },
        (Term::Proj(n1, i1, s1), Term::Proj(n2, i2, s2)) => {
            if n1 == n2 && i1 == i2 {
                lemma_def_eq_fuel(d, s, *s1, *s2, g, m);
            }
        },
        (Term::Lam(_, _, _), _) => {
            lemma_eta_fuel(d, s, x, y, true, g, m);
        },
        (_, Term::Lam(_, _, _)) => {
            lemma_eta_fuel(d, s, y, x, false, g, m);
        },
        (Term::App(_, _), _) => {
            lemma_def_eq_struct_fuel(d, s, y, x, g, m);
        },
        (_, Term::App(_, _)) => {
            lemma_def_eq_struct_fuel(d, s, x, y, g, m);
        },
        _ => {},
    }
}

pub proof fn lemma_eq_binders_fuel(
    d: Decls,
    s: KState,
    t1: Term,
    b1: Term,
    t2: Term,
    b2: Term,
    g: nat,
    m: nat,
)
    requires
        settled(eq_binders(d, s, t1, b1, t2, b2, g)),
        g <= m,
    ensures
        eq_binders(d, s, t1, b1, t2, b2, m) == eq_binders(d, s, t1, b1, t2, b2, g),
    decreases g, 3nat, 0nat,
{
    lemma_def_eq_fuel(d, s, t1, t2, g, m);
    match def_eq_spec(d, s, t1, t2, g) {
        Ok((s1, b)) => {
            if b {
                match fresh(s1, t1) {
                    Ok((s2, fv)) => match open_body(b1, fv) {
                        Ok(x1) => match open_body(b2, fv) {
                            Ok(y1) => {
                                lemma_def_eq_fuel(d, s2, x1, y1, g, m);
                            },
                            Err(_) => {},
                        },
                        Err(_) => {},
                    },
                    Err(_) => {},
                }
            }
        },
        Err(_) => {},
    }
}

pub proof fn lemma_eta_fuel(
    d: Decls,
    s: KState,
    lam: Term,
    other: Term,
    lam_first: bool,
    g: nat,
    m: nat,
)
    requires
        settled(eta(d, s, lam, other, lam_first, g)),
        g <= m,
    ensures
        eta(d, s, lam, other, lam_first, m) == eta(d, s, lam, other, lam_first, g),
    decreases g, 3nat, 0nat,
{
    lemma_infer_fuel(d, s, other, g, m);
    match infer_spec(d, s, other, g) {
        Ok((s1, t)) => {
            lemma_whnf_fuel(d, s1, t, g, m);
            match whnf_spec(d, s1, t, g) {
                Ok((s2, w)) => match w {
                    Term::Pi(n, ty, _) => {
                        let wrapped = Term::App(
                            Box::new(Term::Lam(n, ty, Box::new(Term::BVar(0)))),
                            Box::new(other),
                        );
                        if lam_first {
                            lemma_def_eq_fuel(d, s2, lam, wrapped, g, m);
                        } else {
                            lemma_def_eq_fuel(d, s2, wrapped, lam, g, m);
                        }
                    },
                    _ => {},
                },
                Err(_) => {},
            }
        },
        Err(_) => {},
    }
}

pub proof fn lemma_def_eq_tail_fuel(d: Decls, s: KState, x: Term, y: Term, g: nat, m: nat)
    requires
        settled(def_eq_tail(d, s, x, y, g)),
        g <= m,
    ensures
        def_eq_tail(d, s, x, y, m) == def_eq_tail(d, s, x, y, g),
    decreases g, 3nat, 0nat,
{
    lemma_proof_irrelevant_fuel(d, s, x, y, g, m);
    match proof_irrelevant_spec(d, s, x, y, g) {
        Ok((s1, b1)) => {
            if !b1 {
                lemma_proof_irrelevant_fuel(d, s1, y, x, g, m);
                match proof_irrelevant_spec(d, s1, y, x, g) {
                    Ok((s2, b2)) => {
                        if !b2 {
                            lemma_whnf_fuel(d, s2, x, g, m);
                            match whnf_spec(d, s2, x, g) {
                                Ok((s3, wx)) => {
                                    lemma_whnf_fuel(d, s3, y, g, m);
                                    match whnf_spec(d, s3, y, g) {
                                        Ok((s4, wy)) => {
                                            if wx != x || wy != y {
                                                lemma_def_eq_fuel(d, s4, wx, wy, g, m);
                                            }
                                        },
                                        Err(_) => {},
                                    }
                                },
                                Err(_) => {},
                            }
                        }
                    },
                    Err(_) => {},
                }
            }
        },
        Err(_) => {},
    }
}

pub proof fn lemma_unit_like_fuel(d: Decls, s: KState, x: Term, y: Term, fuel: nat, more: nat)
    requires
        settled(unit_like_spec(d, s, x, y, fuel)),
        fuel <= more,
    ensures
        unit_like_spec(d, s, x, y, more) == unit_like_spec(d, s, x, y, fuel),
    decreases fuel, 1nat, 0nat,
{
    match x {
        Term::Const(n1, us) => {
            if d.contains_key(n1) {
                match spine_head(d[n1].ty) {
                    Term::Const(i, _) => {
                        if d.contains_key(i) && is_structure(d[i].shape) {
                            lemma_unit_check_fuel(
                                d,
                                s,
                                x,
                                y,
                                us.len(),
                                d[i].shape->ctors[0],
                                (fuel - 1) as nat,
                                (more - 1) as nat,
                            );
                        }
                    },
                    _ => {},
                }
            }
        },
        _ => {},
    }
}

pub proof fn lemma_unit_check_fuel(
    d: Decls,
    s: KState,
    x: Term,
    y: Term,
    arity: nat,
    k: NameTerm,
    g: nat,
    m: nat,
)
    requires
        settled(unit_check(d, s, x, y, arity, k, g)),
        g <= m,
    ensures
        unit_check(d, s, x, y, arity, k, m) == unit_check(d, s, x, y, arity, k, g),
    decreases g, 3nat, 0nat,
{
    lemma_infer_fuel(d, s, x, g, m);
    match infer_spec(d, s, x, g) {
        Ok((s1, ix)) => {
            lemma_infer_fuel(d, s1, y, g, m);
            match infer_spec(d, s1, y, g) {
                Ok((s2, iy)) => {
                    lemma_def_eq_fuel(d, s2, ix, iy, g, m);
                },
                Err(_) => {},
            }
        },
        Err(_) => {},
    }
}

pub proof fn lemma_proof_irrelevant_fuel(
    d: Decls,
    s: KState,
    x: Term,
    y: Term,
    fuel: nat,
    more: nat,
)
    requires
        settled(proof_irrelevant_spec(d, s, x, y, fuel)),
        fuel <= more,
    ensures
        proof_irrelevant_spec(d, s, x, y, more) == proof_irrelevant_spec(d, s, x, y, fuel),
    decreases fuel, 1nat, 0nat,
{
    let g = (fuel - 1) as nat;
    let m = (more - 1) as nat;
    lemma_infer_fuel(d, s, x, g, m);
    match infer_spec(d, s, x, g) {
        Ok((s1, ix)) => {
            lemma_infer_fuel(d, s1, y, g, m);
            match infer_spec(d, s1, y, g) {
                Ok((s2, iy)) => {
                    lemma_is_sort_fuel(d, s2, ix, g, m);
                    match is_sort_spec(d, s2, ix, g) {
                        Ok((s3, u)) => {
                            if u == Level::Zero {
                                lemma_is_sort_fuel(d, s3, iy, g, m);
                                match is_sort_spec(d, s3, iy, g) {
                                    Ok((s4, v)) => {
                                        if v == Level::Zero {
                                            lemma_def_eq_fuel(d, s4, ix, iy, g, m);
                                        }
                                    },
                                    Err(_) => {},
                                }
                            }
                        },
                        Err(_) => {},
                    }
                },
                Err(_) => {},
            }
        },
        Err(_) => {},
    }
}

pub proof fn lemma_def_eq_struct_fuel(
    d: Decls,
    s: KState,
    x: Term,
    y: Term,
    fuel: nat,
    more: nat,
)
    requires
        settled(def_eq_struct_spec(d, s, x, y, fuel)),
        fuel <= more,
    ensures
        def_eq_struct_spec(d, s, x, y, more) == def_eq_struct_spec(d, s, x, y, fuel),
    decreases fuel, 1nat, 0nat,
{
    match spine_head(y) {
        Term::Const(name, _) => {
            if d.contains_key(name) {
                match d[name].shape {
                    Shape::Constructor { num_params, num_fields, parent } => {
                        if d.contains_key(parent) && is_structure(d[parent].shape) && spine_args(
                            y,
                        ).len() == num_params + num_fields {
                            lemma_struct_check_fuel(
                                d,
                                s,
                                x,
                                y,
                                parent,
                                num_params as nat,
                                num_fields as nat,
                                (fuel - 1) as nat,
                                (more - 1) as nat,
                            );
                        }
                    },
                    _ => {},
                }
            }
        },
        _ => {},
    }
}

pub proof fn lemma_struct_check_fuel(
    d: Decls,
    s: KState,
    x: Term,
    y: Term,
    parent: NameTerm,
    num_params: nat,
    num_fields: nat,
    g: nat,
    m: nat,
)
    requires
        settled(struct_check(d, s, x, y, parent, num_params, num_fields, g)),
        g <= m,
    ensures
        struct_check(d, s, x, y, parent, num_params, num_fields, m) == struct_check(
            d,
            s,
            x,
            y,
            parent,
            num_params,
            num_fields,
            g,
        ),
    decreases g, 3nat, 0nat,
{
    lemma_infer_fuel(d, s, x, g, m);
    match infer_spec(d, s, x, g) {
        Ok((s1, ix)) => {
            lemma_infer_fuel(d, s1, y, g, m);
            match infer_spec(d, s1, y, g) {
                Ok((s2, iy)) => {
                    lemma_def_eq_fuel(d, s2, ix, iy, g, m);
                    match def_eq_spec(d, s2, ix, iy, g) {
                        Ok((s3, same)) => {
                            if same {
                                lemma_struct_fields_fuel(
                                    d,
                                    s3,
                                    parent,
                                    num_params,
                                    x,
                                    spine_args(y),
                                    0,
                                    num_fields,
                                    g,
                                    m,
                                );
                            }
                        },
                        Err(_) => {},
                    }
                },
                Err(_) => {},
            }
        },
        Err(_) => {},
    }
}

pub proof fn lemma_struct_fields_fuel(
    d: Decls,
    s: KState,
    parent: NameTerm,
    num_params: nat,
    x: Term,
    args: Seq<Term>,
    i: nat,
    n: nat,
    g: nat,
    m: nat,
)
    requires
        settled(struct_fields(d, s, parent, num_params, x, args, i, n, g)),
        g <= m,
    ensures
        struct_fields(d, s, parent, num_params, x, args, i, n, m) == struct_fields(
            d,
            s,
            parent,
            num_params,
            x,
            args,
            i,
            n,
            g,
        ),
    decreases g, 2nat, n - i,
{
    if i < n && num_params + i <= u32::MAX {
        let p = Term::Proj(parent, (num_params + i) as u32, Box::new(x));
        let a = args[(num_params + i) as int];
        lemma_def_eq_fuel(d, s, p, a, g, m);
        match def_eq_spec(d, s, p, a, g) {
            Ok((s1, b)) => {
                if b {
                    lemma_struct_fields_fuel(d, s1, parent, num_params, x, args, i + 1, n, g, m);
                }
            },
            Err(_) => {},
        }
    }
}

/// More fuel does not change the outcome of the check of a declaration.
pub proof fn lemma_check_info_fuel(
    d: Decls,
    s: KState,
    ups: Seq<Level>,
    ty: Term,
    val: Option<Term>,
    fuel: nat,
    more: nat,
)
    requires
        settled(check_info_spec(d, s, ups, ty, val, fuel)),
        fuel <= more,
    ensures
        check_info_spec(d, s, ups, ty, val, more) == check_info_spec(d, s, ups, ty, val, fuel),
{
    if settled(check_steps(d, s, ups, ty, val, fuel)) {
        if !(ups.len() > 0 && !crate::kernel::term_params_in(ty, ups)) {
            lemma_is_sort_fuel(d, s, ty, fuel, more);
            match is_sort_spec(d, s, ty, fuel) {
                Ok((s1, _)) => match val {
                    Some(v) => {
                        if !(ups.len() > 0 && !crate::kernel::term_params_in(v, ups)) {
                            lemma_infer_fuel(d, s1, v, fuel, more);
                            match infer_spec(d, s1, v, fuel) {
                                Ok((s2, t)) => {
                                    lemma_def_eq_fuel(d, s2, ty, t, fuel, more);
                                },
                                Err(_) => {},
                            }
                        }
                    },
                    None => {},
                },
                Err(_) => {},
            }
        }
    }
}

/// More fuel does not change the outcome of the check of all declarations.
pub proof fn lemma_check_all_fuel(
    d: Decls,
    s: KState,
    list: Seq<(NameTerm, Decl)>,
    i: nat,
    fuel: nat,
    more: nat,
)
    requires
        settled(check_all_spec(d, s, list, i, fuel)),
        fuel <= more,
    ensures
        check_all_spec(d, s, list, i, more) == check_all_spec(d, s, list, i, fuel),
    decreases list.len() - i,
{
    if i < list.len() {
        let dec = list[i as int].1;
        lemma_check_info_fuel(d, s, dec.uparams, dec.ty, dec.val, fuel, more);
        match check_info_spec(d, s, dec.uparams, dec.ty, dec.val, fuel) {
            Ok((s1, _)) => {
                lemma_check_all_fuel(d, s1, list, i + 1, fuel, more);
            },
            Err(_) => {},
        }
    }
}

} // verus!
