//! The rules keep the memo tables sound: whatever a step leaves in them for
//! an expression whose type or normal form is told by its form alone is that
//! type or that normal form.

use crate::expr::Term;
use crate::kernel::{
    at_levels, check_all_spec, check_info_spec, def_eq_head, def_eq_spec,
    def_eq_struct_spec, def_eq_tail, eq_binders, eta, fresh, infer_app, infer_case, infer_lam,
    infer_let, infer_pi, infer_proj, infer_spec, is_sort_spec, is_structure, open_body,
    proj_fields, proj_params, proj_type, proj_walk, proof_irrelevant_spec, spine_args,
    spine_head, struct_check, struct_fields, unit_check, unit_like_spec, whnf_loop, whnf_spec,
    Decl, Decls, KState, Shape, Step,
};
use crate::kernel::lemma_whnf_normal;
use crate::name::NameTerm;
use crate::term::{abstr_fits, abstr_term, inst_term, lemma_inst_abstr, replace_fvar};
use crate::universe::Level;
use vstd::prelude::*;

verus! {

/// The state that a step leaves, whether it gave a result or not.
pub open spec fn state_of<T>(r: Step<T>) -> KState {
    match r {
        Ok((s, _)) => s,
        Err((s, _)) => s,
    }
}

/// Normalization leaves the memo tables sound.
pub proof fn lemma_whnf_sound(d: Decls, s: KState, v: Term, fuel: nat)
    requires
        s.sound(),
    ensures
        state_of(whnf_spec(d, s, v, fuel)).sound(),
    decreases fuel, 1nat, 0nat,
{
    if !s.whnfs.contains_key(v) {
        lemma_whnf_loop_sound(d, s, v, fuel);
    }
}

/// Reduction at the head leaves the memo tables sound.
pub proof fn lemma_whnf_loop_sound(d: Decls, s: KState, e: Term, fuel: nat)
    requires
        s.sound(),
    ensures
        state_of(whnf_loop(d, s, e, fuel)).sound(),
    decreases fuel, 0nat, 0nat,
{
    if fuel > 0 {
        match e {
            Term::Let(_, _, val, body) => {
                match open_body(*body, *val) {
                    Ok(e1) => {
                        lemma_whnf_loop_sound(d, s, e1, (fuel - 1) as nat);
                    },
                    Err(_) => {},
                }
            },
            Term::Const(name, us) => {
                if d.contains_key(name) {
                    match d[name].val {
                        Some(v) => match at_levels(v, d[name].uparams, us) {
                            Ok(e1) => {
                                lemma_whnf_loop_sound(d, s, e1, (fuel - 1) as nat);
                            },
                            Err(_) => {},
                        },
                        None => {},
                    }
                }
            },
            Term::Proj(_, idx, structure) => {
                lemma_whnf_sound(d, s, *structure, (fuel - 1) as nat);
                match whnf_spec(d, s, *structure, (fuel - 1) as nat) {
                    Ok((s1, x)) => match spine_head(x) {
                        Term::Const(c, _) => {
                            if d.contains_key(c) {
                                match d[c].shape {
                                    Shape::Constructor { num_params, .. } => {
                                        if spine_args(x).len() > idx + num_params {
                                            lemma_whnf_loop_sound(
                                                d,
                                                s1,
                                                spine_args(x)[idx + num_params],
                                                (fuel - 1) as nat);
                                        }
                                    },
                                    _ => {},
                                }
                            }
                        },
                        _ => {},
                    },
                    Err(_) => {},
                }
            },
            _ => {},
        }
    }
}

/// Inference leaves the memo tables sound.
pub proof fn lemma_infer_sound(d: Decls, s: KState, e: Term, fuel: nat)
    requires
        s.sound(),
    ensures
        state_of(infer_spec(d, s, e, fuel)).sound(),
    decreases fuel, 1nat, 0nat,
{
    if !s.infers.contains_key(e) {
        lemma_infer_case_sound(d, s, e, fuel);
    }
}

pub proof fn lemma_infer_case_sound(d: Decls, s: KState, e: Term, fuel: nat)
    requires
        s.sound(),
    ensures
        state_of(infer_case(d, s, e, fuel)).sound(),
    decreases fuel, 0nat, 0nat,
{
    if fuel > 0 {
        let g = (fuel - 1) as nat;
        match e {
            Term::Let(_, ty, val, body) => {
                lemma_infer_let_sound(d, s, *ty, *val, *body, g);
            },
            Term::Pi(_, ty, body) => {
                lemma_infer_pi_sound(d, s, *ty, *body, g);
            },
            Term::Lam(n, ty, body) => {
                lemma_infer_lam_sound(d, s, n, *ty, *body, g);
            },
            Term::App(f, a) => {
                lemma_infer_app_sound(d, s, *f, *a, g);
            },
            Term::Proj(n, i, st) => {
                lemma_infer_proj_sound(d, s, n, i, *st, g);
            },
            _ => {},
        }
    }
}

pub proof fn lemma_infer_let_sound(d: Decls, s: KState, ty: Term, val: Term, body: Term, g: nat)
    requires
        s.sound(),
    ensures
        state_of(infer_let(d, s, ty, val, body, g)).sound(),
    decreases g, 3nat, 0nat,
{
    lemma_is_sort_sound(d, s, ty, g);
    match is_sort_spec(d, s, ty, g) {
        Ok((s1, _)) => {
            lemma_infer_sound(d, s1, val, g);
            match infer_spec(d, s1, val, g) {
                Ok((s2, v)) => {
                    lemma_def_eq_sound(d, s2, ty, v, g);
                    match def_eq_spec(d, s2, ty, v, g) {
                        Ok((s3, same)) => {
                            if same {
                                match open_body(body, val) {
                                    Ok(b) => {
                                        lemma_infer_sound(d, s3, b, g);
                                    },
                                    Err(_) => {},
                                }
                            }
                        },
                        Err(_) => {},
                    }
                },
                Err(_) => {},
            }
        },
        Err(_) => {},
    }
}

pub proof fn lemma_infer_pi_sound(d: Decls, s: KState, ty: Term, body: Term, g: nat)
    requires
        s.sound(),
    ensures
        state_of(infer_pi(d, s, ty, body, g)).sound(),
    decreases g, 3nat, 0nat,
{
    lemma_is_sort_sound(d, s, ty, g);
    match is_sort_spec(d, s, ty, g) {
        Ok((s1, _)) => match fresh(s1, ty) {
            Ok((s2, fv)) => match open_body(body, fv) {
                Ok(b) => {
                    lemma_is_sort_sound(d, s2, b, g);
                },
                Err(_) => {},
            },
            Err(_) => {},
        },
        Err(_) => {},
    }
}

pub proof fn lemma_infer_lam_sound(d: Decls, s: KState, n: NameTerm, ty: Term, body: Term, g: nat)
    requires
        s.sound(),
    ensures
        state_of(infer_lam(d, s, n, ty, body, g)).sound(),
    decreases g, 3nat, 0nat,
{
    lemma_is_sort_sound(d, s, ty, g);
    match is_sort_spec(d, s, ty, g) {
        Ok((s1, _)) => match fresh(s1, ty) {
            Ok((s2, fv)) => match open_body(body, fv) {
                Ok(b) => {
                    lemma_infer_sound(d, s2, b, g);
                },
                Err(_) => {},
            },
            Err(_) => {},
        },
        Err(_) => {},
    }
}

pub proof fn lemma_infer_app_sound(d: Decls, s: KState, f: Term, a: Term, g: nat)
    requires
        s.sound(),
    ensures
        state_of(infer_app(d, s, f, a, g)).sound(),
    decreases g, 3nat, 0nat,
{
    lemma_infer_sound(d, s, f, g);
    match infer_spec(d, s, f, g) {
        Ok((s1, tf)) => {
            lemma_whnf_sound(d, s1, tf, g);
            match whnf_spec(d, s1, tf, g) {
                Ok((s2, w)) => match w {
                    Term::Pi(_, ty, body) => {
                        lemma_infer_sound(d, s2, a, g);
                        match infer_spec(d, s2, a, g) {
                            Ok((s3, ta)) => {
                                lemma_def_eq_sound(d, s3, *ty, ta, g);
                            },
                            Err(_) => {},
                        }
                    },
                    _ => {},
                },
                Err(_) => {},
            }
        },
        Err(_) => {},
    }
}

pub proof fn lemma_infer_proj_sound(d: Decls, s: KState, name: NameTerm, idx: u32, st: Term, g: nat)
    requires
        s.sound(),
    ensures
        state_of(infer_proj(d, s, name, idx, st, g)).sound(),
    decreases g, 3nat, 2nat,
{
    lemma_infer_sound(d, s, st, g);
    match infer_spec(d, s, st, g) {
        Ok((s1, t)) => {
            lemma_whnf_sound(d, s1, t, g);
            match whnf_spec(d, s1, t, g) {
                Ok((s2, w)) => {
                    lemma_proj_type_sound(d, s2, name, idx, st, w, g);
                },
                Err(_) => {},
            }
        },
        Err(_) => {},
    }
}

pub proof fn lemma_proj_type_sound(
    d: Decls,
    s: KState,
    name: NameTerm,
    idx: u32,
    st: Term,
    w: Term,
    g: nat,
)
    requires
        s.sound(),
    ensures
        state_of(proj_type(d, s, name, idx, st, w, g)).sound(),
    decreases g, 3nat, 1nat,
{
    match spine_head(w) {
        Term::Const(c, us) => {
            if c == name && d.contains_key(name) && is_structure(d[name].shape) {
                let k = d[name].shape->ctors[0];
                if d.contains_key(k) {
                    match d[k].shape {
                        Shape::Constructor { num_params, .. } => match at_levels(
                            d[k].ty,
                            d[k].uparams,
                            us,
                        ) {
                            Ok(kt) => {
                                let args = spine_args(w);
                                let n = if num_params <= args.len() {
                                    num_params as nat
                                } else {
                                    args.len()
                                };
                                lemma_proj_walk_sound(d, s, kt, args, n, name, idx, st, g);
                            },
                            Err(_) => {},
                        },
                        _ => {},
                    }
                }
            }
        },
        _ => {},
    }
}

pub proof fn lemma_proj_walk_sound(
    d: Decls,
    s: KState,
    kt: Term,
    args: Seq<Term>,
    n: nat,
    name: NameTerm,
    idx: u32,
    st: Term,
    g: nat,
)
    requires
        s.sound(),
    ensures
        state_of(proj_walk(d, s, kt, args, n, name, idx, st, g)).sound(),
    decreases g, 3nat, 0nat,
{
    lemma_proj_params_sound(d, s, kt, args, 0, n, g);
    match proj_params(d, s, kt, args, 0, n, g) {
        Ok((s3, k1)) => {
            lemma_proj_fields_sound(d, s3, k1, name, st, 0, idx as nat, g);
            match proj_fields(d, s3, k1, name, st, 0, idx as nat, g) {
                Ok((s4, k2)) => {
                    lemma_whnf_sound(d, s4, k2, g);
                },
                Err(_) => {},
            }
        },
        Err(_) => {},
    }
}

pub proof fn lemma_proj_params_sound(d: Decls, s: KState, kt: Term, args: Seq<Term>, i: nat, n: nat, g: nat)
    requires
        s.sound(),
    ensures
        state_of(proj_params(d, s, kt, args, i, n, g)).sound(),
    decreases g, 2nat, n - i,
{
    if i < n {
        lemma_whnf_sound(d, s, kt, g);
        match whnf_spec(d, s, kt, g) {
            Ok((s1, w)) => match w {
                Term::Pi(_, _, body) => match open_body(*body, args[i as int]) {
                    Ok(k1) => {
                        lemma_proj_params_sound(d, s1, k1, args, i + 1, n, g);
                    },
                    Err(_) => {},
                },
                _ => {},
            },
            Err(_) => {},
        }
    }
}

pub proof fn lemma_proj_fields_sound(
    d: Decls,
    s: KState,
    kt: Term,
    name: NameTerm,
    st: Term,
    i: nat,
    n: nat,
    g: nat,
)
    requires
        s.sound(),
    ensures
        state_of(proj_fields(d, s, kt, name, st, i, n, g)).sound(),
    decreases g, 2nat, n - i,
{
    if i < n {
        lemma_whnf_sound(d, s, kt, g);
        match whnf_spec(d, s, kt, g) {
            Ok((s1, w)) => match w {
                Term::Pi(_, _, body) => match open_body(
                    *body,
                    Term::Proj(name, i as u32, Box::new(st)),
                ) {
                    Ok(k1) => {
                        lemma_proj_fields_sound(d, s1, k1, name, st, i + 1, n, g);
                    },
                    Err(_) => {},
                },
                _ => {},
            },
            Err(_) => {},
        }
    }
}

/// Looking for the level of a sort leaves the memo tables sound.
pub proof fn lemma_is_sort_sound(d: Decls, s: KState, e: Term, fuel: nat)
    requires
        s.sound(),
    ensures
        state_of(is_sort_spec(d, s, e, fuel)).sound(),
    decreases fuel, 1nat, 0nat,
{
    if fuel > 0 {
        let g = (fuel - 1) as nat;
        lemma_infer_sound(d, s, e, g);
        match infer_spec(d, s, e, g) {
            Ok((s1, t)) => {
                lemma_whnf_sound(d, s1, t, g);
                match whnf_spec(d, s1, t, g) {
                    Ok((s2, w)) => match w {
                        Term::FVar(_, ty) => {
                            lemma_is_sort_sound(d, s2, *ty, g);
                        },
                        Term::Const(n, us) => {
                            if d.contains_key(n) {
                                match at_levels(d[n].ty, d[n].uparams, us) {
                                    Ok(t2) => {
                                        lemma_is_sort_sound(d, s2, t2, g);
                                    },
                                    Err(_) => {},
                                }
                            }
                        },
                        _ => {},
                    },
                    Err(_) => {},
                }
            },
            Err(_) => {},
        }
    }
}

/// Definitional equality leaves the memo tables sound.
pub proof fn lemma_def_eq_sound(d: Decls, s: KState, x: Term, y: Term, fuel: nat)
    requires
        s.sound(),
    ensures
        state_of(def_eq_spec(d, s, x, y, fuel)).sound(),
    decreases fuel, 1nat, 0nat,
{
    if fuel > 0 {
        if x != y {
            let g = (fuel - 1) as nat;
            lemma_def_eq_head_sound(d, s, x, y, g);
            match def_eq_head(d, s, x, y, g) {
                Ok((s1, None)) => {
                    lemma_def_eq_tail_sound(d, s1, x, y, g);
                },
                _ => {},
            }
        }
    }
}

pub proof fn lemma_def_eq_head_sound(d: Decls, s: KState, x: Term, y: Term, g: nat)
    requires
        s.sound(),
    ensures
        state_of(def_eq_head(d, s, x, y, g)).sound(),
    decreases g, 3nat, 1nat,
{
    match (x, y) {
        (Term::BVar(_), _) => {},
        (_, Term::BVar(_)) => {},
        (Term::FVar(_, _), Term::FVar(_, _)) => {},
        (Term::Sort(_), Term::Sort(_)) => {},
        (Term::Const(n1, _), Term::Const(n2, _)) => {
            if n1 != n2 {
                lemma_unit_like_sound(d, s, x, y, g);
                match unit_like_spec(d, s, x, y, g) {
                    Ok((s1, b)) => {
                        if !b {
                            lemma_unit_like_sound(d, s1, y, x, g);
                        }
                    },
                    Err(_) => {},
                }
            }
        },
        (Term::App(f1, a1), Term::App(f2, a2)) => {
            lemma_def_eq_sound(d, s, *f1, *f2, g);
            match def_eq_spec(d, s, *f1, *f2, g) {
                Ok((s1, b)) => {
                    if b {
                        lemma_def_eq_sound(d, s1, *a1, *a2, g);
                    }
                },
                Err(_) => {},
            }
        },
        (Term::Lam(_, t1, b1), Term::Lam(_, t2, b2)) => {
            lemma_eq_binders_sound(d, s, *t1, *b1, *t2, *b2, g);
        },
        (Term::Pi(_, t1, b1), Term::Pi(_, t2, b2)) => {
            lemma_eq_binders_sound(d, s, *t1, *b1, *t2, *b2, g);
        },
        (Term::Let(_, _, v1, b1), Term::Let(_, _, v2, b2)) => {
            lemma_def_eq_sound(d, s, *v1, *v2, g);
            match def_eq_spec(d, s, *v1, *v2, g) {
                Ok((s1, b)) => {
                    if b {
                        match open_body(*b1, *v1) {
                            Ok(x1) => match open_body(*b2, *v2) {
                                Ok(y1) => {
                                    lemma_def_eq_sound(d, s1, x1, y1, g);
                                },
                                Err(_) => {},
                            },
                            Err(_) => {},
                        }
                    }
                },
                Err(_) => {},
            }
        },
        (Term::Proj(n1, i1, s1), Term::Proj(n2, i2, s2)) => {
            if n1 == n2 && i1 == i2 {
                lemma_def_eq_sound(d, s, *s1, *s2, g);
            }
        },
        (Term::Lam(_, _, _), _) => {
            lemma_eta_sound(d, s, x, y, true, g);
        },
        (_, Term::Lam(_, _, _)) => {
            lemma_eta_sound(d, s, y, x, false, g);
        },
        (Term::App(_, _), _) => {
            lemma_def_eq_struct_sound(d, s, y, x, g);
        },
        (_, Term::App(_, _)) => {
            lemma_def_eq_struct_sound(d, s, x, y, g);
        },
        _ => {},
    }
}

pub proof fn lemma_eq_binders_sound(d: Decls, s: KState, t1: Term, b1: Term, t2: Term, b2: Term, g: nat)
    requires
        s.sound(),
    ensures
        state_of(eq_binders(d, s, t1, b1, t2, b2, g)).sound(),
    decreases g, 3nat, 0nat,
{
    lemma_def_eq_sound(d, s, t1, t2, g);
    match def_eq_spec(d, s, t1, t2, g) {
        Ok((s1, b)) => {
            if b {
                match fresh(s1, t1) {
                    Ok((s2, fv)) => match open_body(b1, fv) {
                        Ok(x1) => match open_body(b2, fv) {
                            Ok(y1) => {
                                lemma_def_eq_sound(d, s2, x1, y1, g);
                            },
                            Err(_) => {},
                        },
                        Err(_) => {},
                    },
                    Err(_) => {},
                }
            }
        },
        Err(_) => {},
    }
}

pub proof fn lemma_eta_sound(d: Decls, s: KState, lam: Term, other: Term, lam_first: bool, g: nat)
    requires
        s.sound(),
    ensures
        state_of(eta(d, s, lam, other, lam_first, g)).sound(),
    decreases g, 3nat, 0nat,
{
    lemma_infer_sound(d, s, other, g);
    match infer_spec(d, s, other, g) {
        Ok((s1, t)) => {
            lemma_whnf_sound(d, s1, t, g);
            match whnf_spec(d, s1, t, g) {
                Ok((s2, w)) => match w {
                    Term::Pi(n, ty, _) => {
                        let wrapped = Term::App(
                            Box::new(Term::Lam(n, ty, Box::new(Term::BVar(0)))),
                            Box::new(other),
                        );
                        if lam_first {
                            lemma_def_eq_sound(d, s2, lam, wrapped, g);
                        } else {
                            lemma_def_eq_sound(d, s2, wrapped, lam, g);
                        }
                    },
                    _ => {},
                },
                Err(_) => {},
            }
        },
        Err(_) => {},
    }
}

pub proof fn lemma_def_eq_tail_sound(d: Decls, s: KState, x: Term, y: Term, g: nat)
    requires
        s.sound(),
    ensures
        state_of(def_eq_tail(d, s, x, y, g)).sound(),
    decreases g, 3nat, 0nat,
{
    lemma_proof_irrelevant_sound(d, s, x, y, g);
    match proof_irrelevant_spec(d, s, x, y, g) {
        Ok((s1, b1)) => {
            if !b1 {
                lemma_proof_irrelevant_sound(d, s1, y, x, g);
                match proof_irrelevant_spec(d, s1, y, x, g) {
                    Ok((s2, b2)) => {
                        if !b2 {
                            lemma_whnf_sound(d, s2, x, g);
                            match whnf_spec(d, s2, x, g) {
                                Ok((s3, wx)) => {
                                    lemma_whnf_sound(d, s3, y, g);
                                    match whnf_spec(d, s3, y, g) {
                                        Ok((s4, wy)) => {
                                            if wx != x || wy != y {
                                                lemma_def_eq_sound(d, s4, wx, wy, g);
                                            }
                                        },
                                        Err(_) => {},
                                    }
                                },
                                Err(_) => {},
                            }
                        }
                    },
                    Err(_) => {},
                }
            }
        },
        Err(_) => {},
    }
}

pub proof fn lemma_unit_like_sound(d: Decls, s: KState, x: Term, y: Term, fuel: nat)
    requires
        s.sound(),
    ensures
        state_of(unit_like_spec(d, s, x, y, fuel)).sound(),
    decreases fuel, 1nat, 0nat,
{
    if fuel > 0 {
        match x {
            Term::Const(n1, us) => {
                if d.contains_key(n1) {
                    match spine_head(d[n1].ty) {
                        Term::Const(i, _) => {
                            if d.contains_key(i) && is_structure(d[i].shape) {
                                lemma_unit_check_sound(
                                    d,
                                    s,
                                    x,
                                    y,
                                    us.len(),
                                    d[i].shape->ctors[0],
                                    (fuel - 1) as nat);
                            }
                        },
                        _ => {},
                    }
                }
            },
            _ => {},
        }
    }
}

pub proof fn lemma_unit_check_sound(d: Decls, s: KState, x: Term, y: Term, arity: nat, k: NameTerm, g: nat)
    requires
        s.sound(),
    ensures
        state_of(unit_check(d, s, x, y, arity, k, g)).sound(),
    decreases g, 3nat, 0nat,
{
    lemma_infer_sound(d, s, x, g);
    match infer_spec(d, s, x, g) {
        Ok((s1, ix)) => {
            lemma_infer_sound(d, s1, y, g);
            match infer_spec(d, s1, y, g) {
                Ok((s2, iy)) => {
                    lemma_def_eq_sound(d, s2, ix, iy, g);
                },
                Err(_) => {},
            }
        },
        Err(_) => {},
    }
}

pub proof fn lemma_proof_irrelevant_sound(d: Decls, s: KState, x: Term, y: Term, fuel: nat)
    requires
        s.sound(),
    ensures
        state_of(proof_irrelevant_spec(d, s, x, y, fuel)).sound(),
    decreases fuel, 1nat, 0nat,
{
    if fuel > 0 {
        let g = (fuel - 1) as nat;
        lemma_infer_sound(d, s, x, g);
        match infer_spec(d, s, x, g) {
            Ok((s1, ix)) => {
                lemma_infer_sound(d, s1, y, g);
                match infer_spec(d, s1, y, g) {
                    Ok((s2, iy)) => {
                        lemma_is_sort_sound(d, s2, ix, g);
                        match is_sort_spec(d, s2, ix, g) {
                            Ok((s3, u)) => {
                                if u == Level::Zero {
                                    lemma_is_sort_sound(d, s3, iy, g);
                                    match is_sort_spec(d, s3, iy, g) {
                                        Ok((s4, v)) => {
                                            if v == Level::Zero {
                                                lemma_def_eq_sound(d, s4, ix, iy, g);
                                            }
                                        },
                                        Err(_) => {},
                                    }
                                }
                            },
                            Err(_) => {},
                        }
                    },
                    Err(_) => {},
                }
            },
            Err(_) => {},
        }
    }
}

pub proof fn lemma_def_eq_struct_sound(d: Decls, s: KState, x: Term, y: Term, fuel: nat)
    requires
        s.sound(),
    ensures
        state_of(def_eq_struct_spec(d, s, x, y, fuel)).sound(),
    decreases fuel, 1nat, 0nat,
{
    if fuel > 0 {
        match spine_head(y) {
            Term::Const(name, _) => {
                if d.contains_key(name) {
                    match d[name].shape {
                        Shape::Constructor { num_params, num_fields, parent } => {
                            if d.contains_key(parent) && is_structure(d[parent].shape) && spine_args(
                                y,
                            ).len() == num_params + num_fields {
                                lemma_struct_check_sound(
                                    d,
                                    s,
                                    x,
                                    y,
                                    parent,
                                    num_params as nat,
                                    num_fields as nat,
                                    (fuel - 1) as nat);
                            }
                        },
                        _ => {},
                    }
                }
            },
            _ => {},
        }
    }
}

pub proof fn lemma_struct_check_sound(
    d: Decls,
    s: KState,
    x: Term,
    y: Term,
    parent: NameTerm,
    num_params: nat,
    num_fields: nat,
    g: nat,
)
    requires
        s.sound(),
    ensures
        state_of(struct_check(d, s, x, y, parent, num_params, num_fields, g)).sound(),
    decreases g, 3nat, 0nat,
{
    lemma_infer_sound(d, s, x, g);
    match infer_spec(d, s, x, g) {
        Ok((s1, ix)) => {
            lemma_infer_sound(d, s1, y, g);
            match infer_spec(d, s1, y, g) {
                Ok((s2, iy)) => {
                    lemma_def_eq_sound(d, s2, ix, iy, g);
                    match def_eq_spec(d, s2, ix, iy, g) {
                        Ok((s3, same)) => {
                            if same {
                                lemma_struct_fields_sound(
                                    d,
                                    s3,
                                    parent,
                                    num_params,
                                    x,
                                    spine_args(y),
                                    0,
                                    num_fields,
                                    g);
                            }
                        },
                        Err(_) => {},
                    }
                },
                Err(_) => {},
            }
        },
        Err(_) => {},
    }
}

pub proof fn lemma_struct_fields_sound(
    d: Decls,
    s: KState,
    parent: NameTerm,
    num_params: nat,
    x: Term,
    args: Seq<Term>,
    i: nat,
    n: nat,
    g: nat,
)
    requires
        s.sound(),
    ensures
        state_of(struct_fields(d, s, parent, num_params, x, args, i, n, g)).sound(),
    decreases g, 2nat, n - i,
{
    if i < n && num_params + i <= u32::MAX {
        let p = Term::Proj(parent, (num_params + i) as u32, Box::new(x));
        let a = args[(num_params + i) as int];
        lemma_def_eq_sound(d, s, p, a, g);
        match def_eq_spec(d, s, p, a, g) {
            Ok((s1, b)) => {
                if b {
                    lemma_struct_fields_sound(d, s1, parent, num_params, x, args, i + 1, n, g);
                }
            },
            Err(_) => {},
        }
    }
}

/// The check of a declaration leaves the memo tables sound.
pub proof fn lemma_check_info_sound(
    d: Decls,
    s: KState,
    ups: Seq<Level>,
    ty: Term,
    val: Option<Term>,
    fuel: nat,
)
    requires
        s.sound(),
    ensures
        state_of(check_info_spec(d, s, ups, ty, val, fuel)).sound(),
{
    {
        if !(ups.len() > 0 && !crate::kernel::term_params_in(ty, ups)) {
            lemma_is_sort_sound(d, s, ty, fuel);
            match is_sort_spec(d, s, ty, fuel) {
                Ok((s1, _)) => match val {
                    Some(v) => {
                        if !(ups.len() > 0 && !crate::kernel::term_params_in(v, ups)) {
                            lemma_infer_sound(d, s1, v, fuel);
                            match infer_spec(d, s1, v, fuel) {
                                Ok((s2, t)) => {
                                    lemma_def_eq_sound(d, s2, ty, t, fuel);
                                },
                                Err(_) => {},
                            }
                        }
                    },
                    None => {},
                },
                Err(_) => {},
            }
        }
    }
}

/// The check of all declarations leaves the memo tables sound.
pub proof fn lemma_check_all_sound(
    d: Decls,
    s: KState,
    list: Seq<(NameTerm, Decl)>,
    i: nat,
    fuel: nat,
)
    requires
        s.sound(),
    ensures
        state_of(check_all_spec(d, s, list, i, fuel)).sound(),
    decreases list.len() - i,
{
    if i < list.len() {
        let dec = list[i as int].1;
        lemma_check_info_sound(d, s, dec.uparams, dec.ty, dec.val, fuel);
        match check_info_spec(d, s, dec.uparams, dec.ty, dec.val, fuel) {
            Ok((s1, _)) => {
                lemma_check_all_sound(d, s1, list, i + 1, fuel);
            },
            Err(_) => {},
        }
    }
}

/// The type of a function applied to an argument is the type of the body
/// of the function, opened with a new free variable, with the argument in
/// the place of that variable. This holds where neither the application nor
/// the function has a recorded type.
pub proof fn lemma_infer_redex(
    d: Decls,
    s: KState,
    n: NameTerm,
    ty: Term,
    body: Term,
    a: Term,
    fuel: nat,
)
    requires
        s.sound(),
        !s.infers.contains_key(
            Term::App(Box::new(Term::Lam(n, Box::new(ty), Box::new(body))), Box::new(a)),
        ),
        !s.infers.contains_key(Term::Lam(n, Box::new(ty), Box::new(body))),
        infer_spec(
            d,
            s,
            Term::App(Box::new(Term::Lam(n, Box::new(ty), Box::new(body))), Box::new(a)),
            fuel,
        ) is Ok,
    ensures
        ({
            let redex = Term::App(
                Box::new(Term::Lam(n, Box::new(ty), Box::new(body))),
                Box::new(a),
            );
            let g = (fuel - 2) as nat;
            let s1 = state_of(is_sort_spec(d, s, ty, g));
            let fv = Term::FVar(s1.next_fvar as u32, Box::new(ty));
            let opened = inst_term(body, fv, 0);
            &&& fuel >= 2
            &&& is_sort_spec(d, s, ty, g) is Ok
            &&& infer_spec(d, s1.bumped(), opened, g) is Ok
            &&& infer_spec(d, s, redex, fuel)->Ok_0.1 == replace_fvar(
                infer_spec(d, s1.bumped(), opened, g)->Ok_0.1,
                fv,
                a,
            )
        }),
{
    let lam = Term::Lam(n, Box::new(ty), Box::new(body));
    let redex = Term::App(Box::new(lam), Box::new(a));
    assert(infer_case(d, s, redex, fuel) is Ok);
    assert(fuel > 0);
    let g1 = (fuel - 1) as nat;
    assert(infer_case(d, s, redex, fuel) == infer_app(d, s, lam, a, g1));
    let r_lam = infer_spec(d, s, lam, g1);
    assert(r_lam is Ok);
    assert(r_lam == match infer_case(d, s, lam, g1) {
        Ok((s1, out)) => Ok::<(KState, Term), (KState, crate::error::KernelError)>(
            (s1.with_infer(lam, out), out),
        ),
        Err(err) => Err(err),
    });
    assert(g1 > 0);
    let g = (g1 - 1) as nat;
    assert(infer_case(d, s, lam, g1) == infer_lam(d, s, n, ty, body, g));
    let s1 = is_sort_spec(d, s, ty, g)->Ok_0.0;
    let fv = Term::FVar(s1.next_fvar as u32, Box::new(ty));
    let opened = inst_term(body, fv, 0);
    let r_body = infer_spec(d, s1.bumped(), opened, g);
    let t_body = r_body->Ok_0.1;
    assert(is_sort_spec(d, s, ty, g) is Ok);
    assert(fresh(s1, ty) == Ok::<(KState, Term), (KState, crate::error::KernelError)>(
        (s1.bumped(), fv),
    ));
    assert(open_body(body, fv) == Ok::<Term, crate::error::KernelError>(opened));
    assert(r_body is Ok);
    assert(abstr_fits(t_body, 0));
    let pi = Term::Pi(n, Box::new(ty), Box::new(abstr_term(t_body, fv, 0)));
    assert(r_lam->Ok_0.1 == pi);
    lemma_infer_sound(d, s, lam, g1);
    let s4 = r_lam->Ok_0.0;
    lemma_whnf_normal(d, s4, pi, g1);
    lemma_inst_abstr(t_body, fv, a, 0);
}

} // verus!
