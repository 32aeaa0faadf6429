use typecheck_rust::declar::Declar;
use typecheck_rust::error::KernelError;
use typecheck_rust::expr::ExprPtr;
use typecheck_rust::name::NamePtr;
use typecheck_rust::universe::UparamsPtr;
use typecheck_rust::util::ExportFile;

const FUEL: usize = 200;

fn name(env: &mut ExportFile, s: &str) -> NamePtr {
    let anon = env.anonymous();
    env.mk_str(anon, s.to_string())
}

fn no_levels(env: &mut ExportFile) -> UparamsPtr {
    env.alloc_uparams(vec![])
}

fn postulate(env: &mut ExportFile, s: &str, ty: ExprPtr) -> ExprPtr {
    let n = name(env, s);
    let none = no_levels(env);
    env.add_declar(Declar::Axiom { name: n, uparams: none, ty });
    env.mk_const(n, none)
}

fn definition(env: &mut ExportFile, s: &str, ty: ExprPtr, val: ExprPtr) -> ExprPtr {
    let n = name(env, s);
    let none = no_levels(env);
    env.add_declar(Declar::Definition { name: n, uparams: none, ty, val });
    env.mk_const(n, none)
}

fn prop(env: &mut ExportFile) -> ExprPtr {
    let zero = env.zero();
    env.sort(zero)
}

fn type0(env: &mut ExportFile) -> ExprPtr {
    let zero = env.zero();
    let one = env.succ(zero);
    env.sort(one)
}

/// The structure `Unit` with its constructor `unit`.
fn unit(env: &mut ExportFile) -> (ExprPtr, ExprPtr) {
    let ty = type0(env);
    let n = name(env, "Unit");
    let k = name(env, "unit");
    let none = no_levels(env);
    env.add_declar(Declar::Inductive {
        name: n,
        uparams: none,
        ty,
        num_indices: 0,
        all_ctor_names: vec![k],
    });
    let unit_ty = env.mk_const(n, none);
    env.add_declar(Declar::Constructor {
        name: k,
        uparams: none,
        ty: unit_ty,
        num_params: 0,
        num_fields: 0,
        parent: n,
    });
    let ctor = env.mk_const(k, none);
    (unit_ty, ctor)
}

#[test]
fn whnf_takes_an_argument_into_a_function() {
    let mut env = ExportFile::new();
    let anon = env.anonymous();
    let ty = prop(&mut env);
    let a = postulate(&mut env, "a", ty);
    let v0 = env.var(0);
    let id = env.lambda(anon, ty, v0);
    let app = env.app(id, a);
    assert_eq!(env.whnf(app, FUEL), Ok(a));
}

#[test]
fn whnf_applies_the_result_to_the_arguments_that_are_left() {
    let mut env = ExportFile::new();
    let anon = env.anonymous();
    let ty = prop(&mut env);
    let f = postulate(&mut env, "f", ty);
    let a = postulate(&mut env, "a", ty);
    let b = postulate(&mut env, "b", ty);
    let v0 = env.var(0);
    let id = env.lambda(anon, ty, v0);
    let app1 = env.app(id, f);
    let app2 = env.app(app1, a);
    let app3 = env.app(app2, b);
    let fa = env.app(f, a);
    let fab = env.app(fa, b);
    assert_eq!(env.whnf(app3, FUEL), Ok(fab));
    // Without a function at the head, nothing is taken in and nothing is lost.
    assert_eq!(env.whnf(fab, FUEL), Ok(fab));
}

#[test]
fn whnf_puts_each_argument_in_the_place_of_its_binder() {
    let mut env = ExportFile::new();
    let anon = env.anonymous();
    let ty = prop(&mut env);
    let a = postulate(&mut env, "a", ty);
    let b = postulate(&mut env, "b", ty);
    let c = postulate(&mut env, "c", ty);
    let v0 = env.var(0);
    let v1 = env.var(1);
    let v2 = env.var(2);
    // (fun x y => y x) a b is b a
    let body = env.app(v0, v1);
    let inner = env.lambda(anon, ty, body);
    let outer = env.lambda(anon, ty, inner);
    let app1 = env.app(outer, a);
    let app2 = env.app(app1, b);
    let expected = env.app(b, a);
    assert_eq!(env.whnf(app2, FUEL), Ok(expected));
    // (fun x y z => x z y) a b c is a c b
    let xz = env.app(v2, v0);
    let xzy = env.app(xz, v1);
    let l3 = env.lambda(anon, ty, xzy);
    let l2 = env.lambda(anon, ty, l3);
    let l1 = env.lambda(anon, ty, l2);
    let p1 = env.app(l1, a);
    let p2 = env.app(p1, b);
    let p3 = env.app(p2, c);
    let ac = env.app(a, c);
    let acb = env.app(ac, b);
    assert_eq!(env.whnf(p3, FUEL), Ok(acb));
    // With fewer arguments than binders a function is left.
    let partial = env.whnf(p1, FUEL).unwrap();
    let l3a = {
        let az = env.app(a, v0);
        let azy = env.app(az, v1);
        let l3 = env.lambda(anon, ty, azy);
        env.lambda(anon, ty, l3)
    };
    assert_eq!(partial, l3a);
}

#[test]
fn whnf_of_the_first_of_two_arguments() {
    let mut env = ExportFile::new();
    let anon = env.anonymous();
    let zero = env.zero();
    let one = env.succ(zero);
    let two = env.succ(one);
    let s0 = env.sort(zero);
    let s1 = env.sort(one);
    let s2 = env.sort(two);
    let v0 = env.var(0);
    let v1 = env.var(1);
    // (fun x y => x) s0 s1 is s0, and (fun x y => y) s0 s1 is s1
    let inner = env.lambda(anon, s2, v1);
    let first = env.lambda(anon, s2, inner);
    let e0 = env.app(first, s0);
    let e = env.app(e0, s1);
    assert_eq!(env.whnf(e, FUEL), Ok(s0));
    let inner = env.lambda(anon, s2, v0);
    let second = env.lambda(anon, s2, inner);
    let e0 = env.app(second, s0);
    let e = env.app(e0, s1);
    assert_eq!(env.whnf(e, FUEL), Ok(s1));
}

#[test]
fn whnf_opens_a_let() {
    let mut env = ExportFile::new();
    let anon = env.anonymous();
    let ty = prop(&mut env);
    let a = postulate(&mut env, "a", ty);
    let v0 = env.var(0);
    let l = env.mk_let(anon, ty, a, v0);
    assert_eq!(env.whnf(l, FUEL), Ok(a));
}

#[test]
fn whnf_unfolds_a_constant_with_a_value() {
    let mut env = ExportFile::new();
    let ty = prop(&mut env);
    let a = postulate(&mut env, "a", ty);
    let d = definition(&mut env, "d", ty, a);
    let e = definition(&mut env, "e", ty, d);
    assert_eq!(env.whnf(a, FUEL), Ok(a));
    assert_eq!(env.whnf(e, FUEL), Ok(a));
    assert_eq!(env.whnf(d, FUEL), Ok(a));
    let n = name(&mut env, "o");
    let none = no_levels(&mut env);
    env.add_declar(Declar::Opaq { name: n, uparams: none, ty, val: a });
    let o = env.mk_const(n, none);
    assert_eq!(env.whnf(o, FUEL), Ok(a));
}

#[test]
fn whnf_takes_the_field_out_of_a_constructor_application() {
    let mut env = ExportFile::new();
    let ty = type0(&mut env);
    let pair = name(&mut env, "Pair");
    let mk = name(&mut env, "mk");
    let none = no_levels(&mut env);
    env.add_declar(Declar::Inductive {
        name: pair,
        uparams: none,
        ty,
        num_indices: 0,
        all_ctor_names: vec![mk],
    });
    env.add_declar(Declar::Constructor {
        name: mk,
        uparams: none,
        ty,
        num_params: 1,
        num_fields: 2,
        parent: pair,
    });
    let k = env.mk_const(mk, none);
    let p = postulate(&mut env, "p", ty);
    let x = postulate(&mut env, "x", ty);
    let y = postulate(&mut env, "y", ty);
    let a1 = env.app(k, p);
    let a2 = env.app(a1, x);
    let a3 = env.app(a2, y);
    let first = env.proj(pair, 0, a3);
    let second = env.proj(pair, 1, a3);
    let third = env.proj(pair, 2, a3);
    assert_eq!(env.whnf(first, FUEL), Ok(x));
    assert_eq!(env.whnf(second, FUEL), Ok(y));
    assert_eq!(env.whnf(third, FUEL), Err(KernelError::MissingField));
    let stuck = env.proj(pair, 0, p);
    assert_eq!(env.whnf(stuck, FUEL), Ok(stuck));
}

#[test]
fn whnf_records_its_result() {
    let mut env = ExportFile::new();
    let ty = prop(&mut env);
    let a = postulate(&mut env, "a", ty);
    let d = definition(&mut env, "d", ty, a);
    assert_eq!(env.read_whnf(d), None);
    let first = env.whnf(d, FUEL);
    assert_eq!(first, Ok(a));
    assert_eq!(env.read_whnf(d), Some(a));
    let exprs = env.exprs.len();
    let entries = env.whnfs.len();
    assert_eq!(env.whnf(d, FUEL), first);
    assert_eq!(env.whnf(d, 0), first);
    assert_eq!(env.exprs.len(), exprs);
    assert_eq!(env.whnfs.len(), entries);
}

#[test]
fn whnf_stops_when_the_fuel_is_used_up() {
    let mut env = ExportFile::new();
    let ty = prop(&mut env);
    let n = name(&mut env, "loop");
    let none = no_levels(&mut env);
    let this = env.mk_const(n, none);
    env.add_declar(Declar::Definition { name: n, uparams: none, ty, val: this });
    assert_eq!(env.whnf(this, 50), Err(KernelError::OutOfFuel));
    assert_eq!(env.read_whnf(this), None);
}

#[test]
fn whnf_of_an_undeclared_constant() {
    let mut env = ExportFile::new();
    let n = name(&mut env, "nowhere");
    let none = no_levels(&mut env);
    let c = env.mk_const(n, none);
    assert_eq!(env.whnf(c, FUEL), Err(KernelError::UnknownDeclaration));
}

#[test]
fn infer_of_a_sort_is_the_next_sort() {
    let mut env = ExportFile::new();
    let zero = env.zero();
    let one = env.succ(zero);
    let two = env.succ(one);
    let s0 = env.sort(zero);
    let s1 = env.sort(one);
    let s2 = env.sort(two);
    assert_eq!(env.infer(s0, FUEL), Ok(s1));
    assert_eq!(env.infer(s1, 0), Ok(s2));
    let u = name(&mut env, "u");
    let p = env.param(u);
    let sp = env.sort(p);
    let succ_p = env.succ(p);
    let expected = env.sort(succ_p);
    assert_eq!(env.infer(sp, FUEL), Ok(expected));
    assert_eq!(env.read_infer(sp), Some(expected));
}

#[test]
fn infer_of_literals() {
    let mut env = ExportFile::new();
    let n = env.nat_lit(5);
    let s = env.str_lit("five".to_string());
    let nat = name(&mut env, "Nat");
    let string = name(&mut env, "String");
    let none = no_levels(&mut env);
    let nat_ty = env.mk_const(nat, none);
    let string_ty = env.mk_const(string, none);
    assert_eq!(env.infer(n, FUEL), Ok(nat_ty));
    assert_eq!(env.infer(s, FUEL), Ok(string_ty));
}

#[test]
fn infer_of_a_free_variable_is_its_type() {
    let mut env = ExportFile::new();
    let ty = prop(&mut env);
    let fv = env.free_var(ty).unwrap();
    assert_eq!(env.infer(fv, FUEL), Ok(ty));
}

#[test]
fn infer_of_a_bound_variable_fails() {
    let mut env = ExportFile::new();
    let v = env.var(0);
    assert_eq!(env.infer(v, FUEL), Err(KernelError::LooseBVar));
}

#[test]
fn infer_of_a_constant_is_its_declared_type() {
    let mut env = ExportFile::new();
    let ty = prop(&mut env);
    let a = postulate(&mut env, "a", ty);
    assert_eq!(env.read_infer(a), None);
    assert_eq!(env.infer(a, FUEL), Ok(ty));
    assert_eq!(env.read_infer(a), Some(ty));
    let n = name(&mut env, "nowhere");
    let none = no_levels(&mut env);
    let c = env.mk_const(n, none);
    assert_eq!(env.infer(c, FUEL), Err(KernelError::UnknownDeclaration));
}

#[test]
fn infer_of_a_constant_at_other_levels() {
    let mut env = ExportFile::new();
    let u = name(&mut env, "u");
    let p = env.param(u);
    let ups = env.alloc_uparams(vec![p]);
    let sp = env.sort(p);
    let n = name(&mut env, "T");
    env.add_declar(Declar::Axiom { name: n, uparams: ups, ty: sp });
    let zero = env.zero();
    let one = env.succ(zero);
    let at_one = env.alloc_uparams(vec![one]);
    let c = env.mk_const(n, at_one);
    let s1 = env.sort(one);
    assert_eq!(env.infer(c, FUEL), Ok(s1));
    assert_eq!(env.read_infer(c), Some(s1));
}

#[test]
fn infer_of_a_function_type() {
    let mut env = ExportFile::new();
    let anon = env.anonymous();
    let ty = prop(&mut env);
    let a = postulate(&mut env, "A", ty);
    let b = postulate(&mut env, "B", ty);
    // A -> B, both propositions
    let pi = env.pi(anon, a, b);
    let zero = env.zero();
    let imax = env.imax(zero, zero);
    let expected = env.sort(imax);
    assert_eq!(env.infer(pi, FUEL), Ok(expected));
    assert_eq!(env.is_sort(pi, FUEL), Ok(imax));
}

#[test]
fn infer_of_a_function() {
    let mut env = ExportFile::new();
    let anon = env.anonymous();
    let ty = prop(&mut env);
    let a = postulate(&mut env, "A", ty);
    let v0 = env.var(0);
    // fun (x : A) => x
    let id = env.lambda(anon, a, v0);
    let expected = env.pi(anon, a, a);
    assert_eq!(env.infer(id, FUEL), Ok(expected));
    // fun (X : Prop) (x : X) => x
    let inner = env.lambda(anon, v0, v0);
    let poly = env.lambda(anon, ty, inner);
    let v1 = env.var(1);
    let inner_ty = env.pi(anon, v0, v1);
    let expected = env.pi(anon, ty, inner_ty);
    assert_eq!(env.infer(poly, FUEL), Ok(expected));
}

#[test]
fn infer_of_an_application() {
    let mut env = ExportFile::new();
    let anon = env.anonymous();
    let ty = prop(&mut env);
    let a = postulate(&mut env, "A", ty);
    let b = postulate(&mut env, "B", ty);
    let arrow = env.pi(anon, a, b);
    let f = postulate(&mut env, "f", arrow);
    let x = postulate(&mut env, "x", a);
    let y = postulate(&mut env, "y", b);
    let fx = env.app(f, x);
    assert_eq!(env.infer(fx, FUEL), Ok(b));
    let fy = env.app(f, y);
    assert_eq!(env.infer(fy, FUEL), Err(KernelError::TypeMismatch));
    let xx = env.app(x, x);
    assert_eq!(env.infer(xx, FUEL), Err(KernelError::ExpectedPi));
}

#[test]
fn infer_of_an_applied_function_agrees_with_its_instance() {
    let mut env = ExportFile::new();
    let anon = env.anonymous();
    let ty = prop(&mut env);
    let a = postulate(&mut env, "A", ty);
    let b = postulate(&mut env, "B", ty);
    let arrow = env.pi(anon, a, b);
    let f = postulate(&mut env, "f", arrow);
    let x = postulate(&mut env, "x", a);
    let v0 = env.var(0);
    let body = env.app(f, v0);
    let lam = env.lambda(anon, a, body);
    let app = env.app(lam, x);
    let left = env.infer(app, FUEL).unwrap();
    let instance = env.inst(body, x, 0).unwrap();
    let right = env.infer(instance, FUEL).unwrap();
    assert_eq!(env.def_eq(left, right, FUEL), Ok(true));
    assert_eq!(left, b);
}

#[test]
fn infer_of_a_let() {
    let mut env = ExportFile::new();
    let anon = env.anonymous();
    let ty = prop(&mut env);
    let a = postulate(&mut env, "A", ty);
    let b = postulate(&mut env, "B", ty);
    let x = postulate(&mut env, "x", a);
    let v0 = env.var(0);
    let good = env.mk_let(anon, a, x, v0);
    assert_eq!(env.infer(good, FUEL), Ok(a));
    let bad = env.mk_let(anon, b, x, v0);
    assert_eq!(env.infer(bad, FUEL), Err(KernelError::TypeMismatch));
}

#[test]
fn infer_of_a_projection() {
    let mut env = ExportFile::new();
    let anon = env.anonymous();
    let ty = type0(&mut env);
    let a = postulate(&mut env, "A", ty);
    let b = postulate(&mut env, "B", ty);
    let s = name(&mut env, "S");
    let mk = name(&mut env, "mk");
    let none = no_levels(&mut env);
    env.add_declar(Declar::Inductive {
        name: s,
        uparams: none,
        ty,
        num_indices: 0,
        all_ctor_names: vec![mk],
    });
    let s_ty = env.mk_const(s, none);
    // mk : A -> B -> S
    let rest = env.pi(anon, b, s_ty);
    let mk_ty = env.pi(anon, a, rest);
    env.add_declar(Declar::Constructor {
        name: mk,
        uparams: none,
        ty: mk_ty,
        num_params: 0,
        num_fields: 2,
        parent: s,
    });
    let v = postulate(&mut env, "v", s_ty);
    let first = env.proj(s, 0, v);
    let second = env.proj(s, 1, v);
    assert_eq!(env.infer(first, FUEL), Ok(a));
    assert_eq!(env.infer(second, FUEL), Ok(b));
    assert_eq!(env.read_infer(first), Some(a));
    let third = env.proj(s, 2, v);
    assert_eq!(env.infer(third, FUEL), Err(KernelError::ExpectedPi));
    let x = postulate(&mut env, "x", a);
    let wrong = env.proj(s, 0, x);
    assert_eq!(env.infer(wrong, FUEL), Err(KernelError::NotAStructure));
}

#[test]
fn infer_stops_when_the_fuel_is_used_up() {
    let mut env = ExportFile::new();
    let anon = env.anonymous();
    let ty = prop(&mut env);
    let a = postulate(&mut env, "A", ty);
    let v0 = env.var(0);
    let id = env.lambda(anon, a, v0);
    assert_eq!(env.infer(id, 0), Err(KernelError::OutOfFuel));
    assert_eq!(env.infer(id, 1), Err(KernelError::OutOfFuel));
    assert!(env.infer(id, 10).is_ok());
}

#[test]
fn is_sort_of_what_lives_in_no_sort() {
    let mut env = ExportFile::new();
    let anon = env.anonymous();
    let ty = prop(&mut env);
    let a = postulate(&mut env, "A", ty);
    let v0 = env.var(0);
    let id = env.lambda(anon, a, v0);
    assert_eq!(env.is_sort(id, FUEL), Err(KernelError::ExpectedSort));
    let zero = env.zero();
    assert_eq!(env.is_sort(a, FUEL), Ok(zero));
    let one = env.succ(zero);
    assert_eq!(env.is_sort(ty, FUEL), Ok(one));
    assert_eq!(env.is_sort(ty, 0), Err(KernelError::OutOfFuel));
}

#[test]
fn def_eq_is_reflexive() {
    let mut env = ExportFile::new();
    let ty = prop(&mut env);
    let a = postulate(&mut env, "a", ty);
    let v = env.var(4);
    let n = env.nat_lit(1);
    let app = env.app(v, n);
    for e in [ty, a, v, n, app] {
        assert_eq!(env.def_eq(e, e, 0), Ok(true));
        assert_eq!(env.def_eq(e, e, FUEL), Ok(true));
    }
}

#[test]
fn def_eq_of_sorts_compares_levels() {
    let mut env = ExportFile::new();
    let u = name(&mut env, "u");
    let p = env.param(u);
    let zero = env.zero();
    let m = env.max(p, zero);
    let sp = env.sort(p);
    let sm = env.sort(m);
    let s0 = env.sort(zero);
    assert_eq!(env.def_eq(sp, sm, FUEL), Ok(true));
    assert_eq!(env.def_eq(sp, s0, FUEL), Ok(false));
    assert_eq!(env.def_eq(sp, sm, 0), Err(KernelError::OutOfFuel));
}

#[test]
fn def_eq_of_a_bound_variable_fails() {
    let mut env = ExportFile::new();
    let ty = prop(&mut env);
    let v = env.var(0);
    assert_eq!(env.def_eq(v, ty, FUEL), Err(KernelError::LooseBVar));
    assert_eq!(env.def_eq(ty, v, FUEL), Err(KernelError::LooseBVar));
}

#[test]
fn def_eq_of_free_variables_goes_by_their_number() {
    let mut env = ExportFile::new();
    let ty = prop(&mut env);
    let a = env.free_var(ty).unwrap();
    let b = env.free_var(ty).unwrap();
    assert_eq!(env.def_eq(a, b, FUEL), Ok(false));
    assert_eq!(env.def_eq(a, a, FUEL), Ok(true));
}

#[test]
fn def_eq_unfolds_definitions() {
    let mut env = ExportFile::new();
    let ty = type0(&mut env);
    let a = postulate(&mut env, "A", ty);
    let b = postulate(&mut env, "B", ty);
    let d = definition(&mut env, "D", ty, a);
    assert_eq!(env.def_eq(d, a, FUEL), Ok(true));
    assert_eq!(env.def_eq(a, d, FUEL), Ok(true));
    assert_eq!(env.def_eq(d, b, FUEL), Ok(false));
    assert_eq!(env.def_eq(a, b, FUEL), Ok(false));
}

#[test]
fn def_eq_of_binders_opens_both_with_one_variable() {
    let mut env = ExportFile::new();
    let anon = env.anonymous();
    let x = name(&mut env, "x");
    let ty = type0(&mut env);
    let a = postulate(&mut env, "A", ty);
    let d = definition(&mut env, "D", ty, a);
    let v0 = env.var(0);
    let l1 = env.lambda(anon, a, v0);
    let l2 = env.lambda(x, d, v0);
    assert_eq!(env.def_eq(l1, l2, FUEL), Ok(true));
    let p1 = env.pi(anon, a, a);
    let p2 = env.pi(x, d, d);
    assert_eq!(env.def_eq(p1, p2, FUEL), Ok(true));
    let b = postulate(&mut env, "B", ty);
    let p3 = env.pi(anon, a, b);
    assert_eq!(env.def_eq(p1, p3, FUEL), Ok(false));
}

#[test]
fn def_eq_of_values_of_a_unit_like_type() {
    let mut env = ExportFile::new();
    let (unit_ty, _) = unit(&mut env);
    let a = postulate(&mut env, "a", unit_ty);
    let b = postulate(&mut env, "b", unit_ty);
    assert_eq!(env.def_eq(a, b, FUEL), Ok(true));
    assert_eq!(env.unit_like(a, b, FUEL), Ok(true));
    assert_eq!(env.unit_like(b, a, FUEL), Ok(true));
    let ty = type0(&mut env);
    let other = postulate(&mut env, "Other", ty);
    let c = postulate(&mut env, "c", other);
    assert_eq!(env.unit_like(a, c, FUEL), Ok(false));
    assert_eq!(env.unit_like(c, a, FUEL), Ok(false));
    assert_eq!(env.def_eq(a, c, FUEL), Ok(false));
    assert_eq!(env.unit_like(unit_ty, a, FUEL), Ok(false));
}

#[test]
fn def_eq_of_opaque_constants_of_a_unit_like_type() {
    let mut env = ExportFile::new();
    let (unit_ty, ctor) = unit(&mut env);
    let none = no_levels(&mut env);
    let na = name(&mut env, "a");
    let nb = name(&mut env, "b");
    env.add_declar(Declar::Opaq { name: na, uparams: none, ty: unit_ty, val: ctor });
    env.add_declar(Declar::Opaq { name: nb, uparams: none, ty: unit_ty, val: ctor });
    let a = env.mk_const(na, none);
    let b = env.mk_const(nb, none);
    assert_eq!(env.def_eq(a, b, FUEL), Ok(true));
}

#[test]
fn def_eq_of_constructor_applications() {
    let mut env = ExportFile::new();
    let anon = env.anonymous();
    let ty = type0(&mut env);
    let alpha = postulate(&mut env, "alpha", ty);
    let beta = postulate(&mut env, "beta", ty);
    let pair = name(&mut env, "Pair");
    let mk = name(&mut env, "mk");
    let none = no_levels(&mut env);
    // Pair : Type -> Type -> Type
    let t1 = env.pi(anon, ty, ty);
    let pair_ty = env.pi(anon, ty, t1);
    env.add_declar(Declar::Inductive {
        name: pair,
        uparams: none,
        ty: pair_ty,
        num_indices: 0,
        all_ctor_names: vec![mk],
    });
    let pair_c = env.mk_const(pair, none);
    // mk : (a b : Type) -> a -> b -> Pair a b
    let v0 = env.var(0);
    let v1 = env.var(1);
    let v2 = env.var(2);
    let v3 = env.var(3);
    let pa = env.app(pair_c, v3);
    let pab = env.app(pa, v2);
    let f2 = env.pi(anon, v1, pab);
    let f1 = env.pi(anon, v1, f2);
    let fb = env.pi(anon, ty, f1);
    let mk_ty = env.pi(anon, ty, fb);
    let _ = v0;
    env.add_declar(Declar::Constructor {
        name: mk,
        uparams: none,
        ty: mk_ty,
        num_params: 2,
        num_fields: 2,
        parent: pair,
    });
    let mk_c = env.mk_const(mk, none);
    let x = postulate(&mut env, "x", alpha);
    let y2 = postulate(&mut env, "y2", beta);
    let y = definition(&mut env, "y", beta, y2);
    let z = postulate(&mut env, "z", beta);
    let m1 = env.app(mk_c, alpha);
    let m2 = env.app(m1, beta);
    let m3 = env.app(m2, x);
    let p = env.app(m3, y);
    let q = env.app(m3, y2);
    let r = env.app(m3, z);
    assert_eq!(env.def_eq(y, y2, FUEL), Ok(true));
    assert_eq!(env.def_eq(p, q, FUEL), Ok(true));
    assert_eq!(env.def_eq(q, p, FUEL), Ok(true));
    assert_eq!(env.def_eq(p, r, FUEL), Ok(false));
    let expected0 = env.app(pair_c, alpha);
    let expected = env.app(expected0, beta);
    assert_eq!(env.infer(p, FUEL), Ok(expected));
    // Field by field: the arguments are counted first.
    assert_eq!(env.def_eq_struct(x, m3, FUEL), Ok(false));
    assert_eq!(env.def_eq_struct(p, x, FUEL), Ok(false));
}

#[test]
fn def_eq_of_two_proofs_of_a_proposition() {
    let mut env = ExportFile::new();
    let ty = prop(&mut env);
    let p = postulate(&mut env, "P", ty);
    let q = postulate(&mut env, "Q", ty);
    let h1 = postulate(&mut env, "h1", p);
    let h2 = postulate(&mut env, "h2", p);
    let h3 = postulate(&mut env, "h3", q);
    assert_eq!(env.def_eq(h1, h2, FUEL), Ok(true));
    assert_eq!(env.proof_irrelevant(h1, h2, FUEL), Ok(true));
    assert_eq!(env.def_eq(h1, h3, FUEL), Ok(false));
    assert_eq!(env.proof_irrelevant(h1, h3, FUEL), Ok(false));
    let t = type0(&mut env);
    let a = postulate(&mut env, "A", t);
    let x = postulate(&mut env, "x", a);
    let y = postulate(&mut env, "y", a);
    assert_eq!(env.proof_irrelevant(x, y, FUEL), Ok(false));
    assert_eq!(env.def_eq(x, y, FUEL), Ok(false));
    assert_eq!(env.proof_irrelevant(x, y, 0), Err(KernelError::OutOfFuel));
}

#[test]
fn def_eq_of_a_function_and_what_is_none() {
    let mut env = ExportFile::new();
    let anon = env.anonymous();
    let ty = type0(&mut env);
    let a = postulate(&mut env, "A", ty);
    let arrow = env.pi(anon, a, a);
    let f = postulate(&mut env, "f", arrow);
    let v0 = env.var(0);
    let id = env.lambda(anon, a, v0);
    // `f` is wrapped in the identity on the domain of its type, which
    // does not take `f` as an argument.
    assert_eq!(env.def_eq(id, f, FUEL), Err(KernelError::TypeMismatch));
    assert_eq!(env.def_eq(f, id, FUEL), Err(KernelError::TypeMismatch));
}

#[test]
fn spine_of_an_application() {
    let mut env = ExportFile::new();
    let ty = prop(&mut env);
    let f = postulate(&mut env, "f", ty);
    let a = postulate(&mut env, "a", ty);
    let b = postulate(&mut env, "b", ty);
    let fa = env.app(f, a);
    let fab = env.app(fa, b);
    assert_eq!(env.spine(fab), (f, vec![a, b]));
    assert_eq!(env.spine(f), (f, vec![]));
}

#[test]
fn check_of_a_postulate_in_prop() {
    let mut env = ExportFile::new();
    let ty = prop(&mut env);
    postulate(&mut env, "Foo", ty);
    assert_eq!(env.check_all_declars(FUEL), Ok(vec![]));
}

#[test]
fn check_of_the_identity_at_a_level_parameter() {
    let mut env = ExportFile::new();
    let anon = env.anonymous();
    let alpha = name(&mut env, "alpha");
    let x = name(&mut env, "x");
    let u = name(&mut env, "u");
    let id = name(&mut env, "Id");
    let p = env.param(u);
    let ups = env.alloc_uparams(vec![p]);
    let sort_u = env.sort(p);
    let v0 = env.var(0);
    let v1 = env.var(1);
    // Id : (alpha : Sort u) -> alpha -> alpha := fun alpha x => x
    let inner_ty = env.pi(x, v0, v1);
    let ty = env.pi(alpha, sort_u, inner_ty);
    let inner = env.lambda(x, v0, v0);
    let val = env.lambda(alpha, sort_u, inner);
    env.add_declar(Declar::Definition { name: id, uparams: ups, ty, val });
    assert_eq!(env.infer(val, FUEL), Ok(ty));
    let succ_u = env.succ(p);
    let uu = env.imax(p, p);
    let level = env.imax(succ_u, uu);
    assert_eq!(env.is_sort(ty, FUEL), Ok(level));
    assert_eq!(env.check_info(ups, ty, Some(val), FUEL), Ok(true));
    assert_eq!(env.check_all_declars(FUEL), Ok(vec![]));
    let _ = anon;
}

#[test]
fn check_names_the_declarations_whose_types_differ() {
    let mut env = ExportFile::new();
    let ty = type0(&mut env);
    let a = postulate(&mut env, "A", ty);
    let b = postulate(&mut env, "B", ty);
    let x = postulate(&mut env, "x", a);
    let none = no_levels(&mut env);
    let bad = name(&mut env, "bad");
    env.add_declar(Declar::Definition { name: bad, uparams: none, ty: b, val: x });
    let good = name(&mut env, "good");
    env.add_declar(Declar::Theorem { name: good, uparams: none, ty: a, val: x });
    let worse = name(&mut env, "worse");
    let xx = env.app(x, x);
    env.add_declar(Declar::Definition { name: worse, uparams: none, ty: a, val: xx });
    assert_eq!(env.check_info(none, b, Some(x), FUEL), Ok(false));
    assert_eq!(env.check_info(none, a, Some(x), FUEL), Ok(true));
    assert_eq!(env.check_info(none, a, None, FUEL), Ok(true));
    assert_eq!(env.check_info(none, a, Some(xx), FUEL), Err(KernelError::ExpectedPi));
    assert_eq!(env.check_all_declars(FUEL), Err(KernelError::ExpectedPi));
}

#[test]
fn check_goes_on_after_types_that_differ() {
    let mut env = ExportFile::new();
    let anon = env.anonymous();
    let ty = type0(&mut env);
    let a = postulate(&mut env, "A", ty);
    let b = postulate(&mut env, "B", ty);
    let x = postulate(&mut env, "x", a);
    let y = postulate(&mut env, "y", b);
    let arrow = env.pi(anon, a, a);
    let f = postulate(&mut env, "f", arrow);
    let none = no_levels(&mut env);
    let bad = name(&mut env, "bad");
    env.add_declar(Declar::Definition { name: bad, uparams: none, ty: b, val: x });
    let fy = env.app(f, y);
    let inner = name(&mut env, "inner");
    env.add_declar(Declar::Definition { name: inner, uparams: none, ty: a, val: fy });
    let good = name(&mut env, "good");
    env.add_declar(Declar::Theorem { name: good, uparams: none, ty: a, val: x });
    assert_eq!(env.check_all_declars(FUEL), Ok(vec![bad, inner]));
}

#[test]
fn check_refuses_a_level_parameter_that_is_not_listed() {
    let mut env = ExportFile::new();
    let u = name(&mut env, "u");
    let v = name(&mut env, "v");
    let pu = env.param(u);
    let pv = env.param(v);
    let ups = env.alloc_uparams(vec![pu]);
    let none = no_levels(&mut env);
    let su = env.sort(pu);
    let sv = env.sort(pv);
    assert_eq!(env.controllo_parametri(su, ups), Ok(()));
    assert_eq!(env.controllo_parametri(sv, ups), Err(KernelError::UndeclaredParam));
    assert_eq!(env.controllo_parametri(sv, none), Err(KernelError::UndeclaredParam));
    let c = name(&mut env, "c");
    let both = env.alloc_uparams(vec![pu, pv]);
    let k = env.mk_const(c, both);
    assert_eq!(env.controllo_parametri(k, ups), Err(KernelError::UndeclaredParam));
    assert_eq!(env.controllo_parametri(k, both), Ok(()));
    let app = env.app(su, sv);
    assert_eq!(env.controllo_parametri(app, ups), Err(KernelError::UndeclaredParam));
    assert_eq!(env.check_info(ups, sv, None, FUEL), Err(KernelError::UndeclaredParam));
    // Without parameters of its own a declaration is not looked through.
    assert_eq!(env.check_info(none, sv, None, FUEL), Ok(true));
}

#[test]
fn more_fuel_gives_the_same_answers() {
    let build = || {
        let mut env = ExportFile::new();
        let anon = env.anonymous();
        let ty = type0(&mut env);
        let a = postulate(&mut env, "A", ty);
        let d = definition(&mut env, "D", ty, a);
        let x = postulate(&mut env, "x", a);
        let v0 = env.var(0);
        let id = env.lambda(anon, d, v0);
        let app = env.app(id, x);
        (env, a, d, app)
    };
    let mut answers = Vec::new();
    for fuel in [8usize, 20, 500] {
        let (mut env, a, d, app) = build();
        let w = env.whnf(app, fuel);
        let t = env.infer(app, fuel);
        let e = env.def_eq(a, d, fuel);
        answers.push((w, t, e));
    }
    assert!(answers[0].0.is_ok() && answers[0].1.is_ok());
    assert_eq!(answers[0].2, Ok(true));
    assert_eq!(answers[0], answers[1]);
    assert_eq!(answers[1], answers[2]);
}

#[test]
fn a_recorded_result_is_returned_and_nothing_changes() {
    let mut env = ExportFile::new();
    let anon = env.anonymous();
    let ty = type0(&mut env);
    let a = postulate(&mut env, "A", ty);
    let x = postulate(&mut env, "x", a);
    let v0 = env.var(0);
    let id = env.lambda(anon, a, v0);
    let app = env.app(id, x);
    let w = env.whnf(app, FUEL).unwrap();
    let t = env.infer(app, FUEL).unwrap();
    let sizes = |env: &ExportFile| {
        (
            env.names.len(),
            env.universes.len(),
            env.uparams.len(),
            env.exprs.len(),
            env.rec_rules.len(),
            env.declars.len(),
            env.infers.len(),
            env.whnfs.len(),
            env.next_fvar,
        )
    };
    let before = sizes(&env);
    assert_eq!(env.whnf(app, FUEL), Ok(w));
    assert_eq!(env.whnf(app, 0), Ok(w));
    assert_eq!(env.infer(app, FUEL), Ok(t));
    assert_eq!(env.infer(app, 0), Ok(t));
    assert_eq!(sizes(&env), before);
    assert_eq!(env.read_whnf(app), Some(w));
    assert_eq!(env.read_infer(app), Some(t));
}

#[test]
fn what_is_normal_by_its_form_is_its_own_normal_form() {
    let mut env = ExportFile::new();
    let anon = env.anonymous();
    let ty = type0(&mut env);
    let v0 = env.var(0);
    let lam = env.lambda(anon, ty, v0);
    let pi = env.pi(anon, ty, ty);
    let fv = env.free_var(ty).unwrap();
    let n = env.nat_lit(3);
    let s = env.str_lit("s".to_string());
    for e in [ty, v0, lam, pi, fv, n, s] {
        assert_eq!(env.whnf(e, 0), Ok(e));
        assert_eq!(env.read_whnf(e), Some(e));
        assert_eq!(env.whnf(e, FUEL), Ok(e));
    }
}
