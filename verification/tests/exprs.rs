use typecheck_rust::error::KernelError;
use typecheck_rust::util::ExportFile;

#[test]
fn instantiate_replaces_the_bound_variable() {
    let mut env = ExportFile::new();
    let zero = env.zero();
    let prop = env.sort(zero);
    let v0 = env.var(0);
    let v1 = env.var(1);
    let v2 = env.var(2);
    assert_eq!(env.inst(v0, prop, 0), Ok(prop));
    assert_eq!(env.inst(v1, prop, 0), Ok(v0));
    assert_eq!(env.inst(v2, prop, 1), Ok(v1));
    assert_eq!(env.inst(v0, prop, 1), Ok(v0));
    assert_eq!(env.inst(prop, v0, 0), Ok(prop));
}

#[test]
fn instantiate_goes_one_deeper_under_a_binder() {
    let mut env = ExportFile::new();
    let zero = env.zero();
    let prop = env.sort(zero);
    let anon = env.anonymous();
    let v0 = env.var(0);
    let v1 = env.var(1);
    let v2 = env.var(2);
    let c = env.nat_lit(7);
    // fun (_ : #0) => #0 #1 #2, with #0 := 7 outside
    let a = env.app(v0, v1);
    let body = env.app(a, v2);
    let lam = env.lambda(anon, v0, body);
    let a2 = env.app(v0, c);
    let body2 = env.app(a2, v1);
    let expected = env.lambda(anon, c, body2);
    assert_eq!(env.inst(lam, c, 0), Ok(expected));
    let pi = env.pi(anon, v0, body);
    let expected = env.pi(anon, c, body2);
    assert_eq!(env.inst(pi, c, 0), Ok(expected));
    let l = env.mk_let(anon, prop, v0, body);
    let expected = env.mk_let(anon, prop, c, body2);
    assert_eq!(env.inst(l, c, 0), Ok(expected));
    let p = env.proj(anon, 1, v0);
    let expected = env.proj(anon, 1, c);
    assert_eq!(env.inst(p, c, 0), Ok(expected));
}

#[test]
fn instantiate_refuses_a_binder_past_the_last_index() {
    let mut env = ExportFile::new();
    let anon = env.anonymous();
    let v0 = env.var(0);
    let c = env.nat_lit(7);
    let lam = env.lambda(anon, c, v0);
    assert_eq!(env.inst(lam, c, u32::MAX), Err(KernelError::IndexOverflow));
    assert_eq!(env.inst(lam, c, u32::MAX - 1), Ok(lam));
    assert_eq!(env.inst(v0, c, u32::MAX), Ok(v0));
}

#[test]
fn abstract_binds_the_free_variable() {
    let mut env = ExportFile::new();
    let zero = env.zero();
    let prop = env.sort(zero);
    let fv = env.free_var(prop).unwrap();
    let other = env.free_var(prop).unwrap();
    assert_ne!(fv, other);
    let v0 = env.var(0);
    let v1 = env.var(1);
    let v3 = env.var(3);
    assert_eq!(env.abstr(fv, fv, 0), Ok(v0));
    assert_eq!(env.abstr(fv, fv, 3), Ok(v3));
    assert_eq!(env.abstr(other, fv, 0), Ok(other));
    assert_eq!(env.abstr(v0, fv, 0), Ok(v1));
    assert_eq!(env.abstr(v0, fv, 1), Ok(v0));
    assert_eq!(env.abstr(prop, fv, 0), Ok(prop));
    let anon = env.anonymous();
    let body = env.app(fv, v0);
    let lam = env.lambda(anon, fv, body);
    let body2 = env.app(v1, v0);
    let expected = env.lambda(anon, v0, body2);
    assert_eq!(env.abstr(lam, fv, 0), Ok(expected));
}

#[test]
fn abstract_refuses_an_index_past_the_last() {
    let mut env = ExportFile::new();
    let zero = env.zero();
    let prop = env.sort(zero);
    let fv = env.free_var(prop).unwrap();
    let last = env.var(u32::MAX);
    assert_eq!(env.abstr(last, fv, 0), Err(KernelError::IndexOverflow));
    let anon = env.anonymous();
    let lam = env.lambda(anon, prop, prop);
    assert_eq!(env.abstr(lam, fv, u32::MAX), Err(KernelError::IndexOverflow));
    assert_eq!(env.abstr(last, fv, 0), Err(KernelError::IndexOverflow));
}

#[test]
fn abstract_undoes_instantiate() {
    let mut env = ExportFile::new();
    let zero = env.zero();
    let prop = env.sort(zero);
    let anon = env.anonymous();
    let fv = env.free_var(prop).unwrap();
    let v0 = env.var(0);
    let v1 = env.var(1);
    let v2 = env.var(2);
    let a = env.app(v0, v1);
    let b = env.app(a, v2);
    let lam = env.lambda(anon, v0, b);
    let pi = env.pi(anon, lam, v1);
    for e in [v0, v1, v2, a, b, lam, pi, prop] {
        let opened = env.inst(e, fv, 0).unwrap();
        assert_eq!(env.abstr(opened, fv, 0), Ok(e));
    }
}

#[test]
fn free_variables_are_numbered_in_turn() {
    let mut env = ExportFile::new();
    let zero = env.zero();
    let prop = env.sort(zero);
    assert_eq!(env.next_fvar, 0);
    let a = env.free_var(prop).unwrap();
    let b = env.free_var(prop).unwrap();
    assert_eq!(env.next_fvar, 2);
    assert_ne!(a, b);
    env.next_fvar = u32::MAX;
    let before = env.exprs.len();
    assert_eq!(env.free_var(prop), Err(KernelError::IndexOverflow));
    assert_eq!(env.next_fvar, u32::MAX);
    assert_eq!(env.exprs.len(), before);
}

#[test]
fn levels_are_substituted_in_sorts_and_constants() {
    let mut env = ExportFile::new();
    let anon = env.anonymous();
    let u = env.mk_str(anon, "u".to_string());
    let c = env.mk_str(anon, "c".to_string());
    let p = env.param(u);
    let zero = env.zero();
    let one = env.succ(zero);
    let from = env.alloc_uparams(vec![p]);
    let to = env.alloc_uparams(vec![one]);
    let sp = env.sort(p);
    let s1 = env.sort(one);
    assert_eq!(env.subst_expr_universes(sp, from, to), Ok(s1));
    let k = env.mk_const(c, from);
    let k1 = env.mk_const(c, to);
    assert_eq!(env.subst_expr_universes(k, from, to), Ok(k1));
    let v0 = env.var(0);
    let body = env.app(k, v0);
    let lam = env.lambda(anon, sp, body);
    let body1 = env.app(k1, v0);
    let lam1 = env.lambda(anon, s1, body1);
    assert_eq!(env.subst_expr_universes(lam, from, to), Ok(lam1));
    let n = env.nat_lit(3);
    assert_eq!(env.subst_expr_universes(n, from, to), Ok(n));
}

#[test]
fn levels_are_not_substituted_in_free_variables() {
    let mut env = ExportFile::new();
    let zero = env.zero();
    let prop = env.sort(zero);
    let none = env.alloc_uparams(vec![]);
    let fv = env.free_var(prop).unwrap();
    assert_eq!(env.subst_expr_universes(fv, none, none), Err(KernelError::FVarInSubst));
    let app = env.app(prop, fv);
    assert_eq!(env.subst_expr_universes(app, none, none), Err(KernelError::FVarInSubst));
}
