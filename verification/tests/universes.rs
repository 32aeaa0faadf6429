use typecheck_rust::universe::UniversePtr;
use typecheck_rust::util::ExportFile;

fn two_params(env: &mut ExportFile) -> (UniversePtr, UniversePtr) {
    let anon = env.anonymous();
    let u = env.mk_str(anon, "u".to_string());
    let v = env.mk_str(anon, "v".to_string());
    (env.param(u), env.param(v))
}

#[test]
fn simplify_drops_zero_from_a_max() {
    let mut env = ExportFile::new();
    let (p, _) = two_params(&mut env);
    let zero = env.zero();
    let m = env.max(zero, p);
    assert_eq!(env.semplifica(m), p);
    let m = env.max(p, zero);
    assert_eq!(env.semplifica(m), p);
}

#[test]
fn simplify_takes_a_common_successor_out() {
    let mut env = ExportFile::new();
    let (p, q) = two_params(&mut env);
    let sp = env.succ(p);
    let sq = env.succ(q);
    let m = env.max(sp, sq);
    let inner = env.max(p, q);
    let expected = env.succ(inner);
    assert_eq!(env.semplifica(m), expected);
}

#[test]
fn simplify_leaves_zero_and_parameters() {
    let mut env = ExportFile::new();
    let (p, _) = two_params(&mut env);
    let zero = env.zero();
    assert_eq!(env.semplifica(zero), zero);
    assert_eq!(env.semplifica(p), p);
    let sp = env.succ(p);
    assert_eq!(env.semplifica(sp), sp);
}

#[test]
fn simplify_turns_imax_into_zero_or_max() {
    let mut env = ExportFile::new();
    let (p, q) = two_params(&mut env);
    let zero = env.zero();
    let i0 = env.imax(p, zero);
    assert_eq!(env.semplifica(i0), zero);
    let i1 = env.imax(p, q);
    let m = env.max(p, q);
    assert_eq!(env.semplifica(i1), m);
    let i2 = env.imax(zero, q);
    assert_eq!(env.semplifica(i2), q);
    let z0 = env.max(zero, zero);
    let i3 = env.imax(p, z0);
    assert_eq!(env.semplifica(i3), zero);
}

#[test]
fn simplify_twice_is_simplify_once() {
    let mut env = ExportFile::new();
    let (p, q) = two_params(&mut env);
    let zero = env.zero();
    let sp = env.succ(p);
    let sq = env.succ(q);
    let a = env.max(sp, sq);
    let b = env.imax(a, q);
    let c = env.max(b, zero);
    let d = env.succ(c);
    let e = env.max(d, sp);
    for u in [zero, p, sp, a, b, c, d, e] {
        let once = env.semplifica(u);
        let twice = env.semplifica(once);
        assert_eq!(once, twice);
    }
}

#[test]
fn leq_on_zero_and_parameters() {
    let mut env = ExportFile::new();
    let (p, q) = two_params(&mut env);
    let zero = env.zero();
    assert!(env.leq(zero, p, 0));
    assert!(env.leq(zero, zero, 0));
    assert!(!env.leq(zero, zero, -1));
    assert!(!env.leq(zero, p, -1));
    assert!(!env.leq(p, zero, 0));
    assert!(!env.leq(p, zero, 5));
    assert!(env.leq(p, p, 0));
    assert!(env.leq(p, p, 3));
    assert!(!env.leq(p, p, -1));
    assert!(!env.leq(p, q, 0));
}

#[test]
fn leq_counts_successors() {
    let mut env = ExportFile::new();
    let (p, _) = two_params(&mut env);
    let zero = env.zero();
    let sp = env.succ(p);
    let ssp = env.succ(sp);
    let one = env.succ(zero);
    assert!(env.leq(p, sp, 0));
    assert!(!env.leq(sp, p, 0));
    assert!(env.leq(sp, p, 1));
    assert!(env.leq(ssp, p, 2));
    assert!(!env.leq(ssp, p, 1));
    assert!(env.leq(p, ssp, -2));
    assert!(!env.leq(p, ssp, -3));
    assert!(env.leq(sp, ssp, 0));
    assert!(env.leq(zero, one, 0));
    assert!(!env.leq(one, zero, 0));
    assert!(env.leq(one, zero, 1));
    assert!(env.leq(zero, one, -1));
}

#[test]
fn leq_on_a_max() {
    let mut env = ExportFile::new();
    let (p, q) = two_params(&mut env);
    let pq = env.max(p, q);
    let qp = env.max(q, p);
    assert!(env.leq(pq, qp, 0));
    assert!(env.leq(qp, pq, 0));
    assert!(!env.leq(pq, qp, -1));
    assert!(env.leq(pq, pq, 0));
    assert!(env.leq(p, pq, 0));
    assert!(env.leq(q, pq, 0));
    assert!(!env.leq(pq, p, 0));
    assert!(!env.leq(pq, q, 7));
    let sp = env.succ(p);
    assert!(!env.leq(sp, pq, 0));
    assert!(env.leq(sp, pq, 1));
}

#[test]
fn leq_both_ways_survives_simplification() {
    let mut env = ExportFile::new();
    let (p, q) = two_params(&mut env);
    let zero = env.zero();
    let a0 = env.max(p, zero);
    let a = env.max(a0, q);
    let b = env.imax(p, q);
    assert!(env.leq(a, b, 0));
    assert!(env.leq(b, a, 0));
    let sa = env.semplifica(a);
    let sb = env.semplifica(b);
    assert!(env.leq(sa, sb, 0));
    assert!(env.leq(sb, sa, 0));
}

#[test]
fn leq_many_compares_place_by_place() {
    let mut env = ExportFile::new();
    let (p, q) = two_params(&mut env);
    let zero = env.zero();
    let pz = env.max(p, zero);
    let a = env.alloc_uparams(vec![p, q]);
    let b = env.alloc_uparams(vec![pz, q]);
    let c = env.alloc_uparams(vec![q, p]);
    let d = env.alloc_uparams(vec![p]);
    let e = env.alloc_uparams(vec![]);
    assert!(env.leq_many(a, a));
    assert!(env.leq_many(a, b));
    assert!(!env.leq_many(a, c));
    assert!(!env.leq_many(a, d));
    assert!(!env.leq_many(e, d));
    assert!(env.leq_many(e, e));
}

#[test]
fn contains_param_looks_for_every_parameter() {
    let mut env = ExportFile::new();
    let (p, q) = two_params(&mut env);
    let zero = env.zero();
    let only_p = env.alloc_uparams(vec![p]);
    let both = env.alloc_uparams(vec![p, q]);
    let none = env.alloc_uparams(vec![]);
    let sp = env.succ(p);
    let m = env.max(sp, q);
    let i = env.imax(q, sp);
    assert!(env.contiene_param(zero, none));
    assert!(env.contiene_param(p, only_p));
    assert!(!env.contiene_param(q, only_p));
    assert!(!env.contiene_param(p, none));
    assert!(env.contiene_param(sp, only_p));
    assert!(!env.contiene_param(m, only_p));
    assert!(env.contiene_param(m, both));
    assert!(env.contiene_param(i, both));
    assert!(!env.contiene_param(i, only_p));
}

#[test]
fn substitution_replaces_parameters_in_parallel() {
    let mut env = ExportFile::new();
    let (p, q) = two_params(&mut env);
    let zero = env.zero();
    let one = env.succ(zero);
    let from = env.alloc_uparams(vec![p, q]);
    let to = env.alloc_uparams(vec![q, one]);
    assert_eq!(env.subst_universe(p, from, to), q);
    assert_eq!(env.subst_universe(q, from, to), one);
    assert_eq!(env.subst_universe(zero, from, to), zero);
    let sp = env.succ(p);
    let m = env.max(sp, q);
    let sq = env.succ(q);
    let expected = env.max(sq, one);
    assert_eq!(env.subst_universe(m, from, to), expected);
    let i = env.imax(p, q);
    let expected = env.imax(q, one);
    assert_eq!(env.subst_universe(i, from, to), expected);
}

#[test]
fn substitution_takes_the_first_listed_partner() {
    let mut env = ExportFile::new();
    let (p, q) = two_params(&mut env);
    let zero = env.zero();
    let one = env.succ(zero);
    let from = env.alloc_uparams(vec![p, p]);
    let to = env.alloc_uparams(vec![one, q]);
    assert_eq!(env.subst_universe(p, from, to), one);
    assert_eq!(env.subst_universe(q, from, to), q);
    let short = env.alloc_uparams(vec![]);
    assert_eq!(env.subst_universe(p, from, short), p);
}

#[test]
fn substitution_in_a_list() {
    let mut env = ExportFile::new();
    let (p, q) = two_params(&mut env);
    let zero = env.zero();
    let one = env.succ(zero);
    let from = env.alloc_uparams(vec![p]);
    let to = env.alloc_uparams(vec![one]);
    let list = env.alloc_uparams(vec![p, q, p]);
    let expected = env.alloc_uparams(vec![one, q, one]);
    assert_eq!(env.subst_universes(list, from, to), expected);
}
