use typecheck_rust::declar::Declar;
use typecheck_rust::expr::Expr;
use typecheck_rust::hashing::{digest_of, digest_of_words, split_u128};
use typecheck_rust::name::Name;
use typecheck_rust::universe::Universe;
use typecheck_rust::util::{ExportFile, Ptr};

#[test]
fn new_environment_holds_the_reserved_items() {
    let env = ExportFile::new();
    assert_eq!(env.names.len(), 1);
    assert_eq!(env.universes.len(), 1);
    assert_eq!(env.exprs.len(), 0);
    assert_eq!(env.uparams.len(), 0);
    assert_eq!(env.declars.len(), 0);
    assert_eq!(env.anonymous().idx, 0);
    assert_eq!(env.zero().idx, 0);
    assert_eq!(env.read_name(env.anonymous()), Name::Anon);
    assert_eq!(env.read_universe(env.zero()), Universe::Zero);
}

#[test]
fn handle_is_its_position() {
    let p: Ptr<Expr> = Ptr::from(7);
    assert_eq!(p.idx, 7);
    assert_eq!(p.get_hash(), 7);
    assert_eq!(p, Ptr::from(7));
    assert_ne!(p, Ptr::from(8));
}

#[test]
fn equal_levels_share_a_handle() {
    let mut env = ExportFile::new();
    let zero = env.zero();
    let one = env.succ(zero);
    let again = env.succ(zero);
    assert_eq!(one, again);
    assert_eq!(one.idx, 1);
    let two = env.succ(one);
    assert_ne!(two, one);
    assert_eq!(env.universes.len(), 3);
    let m1 = env.max(one, two);
    let m2 = env.max(two, one);
    assert_ne!(m1, m2);
    assert_eq!(env.max(one, two), m1);
    let i1 = env.imax(one, two);
    assert_ne!(i1, m1);
}

#[test]
fn equal_names_share_a_handle() {
    let mut env = ExportFile::new();
    let anon = env.anonymous();
    let a = env.mk_str(anon, "Nat".to_string());
    let b = env.mk_str(anon, "Nat".to_string());
    let c = env.mk_str(anon, "Int".to_string());
    assert_eq!(a, b);
    assert_ne!(a, c);
    let d = env.mk_str(a, "succ".to_string());
    let e = env.mk_str(c, "succ".to_string());
    assert_ne!(d, e);
    let n1 = env.num(a, 3);
    let n2 = env.num(a, 3);
    let n3 = env.num(a, 4);
    assert_eq!(n1, n2);
    assert_ne!(n1, n3);
    match env.read_name(d) {
        Name::Str { pfx, value, .. } => {
            assert_eq!(pfx, a);
            assert_eq!(value, "succ");
        }
        other => panic!("unexpected name {:?}", other),
    }
}

#[test]
fn equal_expressions_share_a_handle() {
    let mut env = ExportFile::new();
    let zero = env.zero();
    let prop = env.sort(zero);
    let v0 = env.var(0);
    let v1 = env.var(1);
    assert_eq!(env.var(0), v0);
    assert_ne!(v0, v1);
    let anon = env.anonymous();
    let lam = env.lambda(anon, prop, v0);
    let pi = env.pi(anon, prop, v0);
    assert_ne!(lam, pi);
    assert_eq!(env.lambda(anon, prop, v0), lam);
    let app = env.app(lam, prop);
    assert_eq!(env.app(lam, prop), app);
    assert_ne!(env.app(prop, lam), app);
    let n5 = env.nat_lit(5);
    assert_eq!(env.nat_lit(5), n5);
    assert_ne!(env.nat_lit(5 + (1u128 << 64)), n5);
    let s = env.str_lit("hi".to_string());
    assert_eq!(env.str_lit("hi".to_string()), s);
    assert_ne!(env.str_lit("ho".to_string()), s);
    let before = env.exprs.len();
    env.app(lam, prop);
    assert_eq!(env.exprs.len(), before);
}

#[test]
fn parameter_lists_are_interned_in_their_order() {
    let mut env = ExportFile::new();
    let anon = env.anonymous();
    let u = env.mk_str(anon, "u".to_string());
    let v = env.mk_str(anon, "v".to_string());
    let pu = env.param(u);
    let pv = env.param(v);
    let a = env.alloc_uparams(vec![pu, pv]);
    let b = env.alloc_uparams(vec![pv, pu]);
    let c = env.alloc_uparams(vec![pu, pv]);
    assert_ne!(a, b);
    assert_eq!(a, c);
    assert_eq!(env.read_uparams(b), vec![pv, pu]);
}

#[test]
fn reading_gives_what_was_interned() {
    let mut env = ExportFile::new();
    let zero = env.zero();
    let one = env.succ(zero);
    let s = env.sort(one);
    match env.read_expr(s) {
        Expr::Sort { universe, .. } => assert_eq!(universe, one),
        other => panic!("unexpected expression {:?}", other),
    }
    let v = env.var(3);
    let pair = env.read_expr_pair(s, v);
    assert!(matches!(pair.0, Expr::Sort { .. }));
    assert!(matches!(pair.1, Expr::Var { dbj_idx: 3, .. }));
    match env.read_universe(one) {
        Universe::Succ { pred, .. } => assert_eq!(pred, zero),
        other => panic!("unexpected level {:?}", other),
    }
}

#[test]
fn cached_digest_is_the_digest_of_the_fields() {
    let mut env = ExportFile::new();
    let zero = env.zero();
    let one = env.succ(zero);
    let node = env.read_universe(one);
    assert_eq!(node.get_hash(), digest_of_words(&vec![11, 0]));
    let two = env.succ(one);
    assert_ne!(env.read_universe(two).get_hash(), node.get_hash());
    let v = env.var(9);
    assert_eq!(env.read_expr(v).get_hash(), digest_of_words(&vec![20, 9]));
    let anon = env.anonymous();
    let n = env.mk_str(anon, "x".to_string());
    assert_eq!(env.read_name(n).get_hash(), digest_of(&vec![1, 0], "x"));
    assert_eq!(env.read_name(anon).get_hash(), 0);
    assert_eq!(env.read_universe(zero).get_hash(), 10);
}

#[test]
fn digest_depends_on_words_and_text() {
    let a = digest_of_words(&vec![1, 2, 3]);
    let b = digest_of_words(&vec![1, 2, 4]);
    let c = digest_of_words(&vec![1, 2, 3]);
    assert_eq!(a, c);
    assert_ne!(a, b);
    assert_ne!(a, 1);
    assert_ne!(digest_of(&vec![1], "a"), digest_of(&vec![1], "b"));
    assert_eq!(digest_of(&vec![1, 2, 3], ""), a);
}

#[test]
fn halves_of_a_wide_number() {
    assert_eq!(split_u128(5), (5, 0));
    assert_eq!(split_u128((7u128 << 64) + 9), (9, 7));
    assert_eq!(split_u128(u128::MAX), (u64::MAX, u64::MAX));
}

#[test]
fn declarations_are_found_by_name() {
    let mut env = ExportFile::new();
    let anon = env.anonymous();
    let foo = env.mk_str(anon, "Foo".to_string());
    let bar = env.mk_str(anon, "Bar".to_string());
    let zero = env.zero();
    let prop = env.sort(zero);
    let none = env.alloc_uparams(vec![]);
    assert!(env.read_declar(foo).is_none());
    env.add_declar(Declar::Axiom { name: foo, uparams: none, ty: prop });
    let d = env.read_declar(foo).unwrap();
    assert_eq!(d.name(), foo);
    assert_eq!(d.ty(), prop);
    assert_eq!(d.uparams(), none);
    assert_eq!(d.val(), None);
    assert!(env.read_declar(bar).is_none());
    let one = env.succ(zero);
    let ty1 = env.sort(one);
    env.add_declar(Declar::Definition { name: bar, uparams: none, ty: ty1, val: prop });
    assert_eq!(env.read_declar(bar).unwrap().val(), Some(prop));
    env.add_declar(Declar::Axiom { name: foo, uparams: none, ty: ty1 });
    assert_eq!(env.read_declar(foo).unwrap().ty(), ty1);
    let snapshot = env.declars_snapshot();
    assert_eq!(snapshot.len(), 2);
    assert_eq!(snapshot[0].name(), foo);
    assert_eq!(snapshot[1].name(), bar);
}

#[test]
fn value_of_a_declaration() {
    let n: Ptr<Name> = Ptr::from(0);
    let u = Ptr::from(0);
    let e: Ptr<Expr> = Ptr::from(1);
    let v: Ptr<Expr> = Ptr::from(2);
    assert_eq!(Declar::Axiom { name: n, uparams: u, ty: e }.val(), None);
    assert_eq!(Declar::Quot { name: n, uparams: u, ty: e }.val(), None);
    assert_eq!(Declar::Recursor { name: n, uparams: u, ty: e }.val(), None);
    assert_eq!(Declar::Opaq { name: n, uparams: u, ty: e, val: v }.val(), Some(v));
    assert_eq!(Declar::Theorem { name: n, uparams: u, ty: e, val: v }.val(), Some(v));
    assert_eq!(Declar::Definition { name: n, uparams: u, ty: e, val: v }.val(), Some(v));
    let ind = Declar::Inductive {
        name: n,
        uparams: u,
        ty: e,
        num_indices: 0,
        all_ctor_names: vec![n],
    };
    assert_eq!(ind.val(), None);
    let ctor = Declar::Constructor {
        name: n,
        uparams: u,
        ty: e,
        num_params: 0,
        num_fields: 0,
        parent: n,
    };
    assert_eq!(ctor.val(), None);
    assert_eq!(ctor.ty(), e);
}

#[test]
fn recursor_rules_are_interned() {
    let mut env = ExportFile::new();
    let anon = env.anonymous();
    let v = env.var(0);
    let a = env.rec_rule(anon, 2, v);
    let b = env.rec_rule(anon, 2, v);
    let c = env.rec_rule(anon, 3, v);
    assert_eq!(a, b);
    assert_ne!(a, c);
    assert_eq!(env.rec_rules.len(), 2);
}

#[test]
fn interning_a_second_time_appends_nothing() {
    let mut env = ExportFile::new();
    let anon = env.anonymous();
    let zero = env.zero();
    let h1 = env.succ(zero);
    let n = env.universes.len();
    assert_eq!(env.succ(zero), h1);
    assert_eq!(env.universes.len(), n);
    assert_ne!(h1, zero);
    let m = env.max(h1, zero);
    let i = env.imax(h1, zero);
    let x = env.mk_str(anon, "x".to_string());
    let k = env.num(x, 1);
    let p = env.param(x);
    let v = env.var(0);
    let s = env.sort(p);
    let l = env.lambda(x, s, v);
    let q = env.pi(k, s, v);
    let a = env.app(l, s);
    let t = env.mk_let(x, s, a, v);
    let j = env.proj(x, 0, a);
    let ups = env.alloc_uparams(vec![p, m]);
    let c = env.mk_const(x, ups);
    let nat = env.nat_lit(9);
    let text = env.str_lit("nine".to_string());
    let lens = (env.names.len(), env.universes.len(), env.uparams.len(), env.exprs.len());
    assert_eq!(lens, (3, 5, 1, 10));
    assert_eq!(env.max(h1, zero), m);
    assert_eq!(env.imax(h1, zero), i);
    assert_eq!(env.mk_str(anon, "x".to_string()), x);
    assert_eq!(env.num(x, 1), k);
    assert_eq!(env.param(x), p);
    assert_eq!(env.var(0), v);
    assert_eq!(env.sort(p), s);
    assert_eq!(env.lambda(x, s, v), l);
    assert_eq!(env.pi(k, s, v), q);
    assert_eq!(env.app(l, s), a);
    assert_eq!(env.mk_let(x, s, a, v), t);
    assert_eq!(env.proj(x, 0, a), j);
    assert_eq!(env.alloc_uparams(vec![p, m]), ups);
    assert_eq!(env.mk_const(x, ups), c);
    assert_eq!(env.nat_lit(9), nat);
    assert_eq!(env.str_lit("nine".to_string()), text);
    assert_eq!(
        (env.names.len(), env.universes.len(), env.uparams.len(), env.exprs.len()),
        lens
    );
    // Older handles still read the same values.
    assert_eq!(env.read_universe(zero), Universe::Zero);
    assert!(matches!(env.read_universe(h1), Universe::Succ { .. }));
}

#[test]
fn a_value_that_is_new_is_appended_at_the_end() {
    let mut env = ExportFile::new();
    let zero = env.zero();
    let one = env.succ(zero);
    assert_eq!(one.idx, 1);
    let two = env.succ(one);
    assert_eq!(two.idx, 2);
    assert_eq!(env.universes.len(), 3);
    let v = env.var(5);
    assert_eq!(v.idx, 0);
    let w = env.var(6);
    assert_eq!(w.idx, 1);
    assert_eq!(env.exprs.len(), 2);
    assert_eq!(env.names.len(), 1);
    assert_eq!(env.uparams.len(), 0);
}
