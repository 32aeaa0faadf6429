use typecheck_rust::declar::Declar;
use typecheck_rust::error::KernelError;
use typecheck_rust::expr::Expr;
use typecheck_rust::lexer::{digit, parse_number, split_lines, split_words, trim_end};
use typecheck_rust::name::Name;
use typecheck_rust::parser::{read_file, word_is, Field, ParseError, ParseErrorKind};
use typecheck_rust::universe::Universe;
use typecheck_rust::util::{ExportFile, Ptr};

fn bytes(s: &str) -> Vec<u8> {
    s.as_bytes().to_vec()
}

fn words(s: &str) -> Vec<Vec<u8>> {
    split_words(&bytes(s))
}

fn refused(text: &str) -> ParseError {
    match read_file(&bytes(text)) {
        Ok(_) => panic!("the text was read"),
        Err(e) => e,
    }
}

fn fed(lines: &[&str]) -> ExportFile {
    let mut env = ExportFile::new();
    for l in lines {
        assert_eq!(env.parse_line(&bytes(l)), Ok(()), "line {:?}", l);
    }
    env
}

#[test]
fn digits_in_a_radix() {
    assert_eq!(digit(b'0', 10), Some(0));
    assert_eq!(digit(b'9', 10), Some(9));
    assert_eq!(digit(b'a', 10), None);
    assert_eq!(digit(b'a', 16), Some(10));
    assert_eq!(digit(b'F', 16), Some(15));
    assert_eq!(digit(b'g', 16), None);
    assert_eq!(digit(b' ', 16), None);
    assert_eq!(digit(b'/', 10), None);
    assert_eq!(digit(b':', 10), None);
}

#[test]
fn numbers_are_spelled_in_digits() {
    let max = u32::MAX as u128;
    assert_eq!(parse_number(&bytes("0"), 10, max), Some(0));
    assert_eq!(parse_number(&bytes("42"), 10, max), Some(42));
    assert_eq!(parse_number(&bytes("007"), 10, max), Some(7));
    assert_eq!(parse_number(&bytes("+42"), 10, max), Some(42));
    assert_eq!(parse_number(&bytes("4294967295"), 10, max), Some(4294967295));
    assert_eq!(parse_number(&bytes("4294967296"), 10, max), None);
    assert_eq!(parse_number(&bytes(""), 10, max), None);
    assert_eq!(parse_number(&bytes("+"), 10, max), None);
    assert_eq!(parse_number(&bytes("-1"), 10, max), None);
    assert_eq!(parse_number(&bytes("4 2"), 10, max), None);
    assert_eq!(parse_number(&bytes("4x"), 10, max), None);
    assert_eq!(parse_number(&bytes("++4"), 10, max), None);
    assert_eq!(parse_number(&bytes("ff"), 16, 255), Some(255));
    assert_eq!(parse_number(&bytes("Fe"), 16, 255), Some(254));
    assert_eq!(parse_number(&bytes("100"), 16, 255), None);
    assert_eq!(
        parse_number(&bytes("340282366920938463463374607431768211455"), 10, u128::MAX),
        Some(u128::MAX)
    );
    assert_eq!(parse_number(&bytes("340282366920938463463374607431768211456"), 10, u128::MAX), None);
    assert_eq!(parse_number(&bytes("99999999999999999999999999999999999999999"), 10, u128::MAX), None);
}

#[test]
fn words_stand_between_blanks() {
    assert_eq!(words("1 #NS 0 Foo"), vec![bytes("1"), bytes("#NS"), bytes("0"), bytes("Foo")]);
    assert_eq!(words("  a   b "), vec![bytes("a"), bytes("b")]);
    assert_eq!(words(""), Vec::<Vec<u8>>::new());
    assert_eq!(words("   "), Vec::<Vec<u8>>::new());
    assert_eq!(words("a\tb"), vec![bytes("a\tb")]);
    assert_eq!(words("one"), vec![bytes("one")]);
}

#[test]
fn lines_end_at_line_feeds() {
    assert_eq!(split_lines(&bytes("a\nb\n")), vec![bytes("a"), bytes("b")]);
    assert_eq!(split_lines(&bytes("a\nb")), vec![bytes("a"), bytes("b")]);
    assert_eq!(split_lines(&bytes("a\n\nb")), vec![bytes("a"), bytes(""), bytes("b")]);
    assert_eq!(split_lines(&bytes("")), Vec::<Vec<u8>>::new());
    assert_eq!(split_lines(&bytes("\n")), vec![bytes("")]);
    assert_eq!(split_lines(&bytes("a\r\n")), vec![bytes("a\r")]);
}

#[test]
fn white_space_at_the_end_is_dropped() {
    assert_eq!(trim_end(&bytes("a b \t\r\n")), bytes("a b"));
    assert_eq!(trim_end(&bytes("  a")), bytes("  a"));
    assert_eq!(trim_end(&bytes("   ")), bytes(""));
    assert_eq!(trim_end(&bytes("")), bytes(""));
}

#[test]
fn a_word_is_compared_with_a_keyword() {
    assert!(word_is(&bytes("#AX"), "#AX"));
    assert!(!word_is(&bytes("#AX"), "#AY"));
    assert!(!word_is(&bytes("#AXE"), "#AX"));
    assert!(!word_is(&bytes(""), "#AX"));
}

#[test]
fn fields_are_read_by_their_kind() {
    let env = fed(&["1 #NS 0 Foo", "0 #ES 0"]);
    assert_eq!(env.read_field(&bytes("1"), Field::Name), Ok(1));
    assert_eq!(env.read_field(&bytes("2"), Field::Name), Err(ParseErrorKind::BadHandle));
    assert_eq!(env.read_field(&bytes("x"), Field::Name), Err(ParseErrorKind::BadNumber));
    assert_eq!(env.read_field(&bytes("0"), Field::Universe), Ok(0));
    assert_eq!(env.read_field(&bytes("1"), Field::Universe), Err(ParseErrorKind::BadHandle));
    assert_eq!(env.read_field(&bytes("0"), Field::Expr), Ok(0));
    assert_eq!(env.read_field(&bytes("1"), Field::Expr), Err(ParseErrorKind::BadHandle));
    assert_eq!(env.read_field(&bytes("0"), Field::Rule), Err(ParseErrorKind::BadHandle));
    assert_eq!(env.read_field(&bytes("4294967295"), Field::U32), Ok(4294967295));
    assert_eq!(env.read_field(&bytes("4294967296"), Field::U32), Err(ParseErrorKind::BadNumber));
    assert_eq!(env.read_field(&bytes("4294967296"), Field::U64), Ok(4294967296));
    assert_eq!(
        env.read_field(&bytes("18446744073709551616"), Field::U64),
        Err(ParseErrorKind::BadNumber)
    );
    assert_eq!(env.read_field(&bytes("18446744073709551616"), Field::U128), Ok(1u128 << 64));
    assert_eq!(env.read_field(&bytes("7f"), Field::Hex), Ok(127));
    assert_eq!(env.read_field(&bytes("1"), Field::Flag), Ok(1));
    assert_eq!(env.read_field(&bytes("0"), Field::Flag), Ok(0));
    assert_eq!(env.read_field(&bytes("2"), Field::Flag), Err(ParseErrorKind::BadFlag));
    assert_eq!(env.read_field(&bytes("#BD"), Field::Info), Ok(0));
    assert_eq!(env.read_field(&bytes("#BS"), Field::Info), Ok(0));
    assert_eq!(env.read_field(&bytes("#BX"), Field::Info), Err(ParseErrorKind::BadFlag));
    let ws = words("a 1 0 9");
    assert_eq!(env.read_fields(&ws, 1, &vec![Field::Name, Field::Expr]), Ok(vec![1, 0]));
    assert_eq!(
        env.read_fields(&ws, 1, &vec![Field::Name, Field::Expr, Field::Expr]),
        Err(ParseErrorKind::BadHandle)
    );
    assert_eq!(
        env.read_fields(&ws, 3, &vec![Field::U32, Field::U32]),
        Err(ParseErrorKind::MissingToken)
    );
    assert_eq!(env.read_rest(&ws, 1, Field::U32), Ok(vec![1, 0, 9]));
    assert_eq!(env.read_rest(&ws, 4, Field::U32), Ok(vec![]));
    assert_eq!(env.read_run(&ws, 1, 2, Field::U32), Ok(vec![1, 0]));
    assert_eq!(env.read_run(&ws, 1, 0, Field::U32), Ok(vec![]));
    assert_eq!(env.read_run(&ws, 1, 9, Field::U32), Err(ParseErrorKind::MissingToken));
    assert_eq!(env.read_run(&ws, 0, 9, Field::U32), Err(ParseErrorKind::BadNumber));
}

#[test]
fn lines_intern_names_and_levels() {
    let mut env = ExportFile::new();
    assert_eq!(env.parse_ns(1, &words("1 #NS 0 Foo")), Ok(Ptr::from(1)));
    assert_eq!(env.parse_ni(2, &words("2 #NI 1 7")), Ok(Ptr::from(2)));
    match env.read_name(Ptr::from(1)) {
        Name::Str { pfx, value, .. } => {
            assert_eq!(pfx.idx, 0);
            assert_eq!(value, "Foo");
        }
        other => panic!("unexpected name {:?}", other),
    }
    match env.read_name(Ptr::from(2)) {
        Name::Num { pfx, value, .. } => {
            assert_eq!(pfx.idx, 1);
            assert_eq!(value, 7);
        }
        other => panic!("unexpected name {:?}", other),
    }
    assert_eq!(env.parse_us(1, &words("1 #US 0")), Ok(Ptr::from(1)));
    assert_eq!(env.parse_up(2, &words("2 #UP 1")), Ok(Ptr::from(2)));
    assert_eq!(env.parse_um(3, &words("3 #UM 1 2")), Ok(Ptr::from(3)));
    assert_eq!(env.parse_uim(4, &words("4 #UIM 2 1")), Ok(Ptr::from(4)));
    let zero = env.zero();
    let one = env.succ(zero);
    assert_eq!(one.idx, 1);
    let p = env.param(Ptr::from(1));
    assert_eq!(p.idx, 2);
    assert_eq!(env.max(one, p).idx, 3);
    assert_eq!(env.imax(p, one).idx, 4);
    assert!(matches!(env.read_universe(Ptr::from(3)), Universe::Max { .. }));
    assert_eq!(env.parse_us(9, &words("9 #US 0")), Err(ParseErrorKind::WrongIndex));
    assert_eq!(env.parse_us(5, &words("5 #US 7")), Err(ParseErrorKind::BadHandle));
    assert_eq!(env.parse_us(5, &words("5 #US")), Err(ParseErrorKind::MissingToken));
    assert_eq!(env.parse_ns(3, &words("3 #NS 0")), Err(ParseErrorKind::MissingToken));
    assert_eq!(env.universes.len(), 5);
}

#[test]
fn lines_intern_expressions() {
    let mut env = fed(&["1 #NS 0 x", "1 #US 0"]);
    assert_eq!(env.parse_ev(0, &words("0 #EV 3")), Ok(Ptr::from(0)));
    assert_eq!(env.parse_es(1, &words("1 #ES 1")), Ok(Ptr::from(1)));
    assert_eq!(env.parse_ec(2, &words("2 #EC 1 0 1")), Ok(Ptr::from(2)));
    assert_eq!(env.parse_ea(3, &words("3 #EA 0 1")), Ok(Ptr::from(3)));
    assert_eq!(env.parse_el(4, &words("4 #EL #BD 1 1 0")), Ok(Ptr::from(4)));
    assert_eq!(env.parse_ep(5, &words("5 #EP #BI 1 1 0")), Ok(Ptr::from(5)));
    assert_eq!(env.parse_ez(6, &words("6 #EZ 1 1 2 0")), Ok(Ptr::from(6)));
    assert_eq!(env.parse_ej(7, &words("7 #EJ 1 4 2")), Ok(Ptr::from(7)));
    assert_eq!(env.parse_eln(8, &words("8 #ELN 340282366920938463463374607431768211455")), Ok(Ptr::from(8)));
    assert_eq!(env.parse_els(9, &words("9 #ELS 68 69 e9")), Ok(Ptr::from(9)));
    let v = env.var(3);
    assert_eq!(v.idx, 0);
    let one = env.succ(env.zero());
    let s = env.sort(one);
    assert_eq!(s.idx, 1);
    let list = env.alloc_uparams(vec![env.zero(), one]);
    assert_eq!(env.mk_const(Ptr::from(1), list).idx, 2);
    assert_eq!(env.app(v, s).idx, 3);
    assert_eq!(env.lambda(Ptr::from(1), s, v).idx, 4);
    assert_eq!(env.pi(Ptr::from(1), s, v).idx, 5);
    assert_eq!(env.mk_let(Ptr::from(1), s, Ptr::from(2), v).idx, 6);
    assert_eq!(env.proj(Ptr::from(1), 4, Ptr::from(2)).idx, 7);
    assert_eq!(env.nat_lit(u128::MAX).idx, 8);
    assert_eq!(env.str_lit("hi\u{e9}".to_string()).idx, 9);
    match env.read_expr(Ptr::from(9)) {
        Expr::StrLit { val, .. } => assert_eq!(val, "hi\u{e9}"),
        other => panic!("unexpected expression {:?}", other),
    }
    assert_eq!(env.parse_hex_string(&words("a b 41 42"), 2), Ok("AB".to_string()));
    assert_eq!(env.parse_hex_string(&words("a b"), 2), Ok(String::new()));
    assert_eq!(env.parse_hex_string(&words("a b 100"), 2), Err(ParseErrorKind::BadNumber));
    assert_eq!(env.parse_el(10, &words("10 #EL #XX 1 1 0")), Err(ParseErrorKind::BadFlag));
    assert_eq!(env.parse_ea(10, &words("10 #EA 10 10")), Err(ParseErrorKind::BadHandle));
    assert_eq!(env.exprs.len(), 10);
}

#[test]
fn lines_declare() {
    let mut env = fed(&[
        "1 #NS 0 T",
        "2 #NS 0 mk",
        "3 #NS 0 u",
        "4 #NS 0 d",
        "5 #NS 0 rec",
        "1 #UP 3",
        "2 #US 0",
        "0 #ES 2",
        "1 #EC 1",
        "#IND 1 0 0 0 0 0 0 1 1 1 2 3",
        "#CTOR 2 1 1 0 0 0 3",
        "#DEF 4 0 1 R 5 3",
        "0 #RR 2 0 1",
        "#REC 5 0 1 1 0 0 0 0 1 0 1",
    ]);
    match env.read_declar(Ptr::from(1)).unwrap() {
        Declar::Inductive { name, ty, num_indices, all_ctor_names, uparams } => {
            assert_eq!(name.idx, 1);
            assert_eq!(ty.idx, 0);
            assert_eq!(num_indices, 0);
            assert_eq!(all_ctor_names, vec![Ptr::from(2)]);
            assert_eq!(env.read_uparams(uparams), vec![Ptr::from(1)]);
        }
        other => panic!("unexpected declaration {:?}", other),
    }
    match env.read_declar(Ptr::from(2)).unwrap() {
        Declar::Constructor { parent, num_params, num_fields, ty, .. } => {
            assert_eq!(parent.idx, 1);
            assert_eq!(num_params, 0);
            assert_eq!(num_fields, 0);
            assert_eq!(ty.idx, 1);
        }
        other => panic!("unexpected declaration {:?}", other),
    }
    match env.read_declar(Ptr::from(4)).unwrap() {
        Declar::Definition { ty, val, .. } => {
            assert_eq!(ty.idx, 0);
            assert_eq!(val.idx, 1);
        }
        other => panic!("unexpected declaration {:?}", other),
    }
    assert!(matches!(env.read_declar(Ptr::from(5)).unwrap(), Declar::Recursor { .. }));
    assert!(env.is_inductive(Ptr::from(1)));
    assert!(!env.is_inductive(Ptr::from(2)));
    assert!(env.is_constructor(Ptr::from(2)));
    assert!(!env.is_constructor(Ptr::from(3)));
    assert_eq!(env.rec_rules.len(), 1);
    assert_eq!(env.parse_axiom(&words("#AX 3 0")), Ok(()));
    assert_eq!(env.parse_quot(&words("#QUOT 3 0 3")), Ok(()));
    assert!(matches!(env.read_declar(Ptr::from(3)).unwrap(), Declar::Quot { .. }));
    assert_eq!(env.parse_opaq(&words("#OPAQ 3 0 1")), Ok(()));
    assert_eq!(env.parse_theorem(&words("#THM 3 0 1")), Ok(()));
    assert!(matches!(env.read_declar(Ptr::from(3)).unwrap(), Declar::Theorem { .. }));
    assert_eq!(env.declars.len(), 5);
    assert_eq!(env.parse_hint(&words("a O b"), 1), Ok(2));
    assert_eq!(env.parse_hint(&words("a A b"), 1), Ok(2));
    assert_eq!(env.parse_hint(&words("a R 7 b"), 1), Ok(3));
    assert_eq!(env.parse_hint(&words("a R x"), 1), Err(ParseErrorKind::BadNumber));
    assert_eq!(env.parse_hint(&words("a R"), 1), Err(ParseErrorKind::MissingToken));
    assert_eq!(env.parse_hint(&words("a X"), 1), Err(ParseErrorKind::BadFlag));
    assert_eq!(env.parse_hint(&words("a"), 1), Err(ParseErrorKind::MissingToken));
}

#[test]
fn level_parameters_of_a_declaration() {
    let mut env = fed(&["1 #NS 0 u", "2 #NS 0 v", "3 #NS 0 w", "1 #UP 1", "2 #UP 2"]);
    let p = env.parse_uparams(&words("x 1 2"), 1).unwrap();
    assert_eq!(env.read_uparams(p), vec![Ptr::from(1), Ptr::from(2)]);
    let q = env.parse_uparams(&words("x 2 1"), 1).unwrap();
    assert_ne!(p, q);
    let none = env.parse_uparams(&words("x"), 1).unwrap();
    assert_eq!(env.read_uparams(none), vec![]);
    assert_eq!(env.parse_uparams(&words("x 1 1"), 1), Err(ParseErrorKind::DuplicateParam));
    assert_eq!(env.parse_uparams(&words("x 1 3"), 1), Err(ParseErrorKind::UnknownParam));
    assert_eq!(env.parse_uparams(&words("x 1 9"), 1), Err(ParseErrorKind::BadHandle));
    assert_eq!(env.parse_uparams(&words("x y"), 1), Err(ParseErrorKind::BadNumber));
}

#[test]
fn a_file_with_one_postulate_is_read_and_checked() {
    let text = "2.0.0\n1 #NS 0 Foo\n0 #ES 0\n#AX 1 0\n";
    let mut env = read_file(&bytes(text)).unwrap();
    assert_eq!(env.names.len(), 2);
    assert_eq!(env.exprs.len(), 1);
    assert_eq!(env.declars.len(), 1);
    assert_eq!(env.check_all_declars(100), Ok(vec![]));
    assert_eq!(env.check_all_declars(0), Err(KernelError::OutOfFuel));
}

#[test]
fn a_file_without_a_line_feed_at_its_end() {
    let text = "2.0.0  \r\n1 #NS 0 Foo \r\n0 #ES 0";
    let env = read_file(&bytes(text)).unwrap();
    assert_eq!(env.names.len(), 2);
    assert_eq!(env.exprs.len(), 1);
}

#[test]
fn a_file_of_another_version_is_refused() {
    assert_eq!(refused("2.0.1\n"), ParseError { line: 1, kind: ParseErrorKind::BadVersion });
    assert_eq!(refused(""), ParseError { line: 1, kind: ParseErrorKind::BadVersion });
    assert_eq!(refused("\n2.0.0\n"), ParseError { line: 1, kind: ParseErrorKind::BadVersion });
    assert_eq!(refused(" 2.0.0\n"), ParseError { line: 1, kind: ParseErrorKind::BadVersion });
    assert!(read_file(&bytes("2.0.0")).is_ok());
}

#[test]
fn a_handle_past_the_end_of_its_store_is_refused() {
    let e = refused("2.0.0\n0 #EA 5 5\n");
    assert_eq!(e, ParseError { line: 2, kind: ParseErrorKind::BadHandle });
    let e = refused("2.0.0\n0 #EV 0\n1 #EA 0 1\n");
    assert_eq!(e, ParseError { line: 3, kind: ParseErrorKind::BadHandle });
}

#[test]
fn malformed_lines_are_refused() {
    let at = |line: usize, kind: ParseErrorKind| ParseError { line, kind };
    assert_eq!(refused("2.0.0\n\n"), at(2, ParseErrorKind::EmptyLine));
    assert_eq!(refused("2.0.0\n1 #NS 0 a\n   \n"), at(3, ParseErrorKind::EmptyLine));
    assert_eq!(refused("2.0.0\n0 #XX 1\n"), at(2, ParseErrorKind::UnknownLine));
    assert_eq!(refused("2.0.0\n#AXE 1\n"), at(2, ParseErrorKind::BadNumber));
    assert_eq!(refused("2.0.0\n0\n"), at(2, ParseErrorKind::MissingToken));
    assert_eq!(refused("2.0.0\n0 #EV\n"), at(2, ParseErrorKind::MissingToken));
    assert_eq!(refused("2.0.0\n0 #EV x\n"), at(2, ParseErrorKind::BadNumber));
    assert_eq!(refused("2.0.0\n0 #EV -1\n"), at(2, ParseErrorKind::BadNumber));
    assert_eq!(refused("2.0.0\n0 #EV 0\n1 #EL #B 0 0 0\n"), at(3, ParseErrorKind::BadFlag));
    assert_eq!(refused("2.0.0\n1 #EV 0\n"), at(2, ParseErrorKind::WrongIndex));
    assert_eq!(refused("2.0.0\n0 #EV 0 0\n"), at(2, ParseErrorKind::TrailingTokens));
    assert_eq!(refused("2.0.0\n1 #NS 0 a b\n"), at(2, ParseErrorKind::TrailingTokens));
    assert!(read_file(&bytes("2.0.0\n1 #NS 0 \u{e9}\n")).is_ok());
    let mut text = bytes("2.0.0\n1 #NS 0 ");
    text.push(0xff);
    text.push(b'\n');
    assert_eq!(read_file(&text).err(), Some(at(2, ParseErrorKind::BadText)));
}

#[test]
fn declarations_of_what_is_not_there_are_refused() {
    let at = |line: usize, kind: ParseErrorKind| ParseError { line, kind };
    let head = "2.0.0\n1 #NS 0 a\n2 #NS 0 b\n1 #UP 1\n0 #ES 0\n";
    let with = |l: &str| format!("{}{}\n", head, l);
    assert_eq!(refused(&with("#AX 1 0 1 1")), at(6, ParseErrorKind::DuplicateParam));
    assert_eq!(refused(&with("#AX 1 0 2")), at(6, ParseErrorKind::UnknownParam));
    assert_eq!(refused(&with("#AX 1 0 7")), at(6, ParseErrorKind::BadHandle));
    assert_eq!(refused(&with("#AX 1 1")), at(6, ParseErrorKind::BadHandle));
    assert_eq!(refused(&with("#AX 1")), at(6, ParseErrorKind::MissingToken));
    assert_eq!(refused(&with("#CTOR 1 0 2 0 0 0")), at(6, ParseErrorKind::UnknownInductive));
    assert_eq!(refused(&with("0 #RR 1 0 0")), at(6, ParseErrorKind::UnknownConstructor));
    assert_eq!(refused(&with("#REC 1 0 1 2 0 0 0 0 0 0")), at(6, ParseErrorKind::UnknownInductive));
    assert_eq!(refused(&with("#DEF 1 0 0 Q")), at(6, ParseErrorKind::BadFlag));
    assert_eq!(refused(&with("#IND 1 0 0 0 0 0 0 3 1")), at(6, ParseErrorKind::MissingToken));
    assert_eq!(refused(&with("#IND 1 0 2 0 0 0 0 0 0")), at(6, ParseErrorKind::BadFlag));
    assert!(read_file(&bytes(&with("#AX 1 0 1"))).is_ok());
    assert!(read_file(&bytes(&with("#IND 1 0 0 0 0 0 0 0 0"))).is_ok());
}

#[test]
fn declarations_keep_their_kind_and_their_order() {
    let env = fed(&[
        "1 #NS 0 a",
        "2 #NS 0 b",
        "3 #NS 0 c",
        "0 #ES 0",
        "#QUOT 2 0",
        "#AX 1 0",
        "#THM 3 0 0",
        "#DEF 2 0 0 A",
    ]);
    let all = env.declars_snapshot();
    assert_eq!(all.len(), 3);
    // A name that is declared again keeps its place.
    assert!(matches!(all[0], Declar::Definition { .. }));
    assert_eq!(all[0].name().idx, 2);
    assert!(matches!(all[1], Declar::Axiom { .. }));
    assert_eq!(all[1].name().idx, 1);
    assert!(matches!(all[2], Declar::Theorem { .. }));
    assert_eq!(all[2].name().idx, 3);
    let keys: Vec<usize> = env.declars.keys().map(|k| k.idx).collect();
    assert_eq!(keys, vec![2, 1, 3]);
}
