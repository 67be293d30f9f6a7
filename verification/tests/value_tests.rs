//! Value-model behaviour: coercions, operators, equality, indexing.

use iok_core::object::Object;
use iok_core::tree::{BinKind, CmpKind, Tree};

fn chars(s: &str) -> Vec<char> {
    s.chars().collect()
}

fn text(o: &Object) -> String {
    o.display_chars().iter().collect()
}

fn num(x: f64) -> Object {
    Object::Num(x.to_bits())
}

fn string(s: &str) -> Object {
    Object::Str(chars(s))
}

fn bin(op: BinKind, a: Object, b: Object) -> Object {
    let mut vm = fresh();
    let t = iok_core::tree::Tree::BinOp(
        Box::new(lit(a)),
        op,
        Box::new(lit(b)),
    );
    match vm.interpret(&t, 100) {
        Ok(v) => v,
        Err(_) => panic!("evaluation halted"),
    }
}

fn cmp(op: CmpKind, a: Object, b: Object) -> Object {
    let mut vm = fresh();
    let t = iok_core::tree::Tree::CmpOp(
        Box::new(lit(a)),
        op,
        Box::new(lit(b)),
    );
    match vm.interpret(&t, 100) {
        Ok(v) => v,
        Err(_) => panic!("evaluation halted"),
    }
}

fn lit(o: Object) -> iok_core::tree::Tree {
    match o {
        Object::Num(b) => Tree::Number(b),
        Object::Bool(b) => Tree::Bool(b),
        Object::Str(s) => Tree::Str(s),
        Object::List(items) => Tree::List(items.into_iter().map(lit).collect()),
        Object::Null => Tree::Empty,
        _ => Tree::Empty,
    }
}

fn fresh() -> iok_core::interpreter::Interpreter {
    iok_core::interpreter::Interpreter::new(chars("."), None, std::rc::Rc::new(Vec::new()))
}

fn expect_num(o: &Object, want: f64) {
    match o {
        Object::Num(b) => assert_eq!(f64::from_bits(*b), want),
        other => panic!("expected a number, got {}", text(other)),
    }
}

fn expect_str(o: &Object, want: &str) {
    match o {
        Object::Str(s) => assert_eq!(s.iter().collect::<String>(), want),
        other => panic!("expected a string, got {}", text(other)),
    }
}

#[test]
fn number_arithmetic_matches_doubles() {
    expect_num(&bin(BinKind::Plus, num(1.5), num(2.25)), 1.5 + 2.25);
    expect_num(&bin(BinKind::Minus, num(10.0), num(0.75)), 10.0 - 0.75);
    expect_num(&bin(BinKind::Multiply, num(3.5), num(-2.0)), 3.5 * -2.0);
    expect_num(&bin(BinKind::Divide, num(7.0), num(2.0)), 7.0 / 2.0);
    expect_num(&bin(BinKind::Plus, num(0.1), num(0.2)), 0.1 + 0.2);
}

#[test]
fn division_by_zero_is_invalid() {
    assert!(matches!(bin(BinKind::Divide, num(1.0), num(0.0)), Object::Invalid));
    assert!(matches!(bin(BinKind::Divide, num(1.0), num(-0.0)), Object::Invalid));
    assert!(matches!(bin(BinKind::Divide, string("x"), num(2.0)), Object::Invalid));
}

#[test]
fn string_minus_number_drops_trailing_characters() {
    expect_str(&bin(BinKind::Minus, string("hello"), num(2.0)), "hel");
    expect_str(&bin(BinKind::Minus, string("hello"), num(10.0)), "");
    expect_str(&bin(BinKind::Minus, string("hello"), num(0.0)), "hello");
}

#[test]
fn string_minus_string_removes_occurrences() {
    expect_str(&bin(BinKind::Minus, string("aXbXc"), string("X")), "abc");
    expect_str(&bin(BinKind::Minus, string("aaaa"), string("aa")), "");
    expect_str(&bin(BinKind::Minus, string("abc"), string("z")), "abc");
}

#[test]
fn string_repeat() {
    expect_str(&bin(BinKind::Multiply, string("ab"), num(3.0)), "ababab");
    expect_str(&bin(BinKind::Multiply, num(3.0), string("ab")), "ababab");
    expect_str(&bin(BinKind::Multiply, string("ab"), num(-1.0)), "");
}

#[test]
fn list_repeat_cycles() {
    let r = bin(
        BinKind::Multiply,
        Object::List(vec![num(1.0), num(2.0)]),
        num(2.0),
    );
    match r {
        Object::List(items) => {
            assert_eq!(items.len(), 4);
            expect_num(&items[0], 1.0);
            expect_num(&items[1], 2.0);
            expect_num(&items[2], 1.0);
            expect_num(&items[3], 2.0);
        },
        other => panic!("expected a list, got {}", text(&other)),
    }
}

#[test]
fn list_plus_concatenates_and_appends() {
    let r = bin(
        BinKind::Plus,
        Object::List(vec![num(1.0)]),
        Object::List(vec![num(2.0)]),
    );
    match r {
        Object::List(items) => assert_eq!(items.len(), 2),
        _ => panic!("expected a list"),
    }
    let r = bin(BinKind::Plus, Object::List(vec![num(1.0)]), num(9.0));
    match r {
        Object::List(items) => {
            assert_eq!(items.len(), 2);
            expect_num(&items[1], 9.0);
        },
        _ => panic!("expected a list"),
    }
}

#[test]
fn unsupported_pairs_fall_back() {
    assert!(matches!(bin(BinKind::Plus, Object::Null, num(1.0)), Object::Null));
    assert!(matches!(bin(BinKind::Minus, num(1.0), string("x")), Object::Null));
    assert!(matches!(bin(BinKind::BitAnd, string("x"), num(1.0)), Object::Invalid));
}

#[test]
fn bit_operators_truncate_to_32_bit_integers() {
    expect_num(&bin(BinKind::BitAnd, num(6.0), num(3.0)), 2.0);
    expect_num(&bin(BinKind::BitOr, num(4.0), num(1.0)), 5.0);
    expect_num(&bin(BinKind::Shl, num(1.0), num(3.0)), 8.0);
    expect_num(&bin(BinKind::Shr, num(-8.0), num(1.0)), -4.0);
    let beyond = 1099511627776.0;
    expect_num(&bin(BinKind::BitAnd, num(beyond), num(beyond)), 2147483647.0);
    expect_num(&bin(BinKind::BitOr, num(beyond), num(0.0)), 2147483647.0);
}

#[test]
fn comparisons_are_numeric_only() {
    assert!(matches!(cmp(CmpKind::Greater, num(2.0), num(1.0)), Object::Bool(true)));
    assert!(matches!(cmp(CmpKind::LessEqu, num(2.0), num(2.0)), Object::Bool(true)));
    assert!(matches!(cmp(CmpKind::Less, string("a"), string("b")), Object::Bool(false)));
}

#[test]
fn equality_is_structural_with_ieee_numbers() {
    assert!(matches!(
        cmp(
            CmpKind::EquEqu,
            Object::List(vec![num(1.0), string("x")]),
            Object::List(vec![num(1.0), string("x")]),
        ),
        Object::Bool(true)
    ));
    assert!(matches!(cmp(CmpKind::EquEqu, num(0.0), num(-0.0)), Object::Bool(true)));
    let nan = f64::NAN;
    assert!(matches!(
        cmp(CmpKind::EquEqu, num(nan), num(nan)),
        Object::Bool(false)
    ));
    assert!(matches!(cmp(CmpKind::NotEqu, num(1.0), string("1")), Object::Bool(true)));
}

#[test]
fn boolean_operators_are_eager_coercions() {
    assert!(matches!(cmp(CmpKind::And, num(1.0), string("x")), Object::Bool(true)));
    assert!(matches!(cmp(CmpKind::And, num(0.0), string("x")), Object::Bool(false)));
    assert!(matches!(cmp(CmpKind::Or, Object::Null, num(2.0)), Object::Bool(true)));
}

#[test]
fn negation_is_negated_truthiness() {
    assert!(matches!(cmp(CmpKind::Bang, Object::Null, Object::Null), Object::Bool(true)));
    assert!(matches!(cmp(CmpKind::Bang, num(0.0), Object::Null), Object::Bool(true)));
    assert!(matches!(cmp(CmpKind::Bang, num(2.0), Object::Null), Object::Bool(false)));
    assert!(matches!(cmp(CmpKind::Bang, string(""), Object::Null), Object::Bool(true)));
    assert!(matches!(cmp(CmpKind::Bang, string("x"), Object::Null), Object::Bool(false)));
    assert!(matches!(
        cmp(CmpKind::Bang, Object::List(vec![num(1.0)]), Object::Null),
        Object::Bool(true)
    ));
}

#[test]
fn string_to_number_coercion() {
    match string("2.5").to_number_obj() {
        Object::Num(b) => assert_eq!(f64::from_bits(b), 2.5),
        _ => panic!("expected a number"),
    }
    assert!(matches!(string("twelve").to_number_obj(), Object::Invalid));
    match Object::Bool(true).to_number_obj() {
        Object::Num(b) => assert_eq!(f64::from_bits(b), 1.0),
        _ => panic!("expected a number"),
    }
    match Object::Null.to_number_obj() {
        Object::Num(b) => assert_eq!(f64::from_bits(b), 0.0),
        _ => panic!("expected a number"),
    }
    assert!(matches!(
        Object::List(vec![num(1.0)]).to_number_obj(),
        Object::Invalid
    ));
    assert!(matches!(Object::Invalid.to_number_obj(), Object::Invalid));
}

#[test]
fn number_display_round_trips_small_integers() {
    assert_eq!(text(&num(5.0)), "5");
    assert_eq!(text(&num(42.0)), "42");
    assert_eq!(text(&string("hi")), "hi");
    assert_eq!(text(&Object::Null), "null");
    assert_eq!(text(&Object::Invalid), "invalid");
    assert_eq!(
        text(&Object::List(vec![num(1.0), num(2.0)])),
        "[1, 2]"
    );
}

#[test]
fn truthiness() {
    assert!(matches!(string("x").to_bool_obj(), Object::Bool(true)));
    assert!(matches!(string("").to_bool_obj(), Object::Bool(false)));
    assert!(matches!(num(0.0).to_bool_obj(), Object::Bool(false)));
    assert!(matches!(num(f64::NAN).to_bool_obj(), Object::Bool(true)));
    assert!(matches!(Object::Null.to_bool_obj(), Object::Bool(false)));
}

#[test]
fn indexing_strings_and_lists() {
    let l = Object::List(vec![num(7.0), num(8.0)]);
    expect_num(&l.get_list_index(1), 8.0);
    assert!(matches!(l.get_list_index(5), Object::Null));
    expect_str(&string("abc").get_list_index(2), "c");
    assert!(matches!(string("abc").get_list_index(9), Object::Null));
    assert_eq!(l.get_len(), 2);
    assert_eq!(string("abcd").get_len(), 4);
}

#[test]
fn index_assignment_pads_strings_and_ignores_out_of_range_lists() {
    let s = string("ab").set_list_index(4, string("Z"));
    expect_str(&s, "ab  Z");
    let s2 = string("aXc").set_list_index(1, string("YZ"));
    expect_str(&s2, "aYZc");
    let l = Object::List(vec![num(1.0)]).set_list_index(7, num(9.0));
    match l {
        Object::List(items) => assert_eq!(items.len(), 1),
        _ => panic!("expected a list"),
    }
}
