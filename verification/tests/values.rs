use ron_reboot::ast;
use ron_reboot::utf8_parser::ast_from_str;
use ron_reboot::utf8_parser::input::{Input, Offset};
use ron_reboot::utf8_parser::locate::get_char_at_offset;
use ron_reboot::utf8_parser::primitive::number::decimal;
use ron_reboot::utf8_parser::pt::{
    Decimal, Expr, Ident, Integer, Sign, SignedInteger, Spanned, Tagged, Tuple, UnsignedInteger, Untagged,
};
use ron_reboot::value::{Number, Value};
use ron_reboot::Location;

fn value(s: &str) -> Value {
    Value::from_ast(&ast_from_str(s).unwrap())
}

#[test]
fn values_of_documents() {
    assert_eq!(value("None"), Value::Option(None));
    assert_eq!(
        value("Some(())"),
        Value::Option(Some(Box::new(Value::Tuple(None, vec![]))))
    );
    assert_eq!(value("true"), Value::Bool(true));
    assert_eq!(value("-50"), Value::Number(Number::Integer(-50)));
    assert_eq!(value("626"), Value::Number(Number::Integer(626)));
    assert_eq!(
        value("-9223372036854775808"),
        Value::Number(Number::Integer(i64::MIN))
    );
    assert_eq!(
        value("18446744073709551615"),
        Value::Number(Number::Integer(-1))
    );
    assert_eq!(value("\"a\\n\""), Value::String("a\n".to_owned()));
    assert_eq!(value("\"plain\""), Value::String("plain".to_owned()));
    assert_eq!(value("r#\"raw\"#"), Value::String("raw".to_owned()));
    assert_eq!(value("Unit"), Value::Unit(Some("Unit".to_owned())));
    assert_eq!(
        value("[1, 2]"),
        Value::List(vec![
            Value::Number(Number::Integer(1)),
            Value::Number(Number::Integer(2))
        ])
    );
    assert_eq!(
        value("Room ( width: 20, name: \"The Room\" )"),
        Value::Struct(
            Some("Room".to_owned()),
            vec![
                ("width".to_owned(), Value::Number(Number::Integer(20))),
                ("name".to_owned(), Value::String("The Room".to_owned())),
            ]
        )
    );
    assert_eq!(
        value("(width: 20)"),
        Value::Struct(
            None,
            vec![("width".to_owned(), Value::Number(Number::Integer(20)))]
        )
    );
    assert_eq!(
        value("P(1, true)"),
        Value::Tuple(
            Some("P".to_owned()),
            vec![Value::Number(Number::Integer(1)), Value::Bool(true)]
        )
    );
    assert_eq!(
        value("{ \"Enemy1\": 3, [1]: () }"),
        Value::RMap(vec![
            (
                Value::String("Enemy1".to_owned()),
                Value::Number(Number::Integer(3))
            ),
            (
                Value::List(vec![Value::Number(Number::Integer(1))]),
                Value::Tuple(None, vec![])
            ),
        ])
    );
    match value("1.5e3") {
        Value::Number(n) => {
            assert_eq!(n.as_i64(), None);
            let d = n.as_decimal().unwrap();
            assert_eq!((d.whole, d.fractional, d.fractional_digits), (Some(1), 5, 1));
            assert_eq!(d.exponent, Some((None, 3)));
        }
        other => panic!("{:?}", other),
    }
    assert_eq!(Number::Integer(3).as_i64(), Some(3));
    assert_eq!(Number::Integer(3).as_decimal(), None);
}

#[test]
fn integers_in_64_bits() {
    assert_eq!(Integer::new_test(None, 7).into_i64(), 7);
    assert_eq!(Integer::new_test(Some(Sign::Negative), 7).into_i64(), -7);
    assert_eq!(Integer::new_test(Some(Sign::Positive), 7).into_i64(), 7);
    assert_eq!(
        Integer::new_test(Some(Sign::Negative), 1 << 63).into_i64(),
        i64::MIN
    );
    assert_eq!(Integer::new_test(None, u64::MAX).into_i64(), -1);
    assert_eq!(UnsignedInteger::new(9).into_u64(), 9);
    assert_eq!(Sign::Positive.into_i8(), 1);
    assert_eq!(Sign::Negative.into_i8(), -1);
    assert_eq!(
        SignedInteger::new_test(Sign::Negative, 3).to_expr(),
        Expr::Integer(Integer::new_test(Some(Sign::Negative), 3))
    );
    assert_eq!(Ident::from_str("name").into_string(), "name".to_owned());
}

#[test]
fn optional_values() {
    let some = Tagged {
        ident: Spanned::new_test(Ident("Some")),
        untagged: Spanned::new_test(Untagged::Tuple(Tuple::new_test(vec![Expr::Bool(true)]))),
    };
    assert!(some.is_optional());
    assert_eq!(some.into_optional().unwrap().value, Expr::Bool(true));
    let none = Tagged {
        ident: Spanned::new_test(Ident("None")),
        untagged: Spanned::new_test(Untagged::Unit),
    };
    assert!(none.is_optional());
    assert!(none.into_optional().is_none());
    let two = Tagged {
        ident: Spanned::new_test(Ident("Some")),
        untagged: Spanned::new_test(Untagged::Tuple(Tuple::new_test(vec![
            Expr::Bool(true),
            Expr::Bool(false),
        ]))),
    };
    assert!(!two.is_optional());
    let other = Tagged {
        ident: Spanned::new_test(Ident("Nothing")),
        untagged: Spanned::new_test(Untagged::Unit),
    };
    assert!(!other.is_optional());
    assert_eq!(
        ast_from_str("Some(1, 2)").unwrap().expr.value,
        ast::Expr::Tagged(ast::Tagged {
            ident: ast::Spanned::new_test(Ident("Some")),
            untagged: ast::Spanned::new_test(ast::Untagged::Tuple(ast::Tuple {
                elements: vec![
                    ast::Spanned::new_test(ast::Expr::Integer(Integer::new_test(None, 1))),
                    ast::Spanned::new_test(ast::Expr::Integer(Integer::new_test(None, 2))),
                ]
            })),
        })
    );
}

#[test]
fn taking_leaves_a_unit() {
    let mut e = Expr::Bool(true);
    assert_eq!(e.take(), Expr::Bool(true));
    assert_eq!(e, Expr::Unit);
    let mut a = ast::Expr::Bool(false);
    assert_eq!(a.take(), ast::Expr::Bool(false));
    assert_eq!(a, ast::Expr::Unit);
    let mut u = ast::Untagged::Tuple(ast::Tuple { elements: vec![] });
    assert_eq!(u.take(), ast::Untagged::Tuple(ast::Tuple { elements: vec![] }));
    assert_eq!(u, ast::Untagged::Unit);
}

#[test]
fn cursors() {
    let input = Input::new("aä\nb");
    assert!(!input.is_empty());
    assert_eq!(input.len(), 5);
    assert_eq!(input.offset(), Offset::Absolute(0));
    assert_eq!(input.fragment(), "aä\nb");
    assert_eq!(input.first_char(), Some('a'));
    let (rest, read) = input.take_split(3);
    assert_eq!(read.fragment(), "aä");
    assert_eq!(rest.fragment(), "\nb");
    assert_eq!(rest.offset(), Offset::Absolute(3));
    assert_eq!(input.offset_to(&rest), 3);
    assert_eq!(input.slice(1, 3).fragment(), "ä");
    assert_eq!(input.skip(4).fragment(), "b");
    assert_eq!(input.skip(5).first_char(), None);
    assert!(input.skip(5).is_empty());
    assert_eq!(input.skip(3).location(), Location { line: 1, column: 3 });
    assert_eq!(input.skip(4).location(), Location { line: 2, column: 1 });
    assert_eq!(input.skip(5).location(), Location { line: 2, column: 2 });
    assert!(input.is_well_formed());
    assert!(!Input { offset: 2, input: "aä", end: 3 }.is_well_formed());
    assert!(!Input { offset: 0, input: "a", end: 3 }.is_well_formed());
    assert_eq!(Offset::Absolute(3).add(4), Offset::Absolute(7));
    assert!(Input::new_mocked().is_empty());
    assert_eq!(input.skip(3).to_string(), "1:3 (`\n`)");
    assert_eq!(input.skip(1).to_string(), "1:2 (`eof`)");
    assert_eq!(input.skip(5).to_string(), "2:2 (`eof`)");
}

#[test]
fn characters_at_byte_offsets() {
    assert_eq!(get_char_at_offset("aäb", 1), (1, 1, 'ä'));
    assert_eq!(get_char_at_offset("aäb", 2), (3, 2, 'b'));
    assert_eq!(get_char_at_offset("aäb", 3), (3, 2, 'b'));
    assert_eq!(get_char_at_offset("aäb", 4), (4, 3, '\u{FFFD}'));
    assert_eq!(get_char_at_offset("", 0), (0, 0, '\u{FFFD}'));
}

#[test]
fn comments_between_all_tokens() {
    let doc = ast_from_str(
        "// a document\n#![enable(implicit_some)] /* then */ [ /* one */ 1 , // two\n 2 ] // end",
    )
    .unwrap();
    assert_eq!(
        doc.expr.value,
        ast::Expr::List(ast::List {
            elements: vec![
                ast::Spanned::new_test(ast::Expr::Integer(Integer::new_test(None, 1))),
                ast::Spanned::new_test(ast::Expr::Integer(Integer::new_test(None, 2))),
            ]
        })
    );
    assert!(ast_from_str("[1, /* never closed 2]").is_err());
}

fn parts(d: Decimal) -> (i8, u64, i32, u64, i32) {
    (
        d.sign_number(),
        d.whole_number(),
        d.signed_exponent(),
        d.fractional,
        d.fraction_exponent(),
    )
}

fn double_of(d: Decimal) -> f64 {
    let (sign, whole, exp, frac, frac_exp) = parts(d);
    let mut f: f64 = sign as f64 * whole as f64;
    f *= (10.0f64).powi(exp);
    f += frac as f64 * (10.0f64).powi(frac_exp) * sign as f64;
    f
}

#[test]
fn the_parts_of_a_decimal_as_numbers() {
    let d = decimal(Input::new("-1.05e-3")).unwrap().parsed;
    assert_eq!(parts(d), (-1, 1, -3, 5, -5));
    let d = decimal(Input::new("+12.5")).unwrap().parsed;
    assert_eq!(parts(d), (1, 12, 0, 5, -1));
    let d = decimal(Input::new(".25E+2")).unwrap().parsed;
    assert_eq!(parts(d), (1, 0, 2, 25, 0));
    let d = decimal(Input::new("7.0e2")).unwrap().parsed;
    assert_eq!(parts(d), (1, 7, 2, 0, 1));
    assert!(decimal(Input::new("7e2")).is_err());
    let d = Decimal::new(Some(Sign::Negative), None, 1, u16::MAX, Some((Some(Sign::Negative), u16::MAX)));
    assert_eq!(parts(d), (-1, 0, -65535, 1, -131070));
    let d = Decimal::new(None, Some(u64::MAX), 0, 0, Some((None, u16::MAX)));
    assert_eq!(parts(d), (1, u64::MAX, 65535, 0, 65535));
}

#[test]
fn a_decimal_stands_for_the_double_that_is_written() {
    for text in [
        "0.5", "-0.5", "+0.5", "1.0", "12.5", "-1.05e-3", "3.25e2", "7.0e2", ".25E+2", "0.001",
        "123456.789", "-2.5e-10", "1.5e300", "0.0",
    ] {
        let d = decimal(Input::new(text)).unwrap().parsed;
        let written: f64 = text.parse().unwrap();
        let got = double_of(d);
        assert!(
            (got - written).abs() <= written.abs() * 4.0 * f64::EPSILON,
            "{}: {} is not {}",
            text,
            got,
            written
        );
    }
}
