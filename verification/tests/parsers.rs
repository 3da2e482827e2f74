use ron_reboot::utf8_parser::basic::{block_comment, eol_comment, repeat_char, tag};
use ron_reboot::utf8_parser::combinators::{
    comma_list0, comma_list0_lookahead, comma_list1_lookahead, lookahead, opt, spanned,
    take_while, take_while_m_n,
};
use ron_reboot::utf8_parser::containers::{list, rmap, tagged, untagged_struct};
use ron_reboot::utf8_parser::error::Expectation;
use ron_reboot::utf8_parser::input::Input;
use ron_reboot::utf8_parser::locate::get_char_at_offset;
use ron_reboot::utf8_parser::primitive::ident::ident;
use ron_reboot::utf8_parser::primitive::number::{decimal, integer, sign};
use ron_reboot::utf8_parser::primitive::raw_str::parse_raw_string;
use ron_reboot::utf8_parser::primitive::{escaped_string, unescaped_str};
use ron_reboot::utf8_parser::pt::{
    Attribute, Decimal, Expr, Extension, Ident, Integer, List, RMap, Sign, Spanned, Struct,
    UnsignedInteger,
};
use ron_reboot::utf8_parser::ron::{attribute, expr};
use ron_reboot::utf8_parser::IResultLookahead;
use ron_reboot::Location;

fn value_of<T>(r: IResultLookahead<T>) -> T {
    match r {
        Ok(ok) => ok.parsed,
        Err(e) => panic!("{:?}", e),
    }
}

fn is_a_or_b(c: char) -> bool {
    c == 'a' || c == 'b'
}

fn tag_a<'a>(input: Input<'a>) -> IResultLookahead<'a, Input<'a>> {
    tag("a", input)
}

fn pos_fields() -> Vec<(&'static str, Expr<'static>)> {
    vec![
        ("x", Integer::new_test(Some(Sign::Negative), 3).to_expr()),
        ("y", Integer::new_test(None, 4).to_expr()),
    ]
}

#[test]
fn attributes() {
    assert_eq!(
        value_of(attribute(Input::new("#![enable(implicit_some)]"))),
        Attribute::enables_test(vec![Extension::ImplicitSome])
    );
    assert_eq!(
        value_of(attribute(Input::new("# ! [  enable (  implicit_some   ) ]  "))),
        Attribute::enables_test(vec![Extension::ImplicitSome])
    );

    assert_eq!(
        value_of(attribute(Input::new(
            "# ! [  enable (  implicit_some  , unwrap_newtypes   ) ]  "
        ))),
        Attribute::enables_test(vec![Extension::ImplicitSome, Extension::UnwrapNewtypes])
    );
}

#[test]
fn basic_block_comment() {
    assert_eq!(
        value_of(block_comment(Input::new("/* Hello I am a block comment! */"))).fragment(),
        "/* Hello I am a block comment! */"
    );

    assert_eq!(
        value_of(block_comment(Input::new(
            "/* Hello I am a\n block comment! */ parser ignores this */ /*"
        )))
        .fragment(),
        "/* Hello I am a\n block comment! */"
    );
}

#[test]
fn basic_eol_comment() {
    assert_eq!(
        value_of(eol_comment(Input::new("// Hello I am an eol comment\n"))).fragment(),
        "// Hello I am an eol comment"
    );

    assert_eq!(
        value_of(eol_comment(Input::new("// Hello I am an // eol comment\r\n"))).fragment(),
        "// Hello I am an // eol comment"
    );
}

#[test]
fn basic_ident() {
    assert_eq!(value_of(ident(Input::new("Config"))), Ident("Config"));
    assert_eq!(
        value_of(ident(Input::new("doesany1usenumbers"))),
        Ident("doesany1usenumbers")
    );
}

#[test]
fn combinators_test_comma_list0() {
    assert_eq!(value_of(comma_list0_lookahead(tag_a, Input::new(""))).len(), 0);
    assert_eq!(value_of(comma_list0_lookahead(tag_a, Input::new("a"))).len(), 1);
    assert_eq!(value_of(comma_list0_lookahead(tag_a, Input::new("a,"))).len(), 1);
    assert_eq!(value_of(comma_list0_lookahead(tag_a, Input::new("a,a"))).len(), 2);
    assert_eq!(value_of(comma_list0_lookahead(tag_a, Input::new("a,a,"))).len(), 2);
}

#[test]
fn combinators_test_comma_list0_ws() {
    assert_eq!(value_of(comma_list0_lookahead(tag_a, Input::new(" a "))).len(), 1);
    assert_eq!(value_of(comma_list0_lookahead(tag_a, Input::new(" a ,"))).len(), 1);
    assert_eq!(value_of(comma_list0_lookahead(tag_a, Input::new("a , a "))).len(), 2);
    assert_eq!(value_of(comma_list0_lookahead(tag_a, Input::new("a , a ,"))).len(), 2);
}

#[test]
fn combinators_test_comma_list1() {
    assert!(comma_list1_lookahead(tag_a, Input::new("")).is_err());
    assert!(comma_list1_lookahead(tag_a, Input::new(",")).is_err());
    assert_eq!(value_of(comma_list1_lookahead(tag_a, Input::new("a"))).len(), 1);
    assert_eq!(value_of(comma_list1_lookahead(tag_a, Input::new("a,"))).len(), 1);
    assert_eq!(value_of(comma_list1_lookahead(tag_a, Input::new("a,a"))).len(), 2);
    assert_eq!(value_of(comma_list1_lookahead(tag_a, Input::new("a,a,"))).len(), 2);
    assert_eq!(value_of(comma_list1_lookahead(tag_a, Input::new("a,a,a"))).len(), 3);
    assert_eq!(value_of(comma_list1_lookahead(tag_a, Input::new("a,a,a,"))).len(), 3);
}

#[test]
fn combinators_test_comma_list1_ws() {
    assert_eq!(value_of(comma_list1_lookahead(tag_a, Input::new(" a "))).len(), 1);
    assert_eq!(value_of(comma_list1_lookahead(tag_a, Input::new(" a , "))).len(), 1);
    assert_eq!(value_of(comma_list1_lookahead(tag_a, Input::new(" a , a "))).len(), 2);
    assert_eq!(value_of(comma_list1_lookahead(tag_a, Input::new(" a , a ,"))).len(), 2);
    assert_eq!(
        value_of(comma_list1_lookahead(tag_a, Input::new(" a , a , a "))).len(),
        3
    );
    assert_eq!(
        value_of(comma_list1_lookahead(tag_a, Input::new("a , a , a ,"))).len(),
        3
    );
}

#[test]
fn combinators_test_take_while() {
    assert_eq!(value_of(take_while(is_a_or_b, Input::new("ababcabab"))).len(), 4);
    assert_eq!(
        take_while(is_a_or_b, Input::new("cababcabab"))
            .unwrap()
            .parsed
            .len(),
        0
    );
    assert_eq!(take_while(is_a_or_b, Input::new("")).unwrap().parsed.len(), 0);
    assert_eq!(take_while(is_a_or_b, Input::new("c")).unwrap().parsed.len(), 0);
    assert_eq!(take_while(is_a_or_b, Input::new("b")).unwrap().parsed.len(), 1);
}

#[test]
fn combinators_test_take_while_m_n_checks() {
    assert_eq!(
        value_of(take_while_m_n(0, 5, is_a_or_b, Expectation::Alpha, Input::new("ababcabab")))
            .len(),
        4
    );

    assert_eq!(
        value_of(take_while_m_n(4, 4, is_a_or_b, Expectation::Alpha, Input::new("ababcabab")))
            .len(),
        4
    );

    assert_eq!(
        value_of(take_while_m_n(0, 5, |_c| false, Expectation::Alpha, Input::new("ababcabab")))
            .len(),
        0
    );

    assert_eq!(
        value_of(take_while_m_n(0, 1, |_c| false, Expectation::Alpha, Input::new("ababcabab")))
            .len(),
        0
    );

    assert_eq!(
        value_of(take_while_m_n(1, 4, |c| c == 'a', Expectation::Alpha, Input::new("ababcabab")))
            .len(),
        1
    );
}

#[test]
fn combinators_test_take_while_m_n_limits() {
    assert_eq!(
        value_of(take_while_m_n(0, 3, is_a_or_b, Expectation::Alpha, Input::new("ababcabab")))
            .len(),
        3
    );

    assert_eq!(
        value_of(take_while_m_n(0, 0, is_a_or_b, Expectation::Alpha, Input::new("ababcabab")))
            .len(),
        0
    );

    assert_eq!(
        value_of(take_while_m_n(0, 1, is_a_or_b, Expectation::Alpha, Input::new("ababcabab")))
            .len(),
        1
    );

    assert_eq!(
        value_of(take_while_m_n(2, 4, is_a_or_b, Expectation::Alpha, Input::new("ababcabab")))
            .len(),
        4
    );
}

#[test]
fn combinators_test_take_while_m_n_requires() {
    assert_eq!(
        value_of(take_while_m_n(3, 6, is_a_or_b, Expectation::Alpha, Input::new("ababcabab")))
            .len(),
        4
    );

    assert!(take_while_m_n(3, 6, is_a_or_b, Expectation::Alpha, Input::new("ab")).is_err());
    assert!(take_while_m_n(3, 6, is_a_or_b, Expectation::Alpha, Input::new("")).is_err());
    assert!(take_while_m_n(1, 1, is_a_or_b, Expectation::Alpha, Input::new("")).is_err());
}

#[test]
fn containers_opt_idents() {
    fn opt_ident<'a>(input: Input<'a>) -> IResultLookahead<'a, Option<Spanned<'a, Ident<'a>>>> {
        opt(|i| spanned(|j| lookahead(ident, j), i), input)
    }

    assert_eq!(
        value_of(opt_ident(Input::new("Pos"))),
        Some(Spanned::new_test(Ident("Pos")))
    );
    assert_eq!(
        value_of(opt_ident(Input::new("_0"))),
        Some(Spanned::new_test(Ident("_0")))
    );
    assert_eq!(value_of(opt_ident(Input::new(""))), None);
    assert_eq!(value_of(opt_ident(Input::new("!not an ident"))), None);
}

#[test]
fn decimals() {
    assert_eq!(
        value_of(decimal(Input::new("-1.0"))),
        Decimal::new(Some(Sign::Negative), Some(1), 0, 1, None)
    );
    assert_eq!(
        value_of(decimal(Input::new("123.00"))),
        Decimal::new(None, Some(123), 0, 2, None)
    );
    assert_eq!(
        value_of(decimal(Input::new("+1.23e+2"))),
        Decimal::new(
            Some(Sign::Positive),
            Some(1),
            23,
            2,
            Some((Some(Sign::Positive), 2))
        )
    );
    assert_eq!(
        value_of(decimal(Input::new(".123e3"))),
        Decimal::new(None, None, 123, 3, Some((None, 3)))
    );
    assert_eq!(
        value_of(decimal(Input::new(".123E-3"))),
        Decimal::new(None, None, 123, 3, Some((Some(Sign::Negative), 3)))
    );
}

#[test]
fn exprs_decimals() {
    for input in ["-41.23", "11.1", ".1E-4"] {
        assert_eq!(
            Expr::Decimal(value_of(decimal(Input::new(input)))),
            value_of(expr(Input::new(input)))
        );
    }
}

#[test]
fn exprs_int() {
    for input in ["-4123", "111", "+821"] {
        assert_eq!(
            value_of(integer(Input::new(input))).to_expr(),
            value_of(expr(Input::new(input)))
        );
    }
}

#[test]
fn exprs_str() {
    assert_eq!(
        Expr::Str(value_of(unescaped_str(Input::new(r#""Hello strings!""#)))),
        value_of(expr(Input::new(r#""Hello strings!""#)))
    );
}

#[test]
fn exprs_string() {
    assert_eq!(
        Expr::String(value_of(escaped_string(Input::new(r#""\n""#)))),
        value_of(expr(Input::new(r#""\n""#)))
    );
    assert_eq!(
        Expr::String(value_of(escaped_string(Input::new(r#""So is /😂\\""#)))),
        value_of(expr(Input::new(r#""So is /😂\\""#)))
    );
    assert_eq!(
        Expr::String(value_of(escaped_string(Input::new(r#""\\So is \u{00AC}""#)))),
        value_of(expr(Input::new(r#""\\So is \u{00AC}""#)))
    );
}

#[test]
fn exprs_struct() {
    let input = "Pos(x:-3,y:4)";
    assert_eq!(
        Expr::Tagged(value_of(tagged(Input::new(input)))),
        value_of(expr(Input::new(input)))
    );
}

#[test]
fn ident_basic_ident() {
    assert_eq!(value_of(ident(Input::new("Config"))), Ident("Config"));
    assert_eq!(
        value_of(ident(Input::new("doesany1usenumbers"))),
        Ident("doesany1usenumbers")
    );
}

#[test]
fn ident_ident_underscore() {
    assert_eq!(value_of(ident(Input::new("_start"))), Ident("_start"));
    assert_eq!(value_of(ident(Input::new("ends_"))), Ident("ends_"));
    assert_eq!(
        value_of(ident(Input::new("_very_many_underscores_"))),
        Ident("_very_many_underscores_")
    );
    assert_eq!(
        value_of(ident(Input::new("sane_identifier_for_a_change"))),
        Ident("sane_identifier_for_a_change")
    );
}

#[test]
fn ident_invalid_ident() {
    assert!(ident(Input::new("1hello")).is_err());
}

#[test]
fn ident_underscore() {
    assert_eq!(value_of(ident(Input::new("_start"))), Ident("_start"));
    assert_eq!(value_of(ident(Input::new("ends_"))), Ident("ends_"));
    assert_eq!(
        value_of(ident(Input::new("_very_many_underscores_"))),
        Ident("_very_many_underscores_")
    );
    assert_eq!(
        value_of(ident(Input::new("sane_identifier_for_a_change"))),
        Ident("sane_identifier_for_a_change")
    );
}

#[test]
fn input_test_char_offset_basic() {
    assert_eq!(get_char_at_offset("123", 1), (1, 1, '2'));
}

#[test]
fn input_test_char_offset_end() {
    assert_eq!(get_char_at_offset("123", 2), (2, 2, '3'));
}

#[test]
fn input_test_char_offset_eof() {
    assert_eq!(get_char_at_offset("123", 3), (3, 3, '\u{FFFD}'));
}

#[test]
fn input_test_char_offset_start() {
    assert_eq!(get_char_at_offset("123", 0), (0, 0, '1'));
}

#[test]
fn integers() {
    assert_eq!(
        value_of(integer(Input::new("-1"))),
        Integer::new_test(Some(Sign::Negative), 1)
    );
    assert_eq!(value_of(integer(Input::new("123"))), Integer::new_test(None, 123));
    assert_eq!(
        value_of(integer(Input::new("+123"))),
        Integer::new_test(Some(Sign::Positive), 123)
    );
}

#[test]
fn invalid_ident() {
    assert!(ident(Input::new("1hello")).is_err());
}

#[test]
fn lists() {
    assert_eq!(
        value_of(list(Input::new("[1, 2]"))),
        List::new_test(vec![
            UnsignedInteger::new(1).to_expr(),
            UnsignedInteger::new(2).to_expr()
        ])
    );
    assert_eq!(
        value_of(list(Input::new("[1,]"))),
        List::new_test(vec![UnsignedInteger::new(1).to_expr(),])
    );
    assert_eq!(
        value_of(list(Input::new("[ 1, 2, ]"))),
        List::new_test(vec![
            UnsignedInteger::new(1).to_expr(),
            UnsignedInteger::new(2).to_expr()
        ])
    );
    assert_eq!(value_of(list(Input::new("[  ]"))), List::new_test(vec![]));
}

#[test]
fn lists_inner() {
    assert_eq!(
        value_of(comma_list0(|input| lookahead(expr, input), Input::new("1,"))),
        vec![Spanned::new_test(UnsignedInteger::new(1).to_expr())]
    );
}

#[test]
fn maps() {
    let basic_map = RMap::new_test(vec![
        (
            Expr::Str("my map key :)"),
            Expr::Tagged(Struct::new_tagged("Pos", pos_fields())),
        ),
        (
            Expr::Tagged(Struct::new_tagged("Pos", pos_fields())),
            Expr::Bool(false),
        ),
    ]);

    assert_eq!(
        value_of(spanned(
            rmap,
            Input::new(
                r#"
{
    "my map key :)": Pos(x: -3, y: 4),
    Pos(x: -3, y: 4): false,
}
"#
            )
        ))
        .value,
        basic_map
    );
}

#[test]
fn missing_colon() {
    let input = "Transform(pos 5)";
    assert!(expr(Input::new(input)).is_err());
}

#[test]
fn mod_attributes() {
    assert_eq!(
        value_of(attribute(Input::new("#![enable(implicit_some)]"))),
        Attribute::enables_test(vec![Extension::ImplicitSome])
    );
    assert_eq!(
        value_of(attribute(Input::new("# ! [  enable (  implicit_some   ) ]  "))),
        Attribute::enables_test(vec![Extension::ImplicitSome])
    );

    assert_eq!(
        value_of(attribute(Input::new(
            "# ! [  enable (  implicit_some  , unwrap_newtypes   ) ]  "
        ))),
        Attribute::enables_test(vec![Extension::ImplicitSome, Extension::UnwrapNewtypes])
    );
}

#[test]
fn mod_basic_ident() {
    assert_eq!(value_of(ident(Input::new("Config"))), Ident("Config"));
    assert_eq!(
        value_of(ident(Input::new("doesany1usenumbers"))),
        Ident("doesany1usenumbers")
    );
}

#[test]
fn mod_decimals() {
    assert_eq!(
        value_of(decimal(Input::new("-1.0"))),
        Decimal::new(Some(Sign::Negative), Some(1), 0, 1, None)
    );
    assert_eq!(
        value_of(decimal(Input::new("123.00"))),
        Decimal::new(None, Some(123), 0, 2, None)
    );
    assert_eq!(
        value_of(decimal(Input::new("+1.23e+2"))),
        Decimal::new(
            Some(Sign::Positive),
            Some(1),
            23,
            2,
            Some((Some(Sign::Positive), 2))
        )
    );
    assert_eq!(
        value_of(decimal(Input::new(".123e3"))),
        Decimal::new(None, None, 123, 3, Some((None, 3)))
    );
    assert_eq!(
        value_of(decimal(Input::new(".123E-3"))),
        Decimal::new(None, None, 123, 3, Some((Some(Sign::Negative), 3)))
    );
}

#[test]
fn mod_exprs_int() {
    for input in ["-4123", "111", "+821"] {
        assert_eq!(
            value_of(integer(Input::new(input))).to_expr(),
            value_of(expr(Input::new(input)))
        );
    }
}

#[test]
fn mod_exprs_str() {
    assert_eq!(
        Expr::Str(value_of(unescaped_str(Input::new(r#""Hello strings!""#)))),
        value_of(expr(Input::new(r#""Hello strings!""#)))
    );
}

#[test]
fn mod_exprs_string() {
    assert_eq!(
        Expr::String(value_of(escaped_string(Input::new(r#""\n""#)))),
        value_of(expr(Input::new(r#""\n""#)))
    );
    assert_eq!(
        Expr::String(value_of(escaped_string(Input::new(r#""So is /😂\\""#)))),
        value_of(expr(Input::new(r#""So is /😂\\""#)))
    );
    assert_eq!(
        Expr::String(value_of(escaped_string(Input::new(r#""\\So is \u{00AC}""#)))),
        value_of(expr(Input::new(r#""\\So is \u{00AC}""#)))
    );
}

#[test]
fn mod_exprs_struct() {
    let input = "Pos(x:-3,y:4)";
    assert_eq!(
        Expr::Tagged(value_of(tagged(Input::new(input)))),
        value_of(expr(Input::new(input)))
    );
}

#[test]
fn mod_ident_underscore() {
    assert_eq!(value_of(ident(Input::new("_start"))), Ident("_start"));
    assert_eq!(value_of(ident(Input::new("ends_"))), Ident("ends_"));
    assert_eq!(
        value_of(ident(Input::new("_very_many_underscores_"))),
        Ident("_very_many_underscores_")
    );
    assert_eq!(
        value_of(ident(Input::new("sane_identifier_for_a_change"))),
        Ident("sane_identifier_for_a_change")
    );
}

#[test]
fn mod_integers() {
    assert_eq!(
        value_of(integer(Input::new("-1"))),
        Integer::new_test(Some(Sign::Negative), 1)
    );
    assert_eq!(value_of(integer(Input::new("123"))), Integer::new_test(None, 123));
    assert_eq!(
        value_of(integer(Input::new("+123"))),
        Integer::new_test(Some(Sign::Positive), 123)
    );
}

#[test]
fn mod_invalid_ident() {
    assert!(ident(Input::new("1hello")).is_err());
}

#[test]
fn mod_lists() {
    assert_eq!(
        value_of(list(Input::new("[1, 2]"))),
        List::new_test(vec![
            UnsignedInteger::new(1).to_expr(),
            UnsignedInteger::new(2).to_expr()
        ])
    );
    assert_eq!(
        value_of(list(Input::new("[1,]"))),
        List::new_test(vec![UnsignedInteger::new(1).to_expr(),])
    );
    assert_eq!(
        value_of(list(Input::new("[ 1, 2, ]"))),
        List::new_test(vec![
            UnsignedInteger::new(1).to_expr(),
            UnsignedInteger::new(2).to_expr()
        ])
    );
    assert_eq!(value_of(list(Input::new("[  ]"))), List::new_test(vec![]));
}

#[test]
fn mod_lists_inner() {
    assert_eq!(
        value_of(comma_list0(|input| lookahead(expr, input), Input::new("1,"))),
        vec![Spanned::new_test(UnsignedInteger::new(1).to_expr())]
    );
}

#[test]
fn mod_maps() {
    let basic_map = RMap::new_test(vec![
        (
            Expr::Str("my map key :)"),
            Expr::Tagged(Struct::new_tagged("Pos", pos_fields())),
        ),
        (
            Expr::Tagged(Struct::new_tagged("Pos", pos_fields())),
            Expr::Bool(false),
        ),
    ]);

    assert_eq!(
        value_of(spanned(
            rmap,
            Input::new(
                r#"
{
    "my map key :)": Pos(x: -3, y: 4),
    Pos(x: -3, y: 4): false,
}
"#
            )
        ))
        .value,
        basic_map
    );
}

#[test]
fn mod_missing_colon() {
    let input = "Transform(pos 5)";
    assert!(expr(Input::new(input)).is_err());
}

#[test]
fn mod_opt_idents() {
    fn opt_ident<'a>(input: Input<'a>) -> IResultLookahead<'a, Option<Spanned<'a, Ident<'a>>>> {
        opt(|i| spanned(|j| lookahead(ident, j), i), input)
    }

    assert_eq!(
        value_of(opt_ident(Input::new("Pos"))),
        Some(Spanned::new_test(Ident("Pos")))
    );
    assert_eq!(
        value_of(opt_ident(Input::new("_0"))),
        Some(Spanned::new_test(Ident("_0")))
    );
    assert_eq!(value_of(opt_ident(Input::new(""))), None);
    assert_eq!(value_of(opt_ident(Input::new("!not an ident"))), None);
}

#[test]
fn mod_signs() {
    assert_eq!(value_of(sign(Input::new("+"))), Sign::Positive);
    assert_eq!(value_of(sign(Input::new("-"))), Sign::Negative);
    assert!(sign(Input::new("*")).is_err());
}

#[test]
fn mod_strings() {
    assert_eq!(
        value_of(unescaped_str(Input::new(r#""Hello strings!""#))),
        "Hello strings!"
    );
    assert_eq!(
        value_of(escaped_string(Input::new(r#""Newlines are\n great!""#))),
        "Newlines are\n great!"
    );
    assert_eq!(
        value_of(escaped_string(Input::new(r#""So is /😂\\""#))),
        "So is /😂\\"
    );
    assert_eq!(
        value_of(escaped_string(Input::new(r#""So is \u{00AC}""#))),
        "So is \u{00AC}"
    );
}

#[test]
fn mod_structs() {
    assert_eq!(
        value_of(tagged(Input::new("Pos(x:-3,y:4)"))),
        Struct::new_tagged("Pos", pos_fields())
    );
    assert_eq!(
        value_of(tagged(Input::new("Pos(x:-3,y:4,)"))),
        Struct::new_tagged("Pos", pos_fields())
    );
    assert_eq!(
        value_of(tagged(Input::new("Pos(x:-3,y:4,  )"))),
        Struct::new_tagged("Pos", pos_fields())
    );
    assert_eq!(
        value_of(tagged(Input::new("Pos  (\tx: -3, y       : 4\n\n)"))),
        Struct::new_tagged("Pos", pos_fields())
    );
}

#[test]
fn mod_trailing_commas() {
    let input = "Transform(pos: 5,)";
    assert_eq!(
        value_of(tagged(Input::new(input))),
        Struct::new_tagged("Transform", vec![("pos", UnsignedInteger::new(5).to_expr())])
    );
}

#[test]
fn mod_untagged_structs() {
    assert_eq!(
        value_of(untagged_struct(Input::new("(x:-3,y:4)"))),
        Struct::new_test(pos_fields())
    );
    assert_eq!(
        value_of(untagged_struct(Input::new("(x:-3,y:4,)"))),
        Struct::new_test(pos_fields())
    );
    assert_eq!(
        value_of(untagged_struct(Input::new("(x:-3,y:4,  )"))),
        Struct::new_test(pos_fields())
    );
    assert_eq!(
        value_of(untagged_struct(Input::new("(\t  x: -3, y       : 4\n\n)"))),
        Struct::new_test(pos_fields())
    );
}

#[test]
fn nested_block_comment() {
    assert_eq!(
        value_of(block_comment(Input::new(
            "/* Hello I am /* a nested */ block comment! */"
        )))
        .fragment(),
        "/* Hello I am /* a nested */ block comment! */"
    );
}

#[test]
fn number_decimals() {
    assert_eq!(
        value_of(decimal(Input::new("-1.0"))),
        Decimal::new(Some(Sign::Negative), Some(1), 0, 1, None)
    );
    assert_eq!(
        value_of(decimal(Input::new("123.00"))),
        Decimal::new(None, Some(123), 0, 2, None)
    );
    assert_eq!(
        value_of(decimal(Input::new("+1.23e+2"))),
        Decimal::new(
            Some(Sign::Positive),
            Some(1),
            23,
            2,
            Some((Some(Sign::Positive), 2))
        )
    );
    assert_eq!(
        value_of(decimal(Input::new(".123e3"))),
        Decimal::new(None, None, 123, 3, Some((None, 3)))
    );
    assert_eq!(
        value_of(decimal(Input::new(".123E-3"))),
        Decimal::new(None, None, 123, 3, Some((Some(Sign::Negative), 3)))
    );
}

#[test]
fn number_exprs_decimals() {
    for input in ["-41.23", "11.1", ".1E-4"] {
        assert_eq!(
            Expr::Decimal(value_of(decimal(Input::new(input)))),
            value_of(expr(Input::new(input)))
        );
    }
}

#[test]
fn number_exprs_int() {
    for input in ["-4123", "111", "+821", "0"] {
        assert_eq!(
            value_of(integer(Input::new(input))).to_expr(),
            value_of(expr(Input::new(input)))
        );
    }
}

#[test]
fn number_integers() {
    assert_eq!(
        value_of(integer(Input::new("-1"))),
        Integer::new_test(Some(Sign::Negative), 1)
    );
    assert_eq!(value_of(integer(Input::new("123"))), Integer::new_test(None, 123));
    assert_eq!(
        value_of(integer(Input::new("+123"))),
        Integer::new_test(Some(Sign::Positive), 123)
    );
}

#[test]
fn number_signs() {
    assert_eq!(value_of(sign(Input::new("+"))), Sign::Positive);
    assert_eq!(value_of(sign(Input::new("-"))), Sign::Negative);
    assert!(sign(Input::new("*")).is_err());
}

#[test]
fn opt_idents() {
    fn opt_ident<'a>(input: Input<'a>) -> IResultLookahead<'a, Option<Spanned<'a, Ident<'a>>>> {
        opt(|i| spanned(|j| lookahead(ident, j), i), input)
    }

    assert_eq!(
        value_of(opt_ident(Input::new("Pos"))),
        Some(Spanned::new_test(Ident("Pos")))
    );
    assert_eq!(
        value_of(opt_ident(Input::new("_0"))),
        Some(Spanned::new_test(Ident("_0")))
    );
    assert_eq!(value_of(opt_ident(Input::new(""))), None);
    assert_eq!(value_of(opt_ident(Input::new("!not an ident"))), None);
}

#[test]
fn parser_basic_ident() {
    assert_eq!(value_of(ident(Input::new("Config"))), Ident("Config"));
}

#[test]
fn parser_decimals() {
    assert_eq!(
        value_of(decimal(Input::new("-1.0"))),
        Decimal::new(Some(Sign::Negative), Some(1), 0, 1, None)
    );
    assert_eq!(
        value_of(decimal(Input::new("123.00"))),
        Decimal::new(None, Some(123), 0, 2, None)
    );
    assert_eq!(
        value_of(decimal(Input::new("+1.23e+2"))),
        Decimal::new(
            Some(Sign::Positive),
            Some(1),
            23,
            2,
            Some((Some(Sign::Positive), 2))
        )
    );
    assert_eq!(
        value_of(decimal(Input::new(".123e3"))),
        Decimal::new(None, None, 123, 3, Some((None, 3)))
    );
}

#[test]
fn parser_exprs_int() {
    for input in ["-4123", "111", "+821"] {
        assert_eq!(
            value_of(integer(Input::new(input))).to_expr(),
            value_of(expr(Input::new(input)))
        );
    }
}

#[test]
fn parser_exprs_struct() {
    let input = "Pos(x:-3,y:4)";
    assert_eq!(
        Expr::Tagged(value_of(tagged(Input::new(input)))),
        value_of(expr(Input::new(input)))
    );
}

#[test]
fn parser_integers() {
    assert_eq!(
        value_of(integer(Input::new("-1"))),
        Integer::new_test(Some(Sign::Negative), 1)
    );
    assert_eq!(value_of(integer(Input::new("123"))), Integer::new_test(None, 123));
    assert_eq!(
        value_of(integer(Input::new("+123"))),
        Integer::new_test(Some(Sign::Positive), 123)
    );
}

#[test]
fn parser_signs() {
    assert_eq!(value_of(sign(Input::new("+"))), Sign::Positive);
    assert_eq!(value_of(sign(Input::new("-"))), Sign::Negative);
    assert!(sign(Input::new("*")).is_err());
}

#[test]
fn parser_strings() {
    assert_eq!(
        value_of(escaped_string(Input::new(r#""Hello strings!""#))),
        "Hello strings!"
    );
    assert_eq!(
        value_of(escaped_string(Input::new(r#""Newlines are\n great!""#))),
        "Newlines are\n great!"
    );
    assert_eq!(
        value_of(escaped_string(Input::new(r#""So is /😂\\""#))),
        "So is /😂\\"
    );
    assert_eq!(
        value_of(escaped_string(Input::new(r#""So is \u{00AC}""#))),
        "So is \u{00AC}"
    );
}

#[test]
fn parser_structs() {
    assert_eq!(
        value_of(tagged(Input::new("Pos(x:-3,y:4)"))),
        Struct::new_tagged("Pos", pos_fields())
    );
    assert_eq!(
        value_of(tagged(Input::new("Pos  (\tx: -3, y       : 4\n\n)"))),
        Struct::new_tagged("Pos", pos_fields())
    );
}

#[test]
fn radix_integers() {
    assert_eq!(value_of(integer(Input::new("0x0"))), Integer::new_test(None, 0));
    assert_eq!(value_of(integer(Input::new("0x1"))), Integer::new_test(None, 1));
    assert_eq!(value_of(integer(Input::new("0x1B"))), Integer::new_test(None, 27));
    assert_eq!(value_of(integer(Input::new("0o17"))), Integer::new_test(None, 15));
    assert_eq!(value_of(integer(Input::new("0b0101"))), Integer::new_test(None, 5));
}

#[test]
fn raw_ident() {
    assert_eq!(value_of(ident(Input::new("r#Config"))), Ident("Config"));
    assert_eq!(value_of(ident(Input::new("r#kebab-case"))), Ident("kebab-case"));
    assert_eq!(value_of(ident(Input::new("r#-very.wild+"))), Ident("-very.wild+"));
}

#[test]
fn repeated() {
    assert_eq!(value_of(repeat_char('a', 3, Input::new("aaa"))).fragment(), "aaa");
    assert_eq!(value_of(repeat_char('a', 3, Input::new("aaab"))).fragment(), "aaa");
    assert_eq!(value_of(repeat_char('a', 1, Input::new("aab"))).fragment(), "a");
}

#[test]
fn ron_attributes() {
    assert_eq!(
        value_of(attribute(Input::new("#![enable(implicit_some)]"))),
        Attribute::enables_test(vec![Extension::ImplicitSome])
    );
    assert_eq!(
        value_of(attribute(Input::new("# ! [  enable (  implicit_some   ) ]  "))),
        Attribute::enables_test(vec![Extension::ImplicitSome])
    );

    assert_eq!(
        value_of(attribute(Input::new(
            "# ! [  enable (  implicit_some  , unwrap_newtypes   ) ]  "
        ))),
        Attribute::enables_test(vec![Extension::ImplicitSome, Extension::UnwrapNewtypes])
    );
}

#[test]
fn signs() {
    assert_eq!(value_of(sign(Input::new("+"))), Sign::Positive);
    assert_eq!(value_of(sign(Input::new("-"))), Sign::Negative);
    assert!(sign(Input::new("*")).is_err());
}

#[test]
fn strings() {
    assert_eq!(
        value_of(unescaped_str(Input::new(r#""Hello strings!""#))),
        "Hello strings!"
    );
    assert_eq!(
        value_of(escaped_string(Input::new(r#""Newlines are\n great!""#))),
        "Newlines are\n great!"
    );
    assert_eq!(
        value_of(escaped_string(Input::new(r#""So is /😂\\""#))),
        "So is /😂\\"
    );
    assert_eq!(
        value_of(escaped_string(Input::new(r#""So is \u{00AC}""#))),
        "So is \u{00AC}"
    );
}

#[test]
fn structs() {
    assert_eq!(
        value_of(tagged(Input::new("Pos(x:-3,y:4)"))),
        Struct::new_tagged("Pos", pos_fields())
    );
    assert_eq!(
        value_of(tagged(Input::new("Pos(x:-3,y:4,)"))),
        Struct::new_tagged("Pos", pos_fields())
    );
    assert_eq!(
        value_of(tagged(Input::new("Pos(x:-3,y:4,  )"))),
        Struct::new_tagged("Pos", pos_fields())
    );
    assert_eq!(
        value_of(tagged(Input::new("Pos  (\tx: -3, y       : 4\n\n)"))),
        Struct::new_tagged("Pos", pos_fields())
    );
}

#[test]
fn test_char_offset_basic() {
    assert_eq!(get_char_at_offset("123", 1), (1, 1, '2'));
}

#[test]
fn test_char_offset_end() {
    assert_eq!(get_char_at_offset("123", 2), (2, 2, '3'));
}

#[test]
fn test_char_offset_eof() {
    assert_eq!(get_char_at_offset("123", 3), (3, 3, '\u{FFFD}'));
}

#[test]
fn test_char_offset_start() {
    assert_eq!(get_char_at_offset("123", 0), (0, 0, '1'));
}

#[test]
fn test_comma_list0() {
    assert_eq!(value_of(comma_list0_lookahead(tag_a, Input::new(""))).len(), 0);
    assert_eq!(value_of(comma_list0_lookahead(tag_a, Input::new("a"))).len(), 1);
    assert_eq!(value_of(comma_list0_lookahead(tag_a, Input::new("a,"))).len(), 1);
    assert_eq!(value_of(comma_list0_lookahead(tag_a, Input::new("a,a"))).len(), 2);
    assert_eq!(value_of(comma_list0_lookahead(tag_a, Input::new("a,a,"))).len(), 2);
}

#[test]
fn test_comma_list0_ws() {
    assert_eq!(value_of(comma_list0_lookahead(tag_a, Input::new(" a "))).len(), 1);
    assert_eq!(value_of(comma_list0_lookahead(tag_a, Input::new(" a ,"))).len(), 1);
    assert_eq!(value_of(comma_list0_lookahead(tag_a, Input::new("a , a "))).len(), 2);
    assert_eq!(value_of(comma_list0_lookahead(tag_a, Input::new("a , a ,"))).len(), 2);
}

#[test]
fn test_comma_list1() {
    assert!(comma_list1_lookahead(tag_a, Input::new("")).is_err());
    assert!(comma_list1_lookahead(tag_a, Input::new(",")).is_err());
    assert_eq!(value_of(comma_list1_lookahead(tag_a, Input::new("a"))).len(), 1);
    assert_eq!(value_of(comma_list1_lookahead(tag_a, Input::new("a,"))).len(), 1);
    assert_eq!(value_of(comma_list1_lookahead(tag_a, Input::new("a,a"))).len(), 2);
    assert_eq!(value_of(comma_list1_lookahead(tag_a, Input::new("a,a,"))).len(), 2);
    assert_eq!(value_of(comma_list1_lookahead(tag_a, Input::new("a,a,a"))).len(), 3);
    assert_eq!(value_of(comma_list1_lookahead(tag_a, Input::new("a,a,a,"))).len(), 3);
}

#[test]
fn test_comma_list1_ws() {
    assert_eq!(value_of(comma_list1_lookahead(tag_a, Input::new(" a "))).len(), 1);
    assert_eq!(value_of(comma_list1_lookahead(tag_a, Input::new(" a , "))).len(), 1);
    assert_eq!(value_of(comma_list1_lookahead(tag_a, Input::new(" a , a "))).len(), 2);
    assert_eq!(value_of(comma_list1_lookahead(tag_a, Input::new(" a , a ,"))).len(), 2);
    assert_eq!(
        value_of(comma_list1_lookahead(tag_a, Input::new(" a , a , a "))).len(),
        3
    );
    assert_eq!(
        value_of(comma_list1_lookahead(tag_a, Input::new("a , a , a ,"))).len(),
        3
    );
}

#[test]
fn test_location() {
    let input = Input::new("Foo(\na: true,\nb: false)");
    assert_eq!(input.take_split(0).0.location(), Location { line: 1, column: 1 });
    assert_eq!(input.take_split(1).0.location(), Location { line: 1, column: 2 });
    assert_eq!(input.take_split(5).0.location(), Location { line: 2, column: 1 });
    assert_eq!(input.take_split(6).0.location(), Location { line: 2, column: 2 });
    assert_eq!(input.take_split(14).0.location(), Location { line: 3, column: 1 });
}

#[test]
fn test_raw0() {
    assert_eq!(
        value_of(parse_raw_string(Input::new(r##"r"Very \ raw string""##))),
        r##"Very \ raw string"##
    );
}

#[test]
fn test_raw1() {
    assert_eq!(
        value_of(parse_raw_string(Input::new(r##"r#"Very \ raw string"#"##))),
        r##"Very \ raw string"##
    );
}

#[test]
fn test_raw2() {
    assert_eq!(
        value_of(parse_raw_string(Input::new(r###"r##"Very \ raw string"##"###))),
        r##"Very \ raw string"##
    );
}

#[test]
fn test_raw_remaining() {
    assert_eq!(
        value_of(list(Input::new(r###"[ r##"Very \ raw string"##, "b"]"###))),
        List::new_test(vec![Expr::Str(r##"Very \ raw string"##), Expr::Str("b")])
    );
}

#[test]
fn test_take_while() {
    assert_eq!(value_of(take_while(is_a_or_b, Input::new("ababcabab"))).len(), 4);
    assert_eq!(
        take_while(is_a_or_b, Input::new("cababcabab"))
            .unwrap()
            .parsed
            .len(),
        0
    );
    assert_eq!(take_while(is_a_or_b, Input::new("")).unwrap().parsed.len(), 0);
    assert_eq!(take_while(is_a_or_b, Input::new("c")).unwrap().parsed.len(), 0);
    assert_eq!(take_while(is_a_or_b, Input::new("b")).unwrap().parsed.len(), 1);
}

#[test]
fn test_take_while_m_n_checks() {
    assert_eq!(
        value_of(take_while_m_n(0, 5, is_a_or_b, Expectation::Alpha, Input::new("ababcabab")))
            .len(),
        4
    );

    assert_eq!(
        value_of(take_while_m_n(4, 4, is_a_or_b, Expectation::Alpha, Input::new("ababcabab")))
            .len(),
        4
    );

    assert_eq!(
        value_of(take_while_m_n(0, 5, |_c| false, Expectation::Alpha, Input::new("ababcabab")))
            .len(),
        0
    );

    assert_eq!(
        value_of(take_while_m_n(0, 1, |_c| false, Expectation::Alpha, Input::new("ababcabab")))
            .len(),
        0
    );

    assert_eq!(
        value_of(take_while_m_n(1, 4, |c| c == 'a', Expectation::Alpha, Input::new("ababcabab")))
            .len(),
        1
    );
}

#[test]
fn test_take_while_m_n_limits() {
    assert_eq!(
        value_of(take_while_m_n(0, 3, is_a_or_b, Expectation::Alpha, Input::new("ababcabab")))
            .len(),
        3
    );

    assert_eq!(
        value_of(take_while_m_n(0, 0, is_a_or_b, Expectation::Alpha, Input::new("ababcabab")))
            .len(),
        0
    );

    assert_eq!(
        value_of(take_while_m_n(0, 1, is_a_or_b, Expectation::Alpha, Input::new("ababcabab")))
            .len(),
        1
    );

    assert_eq!(
        value_of(take_while_m_n(2, 4, is_a_or_b, Expectation::Alpha, Input::new("ababcabab")))
            .len(),
        4
    );
}

#[test]
fn test_take_while_m_n_requires() {
    assert_eq!(
        value_of(take_while_m_n(3, 6, is_a_or_b, Expectation::Alpha, Input::new("ababcabab")))
            .len(),
        4
    );

    assert!(take_while_m_n(3, 6, is_a_or_b, Expectation::Alpha, Input::new("ab")).is_err());
    assert!(take_while_m_n(3, 6, is_a_or_b, Expectation::Alpha, Input::new("")).is_err());
    assert!(take_while_m_n(1, 1, is_a_or_b, Expectation::Alpha, Input::new("")).is_err());
}

#[test]
fn tests_attributes() {
    assert_eq!(
        value_of(attribute(Input::new("#![enable(implicit_some)]"))),
        Attribute::enables_test(vec![Extension::ImplicitSome])
    );
    assert_eq!(
        value_of(attribute(Input::new("# ! [  enable (  implicit_some   ) ]  "))),
        Attribute::enables_test(vec![Extension::ImplicitSome])
    );

    assert_eq!(
        value_of(attribute(Input::new(
            "# ! [  enable (  implicit_some  , unwrap_newtypes   ) ]  "
        ))),
        Attribute::enables_test(vec![Extension::ImplicitSome, Extension::UnwrapNewtypes])
    );
}

#[test]
fn tests_basic_ident() {
    assert_eq!(value_of(ident(Input::new("Config"))), Ident("Config"));
    assert_eq!(
        value_of(ident(Input::new("doesany1usenumbers"))),
        Ident("doesany1usenumbers")
    );
}

#[test]
fn tests_decimals() {
    assert_eq!(
        value_of(decimal(Input::new("-1.0"))),
        Decimal::new(Some(Sign::Negative), Some(1), 0, 1, None)
    );
    assert_eq!(
        value_of(decimal(Input::new("123.00"))),
        Decimal::new(None, Some(123), 0, 2, None)
    );
    assert_eq!(
        value_of(decimal(Input::new("+1.23e+2"))),
        Decimal::new(
            Some(Sign::Positive),
            Some(1),
            23,
            2,
            Some((Some(Sign::Positive), 2))
        )
    );
    assert_eq!(
        value_of(decimal(Input::new(".123e3"))),
        Decimal::new(None, None, 123, 3, Some((None, 3)))
    );
    assert_eq!(
        value_of(decimal(Input::new(".123E-3"))),
        Decimal::new(None, None, 123, 3, Some((Some(Sign::Negative), 3)))
    );
}

#[test]
fn tests_exprs_int() {
    for input in ["-4123", "111", "+821"] {
        assert_eq!(
            value_of(integer(Input::new(input))).to_expr(),
            value_of(expr(Input::new(input)))
        );
    }
}

#[test]
fn tests_exprs_str() {
    assert_eq!(
        Expr::Str(value_of(unescaped_str(Input::new(r#""Hello strings!""#)))),
        value_of(expr(Input::new(r#""Hello strings!""#)))
    );
}

#[test]
fn tests_exprs_string() {
    assert_eq!(
        Expr::String(value_of(escaped_string(Input::new(r#""\n""#)))),
        value_of(expr(Input::new(r#""\n""#)))
    );
    assert_eq!(
        Expr::String(value_of(escaped_string(Input::new(r#""So is /😂\\""#)))),
        value_of(expr(Input::new(r#""So is /😂\\""#)))
    );
    assert_eq!(
        Expr::String(value_of(escaped_string(Input::new(r#""\\So is \u{00AC}""#)))),
        value_of(expr(Input::new(r#""\\So is \u{00AC}""#)))
    );
}

#[test]
fn tests_exprs_struct() {
    let input = "Pos(x:-3,y:4)";
    assert_eq!(
        Expr::Tagged(value_of(tagged(Input::new(input)))),
        value_of(expr(Input::new(input)))
    );
}

#[test]
fn tests_ident_underscore() {
    assert_eq!(value_of(ident(Input::new("_start"))), Ident("_start"));
    assert_eq!(value_of(ident(Input::new("ends_"))), Ident("ends_"));
    assert_eq!(
        value_of(ident(Input::new("_very_many_underscores_"))),
        Ident("_very_many_underscores_")
    );
    assert_eq!(
        value_of(ident(Input::new("sane_identifier_for_a_change"))),
        Ident("sane_identifier_for_a_change")
    );
}

#[test]
fn tests_integers() {
    assert_eq!(
        value_of(integer(Input::new("-1"))),
        Integer::new_test(Some(Sign::Negative), 1)
    );
    assert_eq!(value_of(integer(Input::new("123"))), Integer::new_test(None, 123));
    assert_eq!(
        value_of(integer(Input::new("+123"))),
        Integer::new_test(Some(Sign::Positive), 123)
    );
}

#[test]
fn tests_invalid_ident() {
    assert!(ident(Input::new("1hello")).is_err());
}

#[test]
fn tests_lists() {
    assert_eq!(
        value_of(list(Input::new("[1, 2]"))),
        List::new_test(vec![
            UnsignedInteger::new(1).to_expr(),
            UnsignedInteger::new(2).to_expr()
        ])
    );
    assert_eq!(
        value_of(list(Input::new("[1,]"))),
        List::new_test(vec![UnsignedInteger::new(1).to_expr(),])
    );
    assert_eq!(
        value_of(list(Input::new("[ 1, 2, ]"))),
        List::new_test(vec![
            UnsignedInteger::new(1).to_expr(),
            UnsignedInteger::new(2).to_expr()
        ])
    );
    assert_eq!(value_of(list(Input::new("[  ]"))), List::new_test(vec![]));
}

#[test]
fn tests_lists_inner() {
    assert_eq!(
        value_of(comma_list0(|input| lookahead(expr, input), Input::new("1,"))),
        vec![Spanned::new_test(UnsignedInteger::new(1).to_expr())]
    );
}

#[test]
fn tests_maps() {
    let basic_map = RMap::new_test(vec![
        (
            Expr::Str("my map key :)"),
            Expr::Tagged(Struct::new_tagged("Pos", pos_fields())),
        ),
        (
            Expr::Tagged(Struct::new_tagged("Pos", pos_fields())),
            Expr::Bool(false),
        ),
    ]);

    assert_eq!(
        value_of(spanned(
            rmap,
            Input::new(
                r#"
{
    "my map key :)": Pos(x: -3, y: 4),
    Pos(x: -3, y: 4): false,
}
"#
            )
        ))
        .value,
        basic_map
    );
}

#[test]
fn tests_missing_colon() {
    let input = "Transform(pos 5)";
    assert!(expr(Input::new(input)).is_err());
}

#[test]
fn tests_opt_idents() {
    fn opt_ident<'a>(input: Input<'a>) -> IResultLookahead<'a, Option<Spanned<'a, Ident<'a>>>> {
        opt(|i| spanned(|j| lookahead(ident, j), i), input)
    }

    assert_eq!(
        value_of(opt_ident(Input::new("Pos"))),
        Some(Spanned::new_test(Ident("Pos")))
    );
    assert_eq!(
        value_of(opt_ident(Input::new("_0"))),
        Some(Spanned::new_test(Ident("_0")))
    );
    assert_eq!(value_of(opt_ident(Input::new(""))), None);
    assert_eq!(value_of(opt_ident(Input::new("!not an ident"))), None);
}

#[test]
fn tests_signs() {
    assert_eq!(value_of(sign(Input::new("+"))), Sign::Positive);
    assert_eq!(value_of(sign(Input::new("-"))), Sign::Negative);
    assert!(sign(Input::new("*")).is_err());
}

#[test]
fn tests_strings() {
    assert_eq!(
        value_of(unescaped_str(Input::new(r#""Hello strings!""#))),
        "Hello strings!"
    );
    assert_eq!(
        value_of(escaped_string(Input::new(r#""Newlines are\n great!""#))),
        "Newlines are\n great!"
    );
    assert_eq!(
        value_of(escaped_string(Input::new(r#""So is /😂\\""#))),
        "So is /😂\\"
    );
    assert_eq!(
        value_of(escaped_string(Input::new(r#""So is \u{00AC}""#))),
        "So is \u{00AC}"
    );
}

#[test]
fn tests_structs() {
    assert_eq!(
        value_of(tagged(Input::new("Pos(x:-3,y:4)"))),
        Struct::new_tagged("Pos", pos_fields())
    );
    assert_eq!(
        value_of(tagged(Input::new("Pos(x:-3,y:4,)"))),
        Struct::new_tagged("Pos", pos_fields())
    );
    assert_eq!(
        value_of(tagged(Input::new("Pos(x:-3,y:4,  )"))),
        Struct::new_tagged("Pos", pos_fields())
    );
    assert_eq!(
        value_of(tagged(Input::new("Pos  (\tx: -3, y       : 4\n\n)"))),
        Struct::new_tagged("Pos", pos_fields())
    );
}

#[test]
fn tests_trailing_commas() {
    let input = "Transform(pos: 5,)";
    assert_eq!(
        value_of(tagged(Input::new(input))),
        Struct::new_tagged("Transform", vec![("pos", UnsignedInteger::new(5).to_expr())])
    );
}

#[test]
fn tests_untagged_structs() {
    assert_eq!(
        value_of(untagged_struct(Input::new("(x:-3,y:4)"))),
        Struct::new_test(pos_fields())
    );
    assert_eq!(
        value_of(untagged_struct(Input::new("(x:-3,y:4,)"))),
        Struct::new_test(pos_fields())
    );
    assert_eq!(
        value_of(untagged_struct(Input::new("(x:-3,y:4,  )"))),
        Struct::new_test(pos_fields())
    );
    assert_eq!(
        value_of(untagged_struct(Input::new("(\t  x: -3, y       : 4\n\n)"))),
        Struct::new_test(pos_fields())
    );
}

#[test]
fn trailing_commas() {
    let input = "Transform(pos: 5,)";
    assert_eq!(
        value_of(tagged(Input::new(input))),
        Struct::new_tagged("Transform", vec![("pos", UnsignedInteger::new(5).to_expr())])
    );
}

#[test]
fn untagged_structs() {
    assert_eq!(
        value_of(untagged_struct(Input::new("(x:-3,y:4)"))),
        Struct::new_test(pos_fields())
    );
    assert_eq!(
        value_of(untagged_struct(Input::new("(x:-3,y:4,)"))),
        Struct::new_test(pos_fields())
    );
    assert_eq!(
        value_of(untagged_struct(Input::new("(x:-3,y:4,  )"))),
        Struct::new_test(pos_fields())
    );
    assert_eq!(
        value_of(untagged_struct(Input::new("(\t  x: -3, y       : 4\n\n)"))),
        Struct::new_test(pos_fields())
    );
}
