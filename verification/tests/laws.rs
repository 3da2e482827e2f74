use ron_reboot::ast;
use ron_reboot::utf8_parser::ast_from_str;
use ron_reboot::utf8_parser::basic::{block_comment, multispacews0};
use ron_reboot::utf8_parser::combinators::ws;
use ron_reboot::utf8_parser::primitive::ident::ident;
use ron_reboot::utf8_parser::containers::{list, tagged};
use ron_reboot::utf8_parser::error::{
    BaseErrorKind, ErrorTree, Expectation, InputParseErr,
};
use ron_reboot::utf8_parser::input::Input;
use ron_reboot::utf8_parser::primitive::escaped_string;
use ron_reboot::utf8_parser::primitive::raw_str::parse_raw_string;
use ron_reboot::utf8_parser::primitive::string::parse_escaped_whitespace;
use ron_reboot::utf8_parser::pt::{Decimal, Expr, Integer, List, UnsignedInteger};
use ron_reboot::utf8_parser::ron::{expr, ron};
use ron_reboot::utf8_parser::IResultLookahead;
use ron_reboot::Location;

fn parsed<T>(r: IResultLookahead<T>) -> T {
    match r {
        Ok(ok) => ok.parsed,
        Err(e) => panic!("{:?}", e),
    }
}

fn one_two() -> List<'static> {
    List::new_test(vec![
        UnsignedInteger::new(1).to_expr(),
        UnsignedInteger::new(2).to_expr(),
    ])
}

#[test]
fn zero_is_an_unsigned_integer() {
    assert_eq!(
        ron("0").unwrap().expr.value,
        Expr::Integer(Integer::new_test(None, 0))
    );
    assert_eq!(
        ron("0x0").unwrap().expr.value,
        Expr::Integer(Integer::new_test(None, 0))
    );
}

#[test]
fn leading_zeros_are_refused() {
    assert!(ron("007").is_err());
    assert!(ast_from_str("007").is_err());
}

#[test]
fn a_decimal_may_start_with_zero() {
    assert_eq!(
        ron("0.5").unwrap().expr.value,
        Expr::Decimal(Decimal::new(None, Some(0), 5, 1, None))
    );
}

#[test]
fn trailing_commas_change_nothing() {
    assert_eq!(parsed(list(Input::new("[1, 2]"))), one_two());
    assert_eq!(parsed(list(Input::new("[1, 2,]"))), one_two());
    assert_eq!(parsed(list(Input::new("[1,2 ,]"))), one_two());
    assert_eq!(parsed(list(Input::new("[ 1 , 2 , ]"))), one_two());
}

#[test]
fn one_element_with_trailing_comma() {
    assert_eq!(
        parsed(list(Input::new("[1,]"))),
        List::new_test(vec![UnsignedInteger::new(1).to_expr()])
    );
}

#[test]
fn a_lone_comma_is_no_list() {
    assert!(list(Input::new("[,]")).is_err());
    assert!(ron("[,]").is_err());
}

#[test]
fn raw_strings_with_any_number_of_hashes() {
    assert_eq!(parsed(parse_raw_string(Input::new(r##"r"a""##))), "a");
    assert_eq!(parsed(parse_raw_string(Input::new(r###"r#"a"#"###))), "a");
    assert_eq!(parsed(parse_raw_string(Input::new(r####"r##"a"##"####))), "a");
}

#[test]
fn raw_string_closes_at_the_full_count_only() {
    assert_eq!(
        parsed(parse_raw_string(Input::new(r####"r##"a"#b"##"####))),
        r###"a"#b"###
    );
    let r = parse_raw_string(Input::new(r####"r#"a"##"####));
    let ok = r.unwrap();
    assert_eq!(ok.parsed, "a");
    assert_eq!(ok.remaining.fragment(), "#");
}

#[test]
fn raw_string_without_its_end_fails() {
    let r = parse_raw_string(Input::new(r####"r##"unterminated"#"####));
    assert!(matches!(r, Err(InputParseErr::Fatal(_))));
    assert!(ron(r####"r##"unterminated"#"####).is_err());
}

#[test]
fn nested_block_comment_is_one_comment() {
    let text = "/* outer /* inner */ still outer */";
    let ok = block_comment(Input::new(text)).unwrap();
    assert_eq!(ok.parsed.fragment(), text);
    assert!(ok.remaining.is_empty());
    let ok = multispacews0(Input::new("  /* outer /* inner */ still outer */  x")).unwrap();
    assert_eq!(ok.remaining.fragment(), "x");
}

#[test]
fn block_comment_without_end_is_fatal() {
    let r = block_comment(Input::new("/* outer /* inner */ still outer"));
    match r {
        Err(InputParseErr::Fatal(ErrorTree::Base { location, kind })) => {
            assert_eq!(kind, BaseErrorKind::Expected(Expectation::BlockCommentEnd));
            assert_eq!(location.fragment(), "r");
        }
        other => panic!("{:?}", other),
    }
}

#[test]
fn missing_colon_is_fatal_where_the_colon_should_be() {
    let r = expr(Input::new("Transform(pos 5)"));
    match r {
        Err(InputParseErr::Fatal(tree)) => {
            assert!(tree.is_wf());
            let at = tree.max_location();
            assert_eq!(at.fragment(), "5)");
            assert_eq!(at.location(), Location { line: 1, column: 15 });
        }
        other => panic!("{:?}", other),
    }
}

#[test]
fn missing_colon_error_points_at_the_place() {
    let e = ast_from_str("Transform(pos 5)").unwrap_err();
    assert_eq!(e.start(), Some(Location { line: 1, column: 15 }));
    assert_eq!(e.end(), Some(Location { line: 1, column: 16 }));
}

#[test]
fn the_whole_input_has_to_be_read() {
    let r = ron("true extra");
    match r {
        Err(ErrorTree::Base { location, kind }) => {
            assert_eq!(kind, BaseErrorKind::Expected(Expectation::Eof));
            assert_eq!(location.fragment(), "extra");
        }
        other => panic!("{:?}", other),
    }
    assert!(ron("true").is_ok());
    assert!(ron("  true  ").is_ok());
}

#[test]
fn blanks_and_comments_change_no_tree() {
    let a = parsed(tagged(Input::new("Pos(x:-3,y:4)")));
    let b = parsed(tagged(Input::new("Pos  (\tx: -3, y : 4\n\n)")));
    assert_eq!(a, b);
    let c = parsed(tagged(Input::new(
        "Pos /* the tag */ ( // the fields\n x: -3, /* here */ y : 4 )",
    )));
    assert_eq!(a, c);
    let x = ast_from_str("Pos(x:-3,y:4)").unwrap();
    let y = ast_from_str(" Pos  (\tx: -3, y : 4\n\n) // done").unwrap();
    assert_eq!(x, y);
}

#[test]
fn unicode_escape_names_one_character() {
    assert_eq!(
        parsed(escaped_string(Input::new(r#""\u{1F913}""#))),
        "\u{1F913}"
    );
    assert_eq!(
        parsed(escaped_string(Input::new(r#""\u{1F913}""#)))
            .chars()
            .count(),
        1
    );
}

#[test]
fn escape_letters_name_their_characters() {
    assert_eq!(parsed(escaped_string(Input::new(r#""\n""#))), "\n");
    assert_eq!(parsed(escaped_string(Input::new(r#""\t""#))), "\t");
    assert_eq!(parsed(escaped_string(Input::new(r#""\\""#))), "\\");
    assert_eq!(parsed(escaped_string(Input::new(r#""\"""#))), "\"");
    assert_eq!(parsed(escaped_string(Input::new(r#""\r""#))), "\r");
    assert_eq!(parsed(escaped_string(Input::new(r#""\b""#))), "\u{08}");
    assert_eq!(parsed(escaped_string(Input::new(r#""\f""#))), "\u{0C}");
    assert_eq!(parsed(escaped_string(Input::new(r#""\/""#))), "/");
}

#[test]
fn escaped_blanks_add_nothing() {
    assert_eq!(
        parsed(escaped_string(Input::new("\"a\\   \n\t  b\""))),
        "ab"
    );
    assert_eq!(parsed(escaped_string(Input::new("\"\\ \""))), "");
    let ok = parse_escaped_whitespace(Input::new("\\ \n x")).unwrap();
    assert_eq!(ok.remaining.fragment(), "x");
}

#[test]
fn document_becomes_a_tree_with_lines_and_columns() {
    let doc = ast_from_str("#![enable(implicit_some)]\n[Some(1), None]").unwrap();
    assert_eq!(doc.attributes.len(), 1);
    assert_eq!(doc.expr.start, Location { line: 2, column: 1 });
    match &doc.expr.value {
        ast::Expr::List(l) => {
            assert_eq!(l.elements.len(), 2);
            assert_eq!(l.elements[0].start, Location { line: 2, column: 2 });
            match &l.elements[0].value {
                ast::Expr::Optional(Some(inner)) => {
                    assert_eq!(inner.value, ast::Expr::Integer(Integer::new_test(None, 1)));
                }
                other => panic!("{:?}", other),
            }
            assert_eq!(l.elements[1].value, ast::Expr::Optional(None));
        }
        other => panic!("{:?}", other),
    }
}

#[test]
fn deep_nesting_is_read_up_to_the_limit() {
    let depth = ron_reboot::utf8_parser::ron::MAX_DEPTH;
    let text = format!("{}1{}", "[".repeat(depth - 1), "]".repeat(depth - 1));
    assert!(ron(&text).is_ok());
    let text = format!("{}{}", "(".repeat(depth - 1), ")".repeat(depth - 1));
    assert!(ron(&text).is_ok());
}

#[test]
fn too_deep_nesting_fails_and_does_not_crash() {
    let depth = ron_reboot::utf8_parser::ron::MAX_DEPTH;
    let text = format!("{}1{}", "[".repeat(depth), "]".repeat(depth));
    match expr(Input::new(&text)) {
        Err(InputParseErr::Fatal(tree)) => match tree {
            ErrorTree::Stack { base, finalized, .. } => {
                assert!(finalized);
                match *base {
                    ErrorTree::Base { location, kind } => {
                        assert_eq!(kind, BaseErrorKind::Expected(Expectation::Nesting));
                        assert_eq!(location.offset, depth);
                    }
                    other => panic!("{:?}", other),
                }
            }
            other => panic!("{:?}", other),
        },
        other => panic!("{:?}", other.map(|ok| ok.remaining)),
    }
    let text = format!("{}1{}", "[".repeat(100_000), "]".repeat(100_000));
    assert!(ron(&text).is_err());
    let text = format!("{}", "A(a:".repeat(50_000));
    assert!(ast_from_str(&text).is_err());
    assert_eq!(
        Expectation::Nesting.to_string(),
        "an expression that is nested less deeply"
    );
}

#[test]
fn blanks_are_read_once_and_for_all() {
    let text = " \t/* a /* b */ c */\n// d\n  x // e";
    let first = multispacews0(Input::new(text)).unwrap();
    assert_eq!(first.remaining.fragment(), "x // e");
    let again = multispacews0(first.remaining).unwrap();
    assert_eq!(again.remaining, first.remaining);
}

#[test]
fn leading_blanks_change_nothing_for_a_parser_between_blanks() {
    let text = " /* a */ // b\n  name /* c */ rest";
    let whole = Input::new(text);
    let skipped = multispacews0(whole).unwrap().remaining;
    assert_eq!(skipped.fragment(), "name /* c */ rest");
    let a = ws(ident, whole).unwrap();
    let b = ws(ident, skipped).unwrap();
    assert_eq!(a.parsed, b.parsed);
    assert_eq!(a.remaining, b.remaining);
    assert_eq!(a.remaining.fragment(), "rest");
    let failing = " /* a */ 1";
    let whole = Input::new(failing);
    let skipped = multispacews0(whole).unwrap().remaining;
    let a = format!("{:?}", ws(ident, whole).unwrap_err());
    let b = format!("{:?}", ws(ident, skipped).unwrap_err());
    assert_eq!(a, b);
}

#[test]
fn every_failure_of_a_document_names_a_place() {
    for text in [
        "", "(", ")", "[1, 2", "{1: }", "Pos(x 3)", "\"open", "r#\"open\"", "/* open", "01",
        "#![enable(a b)] 1", "1 2", "'ab'", "0x", "(x: 1, y)", "Some(", "\"\\q\"", "- 1",
    ] {
        let err = ast_from_str(text).unwrap_err();
        let start = err.start().unwrap_or_else(|| panic!("no place for {:?}", text));
        let end = err.end().unwrap();
        assert!(start.line >= 1 && start.column >= 1, "{:?}", text);
        assert_eq!(end.line, start.line, "{:?}", text);
        assert_eq!(end.column, start.column + 1, "{:?}", text);
        let tree = ron(text).unwrap_err();
        assert!(tree.is_wf(), "{:?}", text);
        assert_eq!(tree.max_location().location(), start, "{:?}", text);
    }
}
