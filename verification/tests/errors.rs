use ron_reboot::error::{error_report, ErrorContext, ErrorKind};
use ron_reboot::print_opt::PrintOpt;
use ron_reboot::utf8_parser::ast_from_str;
use ron_reboot::utf8_parser::basic::{one_char, one_of_chars, one_of_tags, tag};
use ron_reboot::utf8_parser::combinators::{
    alt2, block, context, context_final, cut, fold_many0, lookahead, many0, map_res, opt, pair,
    recognize, take1_if, take_until, take_while1,
};
use ron_reboot::utf8_parser::error::{
    BaseErrorKind, ConversionError, ErrorTree, Expectation, InputParseErr, StackContext,
};
use ron_reboot::utf8_parser::error_fmt::ErrorTreeFmt;
use ron_reboot::utf8_parser::input::{Input, Offset};
use ron_reboot::utf8_parser::ok::IOk;
use ron_reboot::utf8_parser::primitive::ident::ident;
use ron_reboot::utf8_parser::primitive::number::{
    decimal, decimal_unsigned, parse_u64_dec, parse_u64_radix, unsigned_integer,
};
use ron_reboot::utf8_parser::primitive::raw_str::parse_raw_string;
use ron_reboot::utf8_parser::primitive::string::parse_unicode;
use ron_reboot::utf8_parser::primitive::{bool, escaped_string};
use ron_reboot::utf8_parser::pt::Decimal;
use ron_reboot::utf8_parser::ron::{attribute, expr, ron};
use ron_reboot::utf8_parser::util::{base_err, base_err_res};
use ron_reboot::utf8_parser::IResultLookahead;
use ron_reboot::util::{decimal_string, hex_string, indent, join, line_of, write_pretty_list};
use ron_reboot::{Error, Location};

fn base_of<T: std::fmt::Debug>(r: IResultLookahead<T>) -> (bool, usize, BaseErrorKind) {
    match r {
        Err(InputParseErr::Fatal(ErrorTree::Base { location, kind })) => {
            (true, location.offset, kind)
        }
        Err(InputParseErr::Recoverable(ErrorTree::Base { location, kind })) => {
            (false, location.offset, kind)
        }
        other => panic!("{:?}", other),
    }
}

fn letter_a<'a>(input: Input<'a>) -> IResultLookahead<'a, char> {
    lookahead(|i| one_char('a', i), input)
}

fn letter_b<'a>(input: Input<'a>) -> IResultLookahead<'a, char> {
    lookahead(|i| one_char('b', i), input)
}

fn letter_c<'a>(input: Input<'a>) -> IResultLookahead<'a, char> {
    lookahead(|i| one_char('c', i), input)
}

#[test]
fn tag_fails_fatally_at_the_input() {
    assert_eq!(
        base_of(tag("enable", Input::new("enabel"))),
        (true, 0, BaseErrorKind::Expected(Expectation::Tag("enable")))
    );
    let ok = tag("enable", Input::new("enable(")).unwrap();
    assert_eq!(ok.parsed.fragment(), "enable");
    assert_eq!(ok.remaining.fragment(), "(");
}

#[test]
fn one_char_reads_any_character() {
    let ok = one_char('ä', Input::new("äb")).unwrap();
    assert_eq!(ok.parsed, 'ä');
    assert_eq!(ok.remaining.fragment(), "b");
    assert_eq!(ok.remaining.offset(), Offset::Absolute(2));
    assert_eq!(
        base_of(one_char(':', Input::new("5)"))),
        (true, 0, BaseErrorKind::Expected(Expectation::Char(':')))
    );
    assert_eq!(
        base_of(one_char(':', Input::new(""))),
        (true, 0, BaseErrorKind::Expected(Expectation::Char(':')))
    );
}

#[test]
fn one_of_chars_gives_the_value_at_the_place() {
    assert_eq!(
        one_of_chars("box", &[2, 8, 16], Input::new("x1")).unwrap().parsed,
        16
    );
    assert_eq!(
        base_of(one_of_chars("box", &[2, 8, 16], Input::new("d"))),
        (true, 0, BaseErrorKind::Expected(Expectation::OneOfChars("box")))
    );
}

#[test]
fn one_of_tags_takes_the_first_that_fits() {
    assert_eq!(
        one_of_tags(&["a", "ab"], &[1, 2], Input::new("abc"))
            .unwrap()
            .remaining
            .fragment(),
        "bc"
    );
    assert_eq!(
        base_of(bool(Input::new("maybe")).map(|ok| ok.parsed).map_err(|e| match e {
            InputParseErr::Fatal(ErrorTree::Stack { base, .. }) => InputParseErr::Fatal(*base),
            other => other,
        }).map(|b| IOk::from((Input::new(""), b)))),
        (
            true,
            0,
            BaseErrorKind::Expected(Expectation::OneOfTags(&["true", "false"]))
        )
    );
}

#[test]
fn numbers_that_are_no_numbers() {
    assert_eq!(parse_u64_dec(Input::new("18446744073709551615")).unwrap(), u64::MAX);
    match parse_u64_dec(Input::new("18446744073709551616")) {
        Err(InputParseErr::Fatal(ErrorTree::Base { kind, .. })) => {
            assert_eq!(kind, BaseErrorKind::External(ConversionError::PosOverflow))
        }
        other => panic!("{:?}", other),
    }
    match parse_u64_dec(Input::new("")) {
        Err(InputParseErr::Fatal(ErrorTree::Base { kind, .. })) => {
            assert_eq!(kind, BaseErrorKind::External(ConversionError::Empty))
        }
        other => panic!("{:?}", other),
    }
    match parse_u64_radix((2, Input::new("0121"))) {
        Err(InputParseErr::Fatal(ErrorTree::Base { kind, .. })) => {
            assert_eq!(kind, BaseErrorKind::External(ConversionError::InvalidDigit))
        }
        other => panic!("{:?}", other),
    }
    assert_eq!(parse_u64_radix((16, Input::new("fF"))).unwrap(), 255);
    assert_eq!(parse_u64_radix((8, Input::new("777"))).unwrap(), 511);
    assert_eq!(parse_u64_radix((36, Input::new("z"))).unwrap(), 35);
}

#[test]
fn unsigned_integer_stops_behind_a_leading_zero() {
    let ok = unsigned_integer(Input::new("007")).unwrap();
    assert_eq!(ok.parsed.number, 0);
    assert_eq!(ok.remaining.fragment(), "07");
    assert!(matches!(
        unsigned_integer(Input::new("0x")),
        Err(InputParseErr::Fatal(_))
    ));
    assert!(matches!(
        unsigned_integer(Input::new("0b12")),
        Err(InputParseErr::Fatal(_))
    ));
    assert_eq!(unsigned_integer(Input::new("0b0101")).unwrap().parsed.number, 5);
    assert_eq!(decimal_unsigned(Input::new("0012x")).unwrap().parsed, 12);
}

#[test]
fn decimals_keep_their_digits() {
    assert_eq!(
        decimal(Input::new(".01")).unwrap().parsed,
        Decimal::new(None, None, 1, 2, None)
    );
    assert_eq!(
        decimal(Input::new("-.5")).unwrap().parsed,
        Decimal::new(
            Some(ron_reboot::utf8_parser::pt::Sign::Negative),
            None,
            5,
            1,
            None
        )
    );
    assert_eq!(
        decimal(Input::new("1.5e70000")).unwrap().parsed,
        Decimal::new(None, Some(1), 5, 1, Some((None, 4464)))
    );
    assert!(matches!(decimal(Input::new("12")), Err(InputParseErr::Recoverable(_))));
    assert!(matches!(decimal(Input::new("1.")), Err(InputParseErr::Fatal(_))));
}

#[test]
fn unicode_escapes_that_name_no_character() {
    match parse_unicode(Input::new("u{D800}")) {
        Err(InputParseErr::Fatal(ErrorTree::Base { location, kind })) => {
            assert_eq!(location.offset, 0);
            assert_eq!(
                kind,
                BaseErrorKind::Expected(Expectation::UnicodeHexSequence { got: 0xD800 })
            );
        }
        other => panic!("{:?}", other),
    }
    assert!(matches!(
        parse_unicode(Input::new("u{110000}")),
        Err(InputParseErr::Fatal(_))
    ));
    assert!(matches!(
        parse_unicode(Input::new("u{}")),
        Err(InputParseErr::Fatal(_))
    ));
    assert!(matches!(
        parse_unicode(Input::new("x")),
        Err(InputParseErr::Recoverable(_))
    ));
    assert_eq!(parse_unicode(Input::new("u{41}")).unwrap().parsed, 'A');
    assert_eq!(parse_unicode(Input::new("u{10FFFF}")).unwrap().parsed, '\u{10FFFF}');
    assert!(escaped_string(Input::new(r#""\q""#)).is_err());
    assert!(escaped_string(Input::new(r#""never closed"#)).is_err());
}

#[test]
fn raw_identifier_needs_a_character() {
    assert!(matches!(ident(Input::new("r#")), Err(InputParseErr::Fatal(_))));
    assert!(matches!(ident(Input::new("r# x")), Err(InputParseErr::Fatal(_))));
    assert_eq!(ident(Input::new("r")).unwrap().parsed.0, "r");
}

#[test]
fn alternatives_are_joined_without_nesting() {
    let r = alt2(
        |i| alt2(letter_a, letter_b, i),
        letter_c,
        Input::new("x"),
    );
    match r {
        Err(InputParseErr::Recoverable(ErrorTree::Alt(v))) => {
            assert_eq!(v.len(), 3);
            let kinds: Vec<BaseErrorKind> = v
                .into_iter()
                .map(|t| match t {
                    ErrorTree::Base { kind, .. } => kind,
                    other => panic!("{:?}", other),
                })
                .collect();
            assert_eq!(
                kinds,
                vec![
                    BaseErrorKind::Expected(Expectation::Char('a')),
                    BaseErrorKind::Expected(Expectation::Char('b')),
                    BaseErrorKind::Expected(Expectation::Char('c')),
                ]
            );
        }
        other => panic!("{:?}", other),
    }
    let r = alt2(letter_a, |i| alt2(letter_b, letter_c, i), Input::new("x"));
    match r {
        Err(InputParseErr::Recoverable(ErrorTree::Alt(v))) => {
            let kinds: Vec<BaseErrorKind> = v
                .into_iter()
                .map(|t| match t {
                    ErrorTree::Base { kind, .. } => kind,
                    other => panic!("{:?}", other),
                })
                .collect();
            assert_eq!(
                kinds,
                vec![
                    BaseErrorKind::Expected(Expectation::Char('b')),
                    BaseErrorKind::Expected(Expectation::Char('c')),
                    BaseErrorKind::Expected(Expectation::Char('a')),
                ]
            );
        }
        other => panic!("{:?}", other),
    }
}

#[test]
fn a_fatal_failure_ends_the_alternation() {
    let r = alt2(|i| one_char('a', i), letter_b, Input::new("b"));
    assert_eq!(
        base_of(r),
        (true, 0, BaseErrorKind::Expected(Expectation::Char('a')))
    );
    let r = alt2(letter_a, |i| one_char('b', i), Input::new("x"));
    assert!(matches!(r, Err(InputParseErr::Fatal(ErrorTree::Alt(_)))));
    assert_eq!(alt2(letter_a, letter_b, Input::new("b")).unwrap().parsed, 'b');
}

#[test]
fn cut_and_lookahead_change_the_severity_only() {
    assert_eq!(
        base_of(cut(letter_a, Input::new("x"))),
        (true, 0, BaseErrorKind::Expected(Expectation::Char('a')))
    );
    assert_eq!(
        base_of(lookahead(|i| one_char('a', i), Input::new("x"))),
        (false, 0, BaseErrorKind::Expected(Expectation::Char('a')))
    );
    let ok = lookahead(|i| one_char('a', i), Input::new("ab")).unwrap();
    assert_eq!(ok.remaining.fragment(), "b");
}

#[test]
fn opt_sets_the_failure_aside() {
    let ok = opt(letter_a, Input::new("x")).unwrap();
    assert_eq!(ok.parsed, None);
    assert_eq!(ok.remaining.fragment(), "x");
    assert!(matches!(
        ok.discarded_error,
        Some(ErrorTree::Base { kind: BaseErrorKind::Expected(Expectation::Char('a')), .. })
    ));
    assert_eq!(opt(letter_a, Input::new("a")).unwrap().parsed, Some('a'));
    assert!(opt(|i| one_char('a', i), Input::new("x")).is_err());
}

#[test]
fn the_deeper_failure_that_was_set_aside_stays() {
    let ok = pair(
        |i| opt(letter_a, i),
        |i| pair(letter_b, |j| opt(letter_c, j), i),
        Input::new("bx"),
    )
    .unwrap();
    match ok.discarded_error {
        Some(ErrorTree::Base { location, kind }) => {
            assert_eq!(location.offset, 1);
            assert_eq!(kind, BaseErrorKind::Expected(Expectation::Char('c')));
        }
        other => panic!("{:?}", other),
    }
    let first = IOk::from((Input::new("x"), 1)).prepend_err(Some(ErrorTree::expected(
        Input::new("ab").skip(1),
        Expectation::Alpha,
    )));
    let kept = first.prepend_err(Some(ErrorTree::expected(Input::new("ab"), Expectation::Digit)));
    assert!(matches!(
        kept.discarded_error,
        Some(ErrorTree::Base { kind: BaseErrorKind::Expected(Expectation::Alpha), .. })
    ));
    let same = IOk::from((Input::new("x"), 1))
        .prepend_err(Some(ErrorTree::expected(Input::new("ab"), Expectation::Alpha)))
        .prepend_err(Some(ErrorTree::expected(Input::new("ab"), Expectation::Digit)));
    assert!(matches!(
        same.discarded_error,
        Some(ErrorTree::Base { kind: BaseErrorKind::Expected(Expectation::Digit), .. })
    ));
    assert!(same.forget_err().discarded_error.is_none());
}

#[test]
fn context_labels_stack_until_one_is_final() {
    let r = context(
        "outer",
        |i| context_final("middle", true, |j| context("inner", letter_a, j), i),
        Input::new("x"),
    );
    match r {
        Err(InputParseErr::Recoverable(ErrorTree::Stack { base, finalized, contexts })) => {
            assert!(finalized);
            assert!(matches!(*base, ErrorTree::Base { .. }));
            let labels: Vec<StackContext> = contexts.into_iter().map(|c| c.1).collect();
            assert_eq!(
                labels,
                vec![StackContext::Context("inner"), StackContext::Context("middle")]
            );
        }
        other => panic!("{:?}", other),
    }
    assert_eq!(context("x", letter_a, Input::new("a")).unwrap().parsed, 'a');
}

#[test]
fn repetition_ends_at_the_first_recoverable_failure() {
    let ok = many0(letter_a, Input::new("aaab")).unwrap();
    assert_eq!(ok.parsed, vec!['a', 'a', 'a']);
    assert_eq!(ok.remaining.fragment(), "b");
    assert!(ok.discarded_error.is_some());
    assert!(many0(|i| one_char('a', i), Input::new("aab")).is_err());
    let ok = fold_many0(letter_a, || 0usize, |n, _| n + 1, Input::new("aaax")).unwrap();
    assert_eq!(ok.parsed, 3);
    assert_eq!(ok.remaining.fragment(), "x");
}

#[test]
fn take_until_reads_up_to_the_match() {
    let ok = take_until(|i| lookahead(|j| tag("*/", j), i), Input::new("a*b*/c")).unwrap();
    assert_eq!(ok.parsed.fragment(), "a*b");
    assert_eq!(ok.remaining.fragment(), "c");
    assert!(matches!(
        take_until(|i| lookahead(|j| tag("*/", j), i), Input::new("abc")),
        Err(InputParseErr::Recoverable(_))
    ));
    assert!(matches!(
        take_until(|i| tag("*/", i), Input::new("abc")),
        Err(InputParseErr::Fatal(_))
    ));
}

#[test]
fn take1_if_and_take_while1_need_a_character() {
    assert_eq!(
        base_of(take1_if(|c| c == 'a', Expectation::Alpha, Input::new("b"))),
        (true, 0, BaseErrorKind::Expected(Expectation::Alpha))
    );
    assert_eq!(
        base_of(take_while1(|c| c == 'a', Expectation::Digit, Input::new("b"))),
        (true, 0, BaseErrorKind::Expected(Expectation::Digit))
    );
    let ok = take_while1(|c| c != 'x', Expectation::Digit, Input::new("äöx")).unwrap();
    assert_eq!(ok.parsed.fragment(), "äö");
    assert_eq!(ok.parsed.len(), 4);
    let ok = recognize(|i| pair(letter_a, letter_b, i), Input::new("abc")).unwrap();
    assert_eq!(ok.parsed.fragment(), "ab");
}

#[test]
fn block_gives_the_failure_that_was_set_aside() {
    let r = block('(', |i| many0(letter_a, i), ')', Input::new("(aab)"));
    assert_eq!(
        base_of(r),
        (false, 3, BaseErrorKind::Expected(Expectation::Char('a')))
    );
    let r = block('(', letter_a, ')', Input::new("(ab"));
    assert_eq!(
        base_of(r),
        (true, 2, BaseErrorKind::Expected(Expectation::Char(')')))
    );
    let r = block('(', letter_a, ')', Input::new("[a]"));
    assert_eq!(
        base_of(r),
        (false, 0, BaseErrorKind::Expected(Expectation::Char('(')))
    );
    let ok = block('(', |i| many0(letter_a, i), ')', Input::new("(aa)x")).unwrap();
    assert_eq!(ok.parsed, vec!['a', 'a']);
    assert!(ok.discarded_error.is_none());
}

#[test]
fn conversion_failures_end_the_parse() {
    let r = map_res(
        |i| tag("x", i),
        |m| base_err_res::<u8>(m, Expectation::Digit),
        Input::new("xy"),
    );
    assert_eq!(
        base_of(r),
        (true, 0, BaseErrorKind::Expected(Expectation::Digit))
    );
    assert_eq!(
        base_of(base_err::<u8>(Input::new("a"), Expectation::Space)),
        (true, 0, BaseErrorKind::Expected(Expectation::Space))
    );
}

#[test]
fn unknown_extension_is_an_error() {
    assert!(attribute(Input::new("#![enable(implicit_none)]")).is_err());
    assert!(ron("#![enable(implicit_none)] 1").is_err());
    assert!(ron("#![enable(implicit_some, unwrap_newtypes,)] 1").is_ok());
    assert!(matches!(
        attribute(Input::new("[1]")),
        Err(InputParseErr::Recoverable(_))
    ));
}

#[test]
fn expectations_as_text() {
    assert_eq!(Expectation::Alpha.to_string(), "an ascii letter");
    assert_eq!(Expectation::Digit.to_string(), "an ascii digit");
    assert_eq!(Expectation::DigitFirst.to_string(), "a non-zero ascii digit [1-9]");
    assert_eq!(Expectation::HexDigit.to_string(), "a hexadecimal digit");
    assert_eq!(Expectation::OctDigit.to_string(), "an octal digit");
    assert_eq!(
        Expectation::AlphaNumeric.to_string(),
        "an ascii alphanumeric character"
    );
    assert_eq!(Expectation::Space.to_string(), "a space or tab");
    assert_eq!(Expectation::Multispace.to_string(), "whitespace");
    assert_eq!(
        Expectation::BlockCommentEnd.to_string(),
        "end of block comment (`*/`)"
    );
    assert_eq!(Expectation::Eof.to_string(), "eof");
    assert_eq!(Expectation::CrLf.to_string(), "CRLF");
    assert_eq!(Expectation::Something.to_string(), "not eof");
    assert_eq!(
        Expectation::RawStringEnd.to_string(),
        "closing raw string sequence"
    );
    assert_eq!(
        Expectation::UnicodeHexSequence { got: 0xD800 }.to_string(),
        "a valid unicode hex sequence (got 0xD800)"
    );
    assert_eq!(Expectation::Tag("a\"b").to_string(), "\"a\\\"b\"");
    assert_eq!(Expectation::Char('\n').to_string(), "'\\n'");
    assert_eq!(Expectation::OneOfChars("").to_string(), "<empty list>");
    assert_eq!(Expectation::OneOfChars("+").to_string(), "'+'");
    assert_eq!(Expectation::OneOfChars("+-").to_string(), "one of '+' or '-'");
    assert_eq!(
        Expectation::OneOfChars("box").to_string(),
        "one of 'b', 'o' or 'x'"
    );
    assert_eq!(
        Expectation::OneOfTags(&["true", "false"]).to_string(),
        "one of \"true\" or \"false\""
    );
    assert_eq!(
        Expectation::OneOfExpectations(&[Expectation::Alpha, Expectation::Char('_')])
            .to_string(),
        "one of an ascii letter or '_'"
    );
    assert_eq!(
        Expectation::OneOfExpectations(&[Expectation::Alpha]).to_string_depth(0),
        "..."
    );
    assert_eq!(
        BaseErrorKind::Expected(Expectation::Eof).to_string(),
        "expected eof"
    );
    assert_eq!(
        BaseErrorKind::External(ConversionError::PosOverflow).to_string(),
        "external error:\n    number too large to fit in target type"
    );
    assert_eq!(
        ConversionError::Empty.to_string(),
        "cannot parse integer from empty string"
    );
    assert_eq!(
        ConversionError::InvalidDigit.to_string(),
        "invalid digit found in string"
    );
    assert_eq!(
        StackContext::Context("struct").to_string(),
        "could not match \"struct\""
    );
}

#[test]
fn text_helpers() {
    assert_eq!(decimal_string(0), "0");
    assert_eq!(decimal_string(1234567890), "1234567890");
    assert_eq!(decimal_string(u64::MAX), "18446744073709551615");
    assert_eq!(hex_string(0), "0");
    assert_eq!(hex_string(0x1F913), "1F913");
    assert_eq!(write_pretty_list(&vec![]), "<empty list>");
    assert_eq!(
        write_pretty_list(&vec!["a".to_owned(), "b".to_owned(), "c".to_owned(), "d".to_owned()]),
        "one of a, b, c or d"
    );
    assert_eq!(join(&vec!["a".to_owned(), "b".to_owned()], " or\n"), "a or\nb");
    assert_eq!(join(&vec![], ", "), "");
    assert_eq!(indent("a\n\nb\n".to_owned()).to_string(), "    a\n\n    b\n");
    assert_eq!(indent(String::new()).to_string(), "");
    assert_eq!(indent("\n".to_owned()).to_string(), "\n");
    assert_eq!(line_of("a\nb\r\nc", 0), "a");
    assert_eq!(line_of("a\nb\r\nc", 1), "b");
    assert_eq!(line_of("a\nb\r\nc", 2), "c");
    assert_eq!(line_of("a\nb\r\nc", 3), "");
    assert_eq!(line_of("a\r", 0), "a\r");
    assert_eq!(Location { line: 12, column: 7 }.to_string(), "12:7");
}

#[test]
fn error_tree_as_text() {
    let e = ron("true extra").unwrap_err();
    assert_eq!(ErrorTreeFmt::new(&e).to_string(), "expected eof at 1:6");
    assert_eq!(e.to_string(), "expected eof at 1:6 (`e`)");
    let e = ron("true").map(|_| ()).unwrap();
    assert_eq!(e, ());
    let r = expr(Input::new("Transform(pos 5)")).unwrap_err();
    assert_eq!(
        r.to_string(),
        r#"could not match "expression" at 1:1 (`T`) because
could not match "tagged expr" at 1:1 (`T`) because
    none of these matched:
        could not match "struct" at 1:10 (`(`) because
            expected ':' at 1:15 (`5`) or
        could not match "tuple" at 1:10 (`(`) because
            expected ',' at 1:15 (`5`)"#
    );
}

#[test]
fn a_final_label_hides_the_labels_above() {
    let err = expr(Input::new(
        r#"Example(
    xyz: Asdf(
        x: 4, yalala: !
    ),
)"#,
    ))
    .unwrap_err();
    assert_eq!(
        format!("{}", err.to_string()),
        r#"could not match "expression" at 3:23 (`!`) because
    none of these matched:
        expected 'r' at 3:23 (`!`) or
        expected one of an ascii letter or '_' at 3:23 (`!`) or
        expected one of '(', '{', '"', '[', 't', 'f', '+', '-', '.', '0', '1', '2', '3', '4', '5', '6', '7', '8' or '9' at 3:23 (`!`)"#
    );
}

#[test]
fn error_of_a_document() {
    let e = ast_from_str("Transform(pos 5)").unwrap_err();
    let tree = r#"could not match "expression" at 1:1 because
could not match "tagged expr" at 1:1 because
    none of these matched:
        could not match "struct" at 1:10 because
            expected ':' at 1:15 or
        could not match "tuple" at 1:10 because
            expected ',' at 1:15"#;
    assert_eq!(e.kind, ErrorKind::ParseError(tree.to_owned()));
    assert_eq!(
        e.to_string(),
        format!("error at 1:15: parsing error: {}", tree)
    );
    assert_eq!(
        error_report(&e),
        format!("error at 1:15: parsing error: {}\n", tree)
    );
    let e = e
        .context_file_content("Transform(pos 5)".to_owned())
        .context_file_content("other".to_owned());
    assert_eq!(
        error_report(&e),
        format!(
            "error: parsing error: {}\n --> string:1:15\n  |\n1 | Transform(pos 5)\n  |               ^\n  |\n",
            tree
        )
    );
    let e = e.context_file_name("a.ron".to_owned());
    assert!(error_report(&e).contains("\n --> a.ron:1:15\n"));
}

#[test]
fn report_of_a_span_over_several_lines() {
    let e = Error { kind: ErrorKind::ExpectedList, context: None }
        .context_loc(Location { line: 9, column: 3 }, Location { line: 11, column: 2 })
        .context_loc(Location { line: 1, column: 1 }, Location { line: 1, column: 1 })
        .context_file_content("1\n2\n3\n4\n5\n6\n7\n8\nnine\nten\neleven\n12".to_owned());
    assert_eq!(e.start(), Some(Location { line: 9, column: 3 }));
    assert_eq!(e.end(), Some(Location { line: 11, column: 2 }));
    assert_eq!(
        error_report(&e),
        "error: expected list\n  --> string:9:3\n   |\n 9 |   nine\n   |  __^\n10 | | ten\n11 | | eleven\n   | |_^\n   |\n"
    );
}

#[test]
fn errors_as_text() {
    assert_eq!(
        Error { kind: ErrorKind::ExpectedBool, context: None }.to_string(),
        "error: expected bool"
    );
    assert_eq!(
        Error { kind: ErrorKind::ExpectedString, context: None }.to_string(),
        "error: expected string"
    );
    assert_eq!(
        Error { kind: ErrorKind::ExpectedStrGotEscapes, context: None }.to_string(),
        "error: expected zero-copy string which doesn't support escapes"
    );
    assert_eq!(
        Error { kind: ErrorKind::Custom("mine".to_owned()), context: None }
            .context_file_name("f".to_owned())
            .to_string(),
        "error: mine"
    );
    assert_eq!(ErrorContext::default(), ErrorContext {
        start_end: None,
        file_name: None,
        file_content: None
    });
    let e = Error { kind: ErrorKind::ExpectedBool, context: None };
    assert_eq!(e.start(), None);
    assert_eq!(e.end(), None);
    assert_eq!(error_report(&e), "error: expected bool\n");
}

#[test]
fn raw_string_failures() {
    assert!(matches!(
        parse_raw_string(Input::new("\"a\"")),
        Err(InputParseErr::Recoverable(_))
    ));
    assert!(matches!(
        parse_raw_string(Input::new("r##\"a\"#")),
        Err(InputParseErr::Fatal(_))
    ));
}

#[test]
fn print_options_by_name() {
    assert_eq!(
        PrintOpt::variants(),
        [
            "pretty-errors",
            "err-status",
            "ok-status",
            "status",
            "status-and-pretty-errors"
        ]
    );
    assert_eq!(PrintOpt::from_str("pretty-errors"), Ok(PrintOpt::PrettyErrors));
    assert_eq!(PrintOpt::from_str("err-status"), Ok(PrintOpt::ErrorStatus));
    assert_eq!(PrintOpt::from_str("ok-status"), Ok(PrintOpt::OkStatus));
    assert_eq!(PrintOpt::from_str("status"), Ok(PrintOpt::Status));
    assert_eq!(
        PrintOpt::from_str("status-and-pretty-errors"),
        Ok(PrintOpt::StatusAndPrettyError)
    );
    assert_eq!(
        PrintOpt::from_str("Status"),
        Err(
            "valid values: pretty-errors, err-status, ok-status, status, status-and-pretty-errors"
                .to_owned()
        )
    );
    assert!(PrintOpt::Status.wants_ok() && PrintOpt::Status.wants_err());
    assert!(!PrintOpt::Status.wants_pretty_error());
    assert!(PrintOpt::PrettyErrors.wants_pretty_error());
    assert!(!PrintOpt::PrettyErrors.wants_ok() && !PrintOpt::PrettyErrors.wants_err());
    assert!(PrintOpt::OkStatus.wants_ok() && !PrintOpt::OkStatus.wants_err());
    assert!(PrintOpt::ErrorStatus.wants_err() && !PrintOpt::ErrorStatus.wants_ok());
    assert!(
        PrintOpt::StatusAndPrettyError.wants_ok()
            && PrintOpt::StatusAndPrettyError.wants_err()
            && PrintOpt::StatusAndPrettyError.wants_pretty_error()
    );
}
