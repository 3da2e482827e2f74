//! The error that a failed parse hands to the caller, and its text.

use vstd::prelude::*;
use vstd::std_specs::iter::IteratorSpec;
use vstd::string::StringExecFns;
use crate::location::Location;
use crate::utf8_parser::error::InputParseError;
use crate::utf8_parser::error_fmt::{as_location_text, mapped, ErrorTreeFmt};
use crate::utf8_parser::locate::low32;
use crate::util::{
    decimal_string, decimal_text, decimal_width, line_of, nth_line, repeat, repeated,
};

verus! {

/// Where an error lies: its span, and the file it was found in.
#[derive(Clone, Debug, PartialEq)]
pub struct ErrorContext {
    pub start_end: Option<(Location, Location)>,
    pub file_name: Option<String>,
    pub file_content: Option<String>,
}

impl Default for ErrorContext {
    fn default() -> (res: Self)
        ensures
            res == ErrorContext::empty(),
    {
        ErrorContext { start_end: None, file_name: None, file_content: None }
    }
}

impl ErrorContext {
    /// The context that says nothing.
    pub open spec fn empty() -> ErrorContext {
        ErrorContext { start_end: None, file_name: None, file_content: None }
    }
}

#[derive(Clone, Debug, PartialEq)]
#[non_exhaustive]
pub enum ErrorKind {
    ExpectedBool,
    ExpectedString,
    ExpectedStrGotEscapes,
    ExpectedList,
    ParseError(String),
    Custom(String),
}

impl ErrorKind {
    /// The kind of error, as text.
    pub open spec fn text(self) -> Seq<char> {
        match self {
            ErrorKind::ExpectedBool => "expected bool"@,
            ErrorKind::ExpectedStrGotEscapes =>
                "expected zero-copy string which doesn't support escapes"@,
            ErrorKind::ExpectedString => "expected string"@,
            ErrorKind::ExpectedList => "expected list"@,
            ErrorKind::ParseError(e) => "parsing error: "@ + e@,
            ErrorKind::Custom(s) => s@,
        }
    }

    /// Writes the kind of error.
    pub fn to_string(&self) -> (res: String)
        ensures
            res@ == self.text(),
    {
        match self {
            ErrorKind::ExpectedBool => String::from_str("expected bool"),
            ErrorKind::ExpectedStrGotEscapes => String::from_str(
                "expected zero-copy string which doesn't support escapes",
            ),
            ErrorKind::ExpectedString => String::from_str("expected string"),
            ErrorKind::ExpectedList => String::from_str("expected list"),
            ErrorKind::ParseError(e) => {
                let mut out = String::from_str("parsing error: ");
                out.append(e.as_str());
                out
            },
            ErrorKind::Custom(s) => s.clone(),
        }
    }
}

#[derive(Clone, Debug, PartialEq)]
pub struct Error {
    pub kind: ErrorKind,
    pub context: Option<Box<ErrorContext>>,
}

impl Error {
    /// The context of the error; the empty context where it has none.
    pub open spec fn context_or_empty(self) -> ErrorContext {
        match self.context {
            Some(c) => *c,
            None => ErrorContext::empty(),
        }
    }

    /// Set locations for this error, if they are `None`.
    /// Keeps already set locations.
    pub fn context_loc(self, start: Location, end: Location) -> (res: Self)
        ensures
            res.kind == self.kind,
            res.context matches Some(c) && *c == (ErrorContext {
                start_end: match self.context_or_empty().start_end {
                    Some(se) => Some(se),
                    None => Some((start, end)),
                },
                ..self.context_or_empty()
            }),
    {
        let Error { kind, context } = self;
        let context = match context {
            Some(c) => *c,
            None => ErrorContext::default(),
        };
        let ErrorContext { start_end, file_name, file_content } = context;
        let start_end = match start_end {
            Some(se) => Some(se),
            None => Some((start, end)),
        };
        Error { kind, context: Some(Box::new(ErrorContext { start_end, file_name, file_content })) }
    }

    /// Set file name for this error, if they are `None`.
    /// Keeps already set file name.
    pub fn context_file_name(self, file_name: String) -> (res: Self)
        ensures
            res.kind == self.kind,
            res.context matches Some(c) && *c == (ErrorContext {
                file_name: match self.context_or_empty().file_name {
                    Some(name) => Some(name),
                    None => Some(file_name),
                },
                ..self.context_or_empty()
            }),
    {
        let Error { kind, context } = self;
        let context = match context {
            Some(c) => *c,
            None => ErrorContext::default(),
        };
        let ErrorContext { start_end, file_name: old_name, file_content } = context;
        let file_name = match old_name {
            Some(name) => Some(name),
            None => Some(file_name),
        };
        Error { kind, context: Some(Box::new(ErrorContext { start_end, file_name, file_content })) }
    }

    /// Set file content for this error, if they are `None`.
    /// Keeps already set file contents.
    pub fn context_file_content(self, file_content: String) -> (res: Self)
        ensures
            res.kind == self.kind,
            res.context matches Some(c) && *c == (ErrorContext {
                file_content: match self.context_or_empty().file_content {
                    Some(content) => Some(content),
                    None => Some(file_content),
                },
                ..self.context_or_empty()
            }),
    {
        let Error { kind, context } = self;
        let context = match context {
            Some(c) => *c,
            None => ErrorContext::default(),
        };
        let ErrorContext { start_end, file_name, file_content: old_content } = context;
        let file_content = match old_content {
            Some(content) => Some(content),
            None => Some(file_content),
        };
        Error { kind, context: Some(Box::new(ErrorContext { start_end, file_name, file_content })) }
    }

    /// Where the error starts, if that is known.
    pub fn start(&self) -> (res: Option<Location>)
        ensures
            res == (match self.context_or_empty().start_end {
                Some(se) => Some(se.0),
                None => None,
            }),
    {
        match &self.context {
            Some(c) => match c.start_end {
                Some(se) => Some(se.0),
                None => None,
            },
            None => None,
        }
    }

    /// Where the error ends, if that is known.
    pub fn end(&self) -> (res: Option<Location>)
        ensures
            res == (match self.context_or_empty().start_end {
                Some(se) => Some(se.1),
                None => None,
            }),
    {
        match &self.context {
            Some(c) => match c.start_end {
                Some(se) => Some(se.1),
                None => None,
            },
            None => None,
        }
    }

    /// The kind of `self` holds the tree `e` as text, each cursor written
    /// as line and column.
    pub open spec fn tells<'a>(self, e: InputParseError<'a>) -> bool {
        self.kind matches ErrorKind::ParseError(text) && exists|shown: ErrorTreeFmt|
            mapped(as_location_text(), e, shown.0) && text@ == #[trigger] shown.0.text()
    }

    /// The span of `self` is the one character at the furthest place that
    /// the tree `e` reaches, and `self` names no file.
    pub open spec fn points_into<'a>(self, e: InputParseError<'a>) -> bool {
        self.context matches Some(c) && *c == (ErrorContext {
            start_end: Some(
                (
                    e.furthest().place(),
                    Location {
                        line: e.furthest().place().line,
                        column: low32((e.furthest().place().column + 1) as nat),
                    },
                ),
            ),
            file_name: None,
            file_content: None,
        })
    }

    /// The error of a failed parse. Its kind holds the tree as text, and
    /// its span is the one character at the furthest place that any branch
    /// of the parse reached.
    pub fn from_tree<'a>(e: &InputParseError<'a>) -> (res: Self)
        requires
            e.wf(),
        ensures
            res.tells(*e),
            res.points_into(*e),
    {
        let max_location = e.max_location().location();
        let shown = ErrorTreeFmt::new(e);
        let text = shown.to_string();
        assert(mapped(as_location_text(), *e, shown.0) && text@ == shown.0.text());
        Error { kind: ErrorKind::ParseError(text), context: None }.context_loc(
            max_location,
            Location {
                line: max_location.line,
                column: ((max_location.column as u64 + 1) % 0x1_0000_0000) as u32,
            },
        )
    }

    /// The error as text: "error", the place where it starts if that is
    /// known, and its kind.
    pub open spec fn text(self) -> Seq<char> {
        match self.context_or_empty().start_end {
            Some(se) => "error at "@ + se.0.text() + ": "@ + self.kind.text(),
            None => "error: "@ + self.kind.text(),
        }
    }

    /// Writes the error.
    pub fn to_string(&self) -> (res: String)
        ensures
            res@ == self.text(),
    {
        match self.start() {
            Some(start) => {
                let mut out = String::from_str("error at ");
                out.append(start.to_string().as_str());
                out.append(": ");
                out.append(self.kind.to_string().as_str());
                out
            },
            None => {
                let mut out = String::from_str("error: ");
                out.append(self.kind.to_string().as_str());
                out
            },
        }
    }
}

/// `a - b`, and 0 where `b` is the greater.
pub open spec fn minus(a: nat, b: nat) -> nat {
    if a >= b {
        (a - b) as nat
    } else {
        0
    }
}

/// The number of characters that the greater of two line numbers takes.
pub open spec fn gutter_width(start: Location, end: Location) -> nat {
    if start.line >= end.line {
        decimal_text(start.line as nat).len()
    } else {
        decimal_text(end.line as nat).len()
    }
}

/// A line number, with blanks before it that fill the gutter.
pub open spec fn line_number(width: nat, n: u32) -> Seq<char> {
    repeated(' ', minus(width, decimal_text(n as nat).len())) + decimal_text(n as nat)
}

/// The lines of the source from line `from` to line `to`, each behind its
/// number and a bar.
pub open spec fn inner_lines(content: Seq<char>, width: nat, from: nat, to: nat) -> Seq<char>
    decreases to + 1 - from,
{
    if from > to || to > u32::MAX {
        Seq::<char>::empty()
    } else {
        line_number(width, from as u32) + " | | "@ + nth_line(content, minus(from, 1)) + "\n"@
            + inner_lines(content, width, from + 1, to)
    }
}

/// The head of a report: the error and the place where it starts.
pub open spec fn report_head(
    kind: Seq<char>,
    file_name: Seq<char>,
    pad: Seq<char>,
    start: Location,
) -> Seq<char> {
    "error: "@ + kind + "\n"@ + pad + "--> "@ + file_name + ":"@ + decimal_text(start.line as nat)
        + ":"@ + decimal_text(start.column as nat) + "\n"@ + pad + " |\n"@
}

/// The line of the source that holds a span, and below it the span marked
/// with `^`.
pub open spec fn one_line_body(
    content: Seq<char>,
    width: nat,
    pad: Seq<char>,
    start: Location,
    end: Location,
) -> Seq<char> {
    line_number(width, start.line) + " | "@ + nth_line(content, minus(start.line as nat, 1))
        + "\n"@ + pad + " | "@ + repeated(' ', minus(start.column as nat, 1)) + repeated(
        '^',
        minus(end.column as nat, start.column as nat),
    ) + "\n"@
}

/// The first line of the source that holds a span over several lines, and
/// below it the mark of the start of the span.
pub open spec fn first_line_body(content: Seq<char>, width: nat, pad: Seq<char>, start: Location)
    -> Seq<char> {
    line_number(width, start.line) + " |   "@ + nth_line(content, minus(start.line as nat, 1))
        + "\n"@ + pad + " |  "@ + repeated('_', minus(start.column as nat, 1)) + "^\n"@
}

/// The mark of the end of a span over several lines.
pub open spec fn last_mark(pad: Seq<char>, end: Location) -> Seq<char> {
    pad + " | |"@ + repeated('_', minus(end.column as nat, 1)) + "^\n"@
}

/// The report of an error whose span and source are known: the error, the
/// place, and the lines of the source that the span covers. A span within
/// one line is underlined with `^`; a span over several lines is marked at
/// its first and its last line.
pub open spec fn span_report(
    kind: Seq<char>,
    file_name: Seq<char>,
    content: Seq<char>,
    start: Location,
    end: Location,
) -> Seq<char> {
    let width = gutter_width(start, end);
    let pad = repeated(' ', width);
    let body = if start.line == end.line {
        one_line_body(content, width, pad, start, end)
    } else {
        first_line_body(content, width, pad, start) + inner_lines(
            content,
            width,
            start.line as nat + 1,
            end.line as nat,
        ) + last_mark(pad, end)
    };
    report_head(kind, file_name, pad, start) + body + pad + " |\n"@
}

impl Error {
    /// The report of the error for a reader: with the lines of the source
    /// where its span and the source are known, and else the error in one
    /// line.
    pub open spec fn report(self) -> Seq<char> {
        let context = self.context_or_empty();
        match (context.start_end, context.file_content) {
            (Some(se), Some(content)) => span_report(
                self.kind.text(),
                match context.file_name {
                    Some(name) => name@,
                    None => "string"@,
                },
                content@,
                se.0,
                se.1,
            ),
            _ => self.text() + "\n"@,
        }
    }
}

/// Writes a line number, with blanks before it that fill the gutter.
fn write_line_number(width: usize, n: u32) -> (res: String)
    ensures
        res@ == line_number(width as nat, n),
{
    let digits = decimal_width(n as u64);
    let blanks = if width >= digits {
        width - digits
    } else {
        0
    };
    let mut out = repeat(' ', blanks);
    out.append(decimal_string(n as u64).as_str());
    out
}

/// Writes the report of an error for a reader.
pub fn error_report(e: &Error) -> (res: String)
    ensures
        res@ == e.report(),
{
    match &e.context {
        Some(context) => {
            match (&context.start_end, &context.file_content) {
                (Some(se), Some(content)) => {
                    return span_report_of(e, se.0, se.1, &context.file_name, content);
                },
                _ => {},
            }
        },
        None => {},
    }
    let mut out = e.to_string();
    out.append("\n");
    out
}

fn write_head(kind: &ErrorKind, file_name: &Option<String>, pad: &String, start: Location) -> (res:
    String)
    ensures
        res@ == report_head(
            kind.text(),
            match *file_name {
                Some(name) => name@,
                None => "string"@,
            },
            pad@,
            start,
        ),
{
    let mut out = String::from_str("error: ");
    out.append(kind.to_string().as_str());
    out.append("\n");
    out.append(pad.as_str());
    out.append("--> ");
    match file_name {
        Some(name) => {
            out.append(name.as_str());
        },
        None => {
            out.append("string");
        },
    }
    out.append(":");
    out.append(decimal_string(start.line as u64).as_str());
    out.append(":");
    out.append(decimal_string(start.column as u64).as_str());
    out.append("\n");
    out.append(pad.as_str());
    out.append(" |\n");
    out
}

/// The index of the line with the number `line`.
fn line_index(line: u32) -> (res: usize)
    ensures
        res == minus(line as nat, 1),
{
    if line >= 1 {
        (line - 1) as usize
    } else {
        0
    }
}

fn write_one_line_body(content: &String, width: usize, pad: &String, start: Location, end: Location)
    -> (res: String)
    ensures
        res@ == one_line_body(content@, width as nat, pad@, start, end),
{
    // it's just one line, mark the whole span with ^
    let marks: usize = if end.column >= start.column {
        (end.column - start.column) as usize
    } else {
        0
    };
    let mut out = write_line_number(width, start.line);
    out.append(" | ");
    out.append(line_of(content.as_str(), line_index(start.line)).as_str());
    out.append("\n");
    out.append(pad.as_str());
    out.append(" | ");
    out.append(repeat(' ', line_index(start.column)).as_str());
    out.append(repeat('^', marks).as_str());
    out.append("\n");
    out
}

fn write_first_line_body(content: &String, width: usize, pad: &String, start: Location) -> (res:
    String)
    ensures
        res@ == first_line_body(content@, width as nat, pad@, start),
{
    let mut out = write_line_number(width, start.line);
    out.append(" |   ");
    out.append(line_of(content.as_str(), line_index(start.line)).as_str());
    out.append("\n");
    out.append(pad.as_str());
    out.append(" |  ");
    out.append(repeat('_', line_index(start.column)).as_str());
    out.append("^\n");
    out
}

fn write_inner_lines(content: &String, width: usize, from: u64, to: u32) -> (res: String)
    requires
        1 <= from <= u32::MAX as u64 + 1,
    ensures
        res@ == inner_lines(content@, width as nat, from as nat, to as nat),
{
    let mut out = String::new();
    let mut n: u64 = from;
    while n <= to as u64
        invariant
            from <= n,
            1 <= n <= u32::MAX as u64 + 1,
            out@ + inner_lines(content@, width as nat, n as nat, to as nat) == inner_lines(
                content@,
                width as nat,
                from as nat,
                to as nat,
            ),
        decreases to as u64 + 1 - n,
    {
        let ghost had = out@;
        out.append(write_line_number(width, n as u32).as_str());
        out.append(" | | ");
        out.append(line_of(content.as_str(), (n - 1) as usize).as_str());
        out.append("\n");
        proof {
            assert(out@ + inner_lines(content@, width as nat, (n + 1) as nat, to as nat) =~= had
                + inner_lines(content@, width as nat, n as nat, to as nat));
        }
        n = n + 1;
    }
    proof {
        assert(out@ + Seq::<char>::empty() =~= out@);
    }
    out
}

fn write_last_mark(pad: &String, end: Location) -> (res: String)
    ensures
        res@ == last_mark(pad@, end),
{
    let mut out = pad.clone();
    out.append(" | |");
    out.append(repeat('_', line_index(end.column)).as_str());
    out.append("^\n");
    out
}

fn span_report_of(
    e: &Error,
    start: Location,
    end: Location,
    file_name: &Option<String>,
    content: &String,
) -> (res: String)
    ensures
        res@ == span_report(
            e.kind.text(),
            match *file_name {
                Some(name) => name@,
                None => "string"@,
            },
            content@,
            start,
            end,
        ),
{
    let width = if start.line >= end.line {
        decimal_width(start.line as u64)
    } else {
        decimal_width(end.line as u64)
    };
    let pad = repeat(' ', width);
    let mut out = write_head(&e.kind, file_name, &pad, start);
    if start.line == end.line {
        out.append(write_one_line_body(content, width, &pad, start, end).as_str());
    } else {
        let mut body = write_first_line_body(content, width, &pad, start);
        body.append(write_inner_lines(content, width, start.line as u64 + 1, end.line).as_str());
        body.append(write_last_mark(&pad, end).as_str());
        out.append(body.as_str());
    }
    out.append(pad.as_str());
    out.append(" |\n");
    out
}

} // verus!
