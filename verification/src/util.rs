//! Writing numbers and lists as text.

use vstd::prelude::*;
use vstd::std_specs::iter::IteratorSpec;
use vstd::string::StringExecFns;

verus! {

/// What `{:?}` of the standard library writes for the text `s`: the text
/// between quotes, with the characters escaped that a string literal has to
/// escape.
pub uninterp spec fn debug_text(s: Seq<char>) -> Seq<char>;

/// What `{:?}` of the standard library writes for the character `c`: the
/// character between apostrophes, escaped as a character literal has to be.
pub uninterp spec fn debug_char_text(c: char) -> Seq<char>;

/// Writes `s` as a string literal. It calls the `Debug` formatting of `str`
/// in the standard library; what that writes depends on `s` alone.
#[verifier::external_body]
pub(crate) fn debug_str(s: &str) -> (res: String)
    ensures
        res@ == debug_text(s@),
{
    format!("{:?}", s)
}

/// Writes `c` as a character literal. It calls the `Debug` formatting of
/// `char` in the standard library; what that writes depends on `c` alone.
#[verifier::external_body]
pub(crate) fn debug_char(c: char) -> (res: String)
    ensures
        res@ == debug_char_text(c),
{
    format!("{:?}", c)
}

/// Adds `c` at the end of `s`. It calls `String::push` of the standard
/// library, which appends the character and changes nothing else.
#[verifier::external_body]
pub(crate) fn push_char(s: &mut String, c: char)
    ensures
        final(s)@ == old(s)@.push(c),
{
    s.push(c)
}

/// The digit `d` of a number in base 10 or 16, as a character; the letters
/// are capitals.
pub open spec fn digit_char(d: nat) -> char {
    if d < 10 {
        (d + 48) as char
    } else {
        (d + 55) as char
    }
}

/// The decimal digits of `n`, the first digit first.
pub open spec fn decimal_text(n: nat) -> Seq<char>
    decreases n,
{
    if n < 10 {
        seq![digit_char(n)]
    } else {
        decimal_text(n / 10).push(digit_char(n % 10))
    }
}

/// The hexadecimal digits of `n`, the first digit first and the letters as
/// capitals.
pub open spec fn hex_text(n: nat) -> Seq<char>
    decreases n,
{
    if n < 16 {
        seq![digit_char(n)]
    } else {
        hex_text(n / 16).push(digit_char(n % 16))
    }
}

fn digit_to_char(d: u8) -> (c: char)
    requires
        d < 16,
    ensures
        c == digit_char(d as nat),
{
    if d < 10 {
        (d + 48) as char
    } else {
        (d + 55) as char
    }
}

/// Writes `n` in decimal digits.
pub fn decimal_string(n: u64) -> (res: String)
    ensures
        res@ == decimal_text(n as nat),
    decreases n,
{
    if n < 10 {
        let mut s = String::new();
        push_char(&mut s, digit_to_char(n as u8));
        assert(s@ =~= seq![digit_char(n as nat)]);
        s
    } else {
        let mut s = decimal_string(n / 10);
        push_char(&mut s, digit_to_char((n % 10) as u8));
        s
    }
}

/// Writes `n` in hexadecimal digits, the letters as capitals.
pub fn hex_string(n: u64) -> (res: String)
    ensures
        res@ == hex_text(n as nat),
    decreases n,
{
    if n < 16 {
        let mut s = String::new();
        push_char(&mut s, digit_to_char(n as u8));
        assert(s@ =~= seq![digit_char(n as nat)]);
        s
    } else {
        let mut s = hex_string(n / 16);
        push_char(&mut s, digit_to_char((n % 16) as u8));
        s
    }
}

/// `sep` after each of `items`.
pub open spec fn each_followed(items: Seq<Seq<char>>, sep: Seq<char>) -> Seq<char>
    decreases items.len(),
{
    if items.len() == 0 {
        Seq::<char>::empty()
    } else {
        each_followed(items.drop_last(), sep) + items.last() + sep
    }
}

/// A list for a reader: "one of a, b or c"; the item alone where there is
/// one, and "<empty list>" where there is none.
pub open spec fn pretty_list(items: Seq<Seq<char>>) -> Seq<char> {
    if items.len() == 0 {
        "<empty list>"@
    } else if items.len() == 1 {
        items[0]
    } else {
        "one of "@ + each_followed(items.take(items.len() - 2), ", "@) + items[items.len() - 2]
            + " or "@ + items[items.len() - 1]
    }
}

/// The texts that the strings hold.
pub open spec fn texts(items: Seq<String>) -> Seq<Seq<char>> {
    items.map_values(|s: String| s@)
}

/// Writes a list for a reader.
pub fn write_pretty_list(items: &Vec<String>) -> (res: String)
    ensures
        res@ == pretty_list(texts(items@)),
{
    let n = items.len();
    if n == 0 {
        return String::from_str("<empty list>");
    }
    if n == 1 {
        return items[0].clone();
    }
    let mut out = String::from_str("one of ");
    let mut i: usize = 0;
    let ghost all = texts(items@);
    while i < n - 2
        invariant
            n == items@.len(),
            n >= 2,
            all == texts(items@),
            i <= n - 2,
            out@ == "one of "@ + each_followed(all.take(i as int), ", "@),
        decreases n - 2 - i,
    {
        out.append(items[i].as_str());
        out.append(", ");
        proof {
            assert(all.take(i + 1).drop_last() =~= all.take(i as int));
            assert(all.take(i + 1).last() == items@[i as int]@);
            assert(out@ =~= "one of "@ + each_followed(all.take(i + 1), ", "@));
        }
        i = i + 1;
    }
    proof {
        assert(all.take(n - 2) =~= all.take(all.len() - 2));
    }
    out.append(items[n - 2].as_str());
    out.append(" or ");
    out.append(items[n - 1].as_str());
    out
}

/// The text `prefix`, then each of `items` with `sep` between two of them.
pub open spec fn joined(items: Seq<Seq<char>>, sep: Seq<char>) -> Seq<char>
    decreases items.len(),
{
    if items.len() == 0 {
        Seq::<char>::empty()
    } else if items.len() == 1 {
        items[0]
    } else {
        joined(items.drop_last(), sep) + sep + items.last()
    }
}

/// Writes `items` with `sep` between two of them.
pub fn join(items: &Vec<String>, sep: &str) -> (res: String)
    ensures
        res@ == joined(texts(items@), sep@),
{
    let mut out = String::new();
    let mut i: usize = 0;
    let ghost all = texts(items@);
    while i < items.len()
        invariant
            all == texts(items@),
            i <= items@.len(),
            out@ == joined(all.take(i as int), sep@),
        decreases items.len() - i,
    {
        if i > 0 {
            out.append(sep);
        }
        out.append(items[i].as_str());
        proof {
            assert(all.take(i + 1).drop_last() =~= all.take(i as int));
            assert(all.take(i + 1).last() == items@[i as int]@);
            if i == 0 {
                assert(out@ =~= items@[0]@);
            }
        }
        i = i + 1;
    }
    proof {
        assert(all.take(items@.len() as int) =~= all);
    }
    out
}

/// `s` with each line that is not empty moved four spaces to the right.
/// `fresh` says that a line begins at the start of `s`.
pub open spec fn indent_text(s: Seq<char>, fresh: bool) -> Seq<char>
    decreases s.len(),
{
    if s.len() == 0 {
        Seq::<char>::empty()
    } else if s[0] == '\n' {
        seq!['\n'] + indent_text(s.drop_first(), true)
    } else if fresh {
        "    "@ + seq![s[0]] + indent_text(s.drop_first(), false)
    } else {
        seq![s[0]] + indent_text(s.drop_first(), false)
    }
}

/// A text that is written with each line that is not empty moved four
/// spaces to the right.
pub struct Indented(pub String);

/// Wraps a text for writing it indented.
pub fn indent(display: String) -> (res: Indented)
    ensures
        res.0 == display,
{
    Indented(display)
}

impl Indented {
    /// Writes the text, indented.
    pub fn to_string(&self) -> (res: String)
        ensures
            res@ == indent_text(self.0@, true),
    {
        let text = self.0.as_str();
        let mut it = text.chars();
        let mut out = String::new();
        let mut fresh = true;
        proof {
            vstd::string::axiom_spec_iter(text);
        }
        let ghost mut rest = self.0@;
        loop
            invariant
                it.remaining() == rest,
                out@ + indent_text(rest, fresh) == indent_text(self.0@, true),
            decreases rest.len(),
        {
            let ghost before = it;
            let next = it.next();
            proof {
                vstd::string::next_postcondition(&before, &it, next);
            }
            match next {
                None => {
                    assert(out@ + Seq::<char>::empty() =~= out@);
                    return out;
                },
                Some(c) => {
                    let ghost had = out@;
                    if c == '\n' {
                        push_char(&mut out, c);
                        fresh = true;
                        proof {
                            assert(out@ + indent_text(rest.drop_first(), true) =~= had
                                + indent_text(rest, false));
                            assert(indent_text(rest, false) == indent_text(rest, true));
                        }
                    } else {
                        if fresh {
                            out.append("    ");
                        }
                        push_char(&mut out, c);
                        proof {
                            assert(out@ + indent_text(rest.drop_first(), false) =~= had
                                + indent_text(rest, fresh));
                        }
                        fresh = false;
                    }
                    proof {
                        rest = rest.drop_first();
                    }
                },
            }
        }
    }
}

/// How many decimal digits `n` has.
pub fn decimal_width(n: u64) -> (res: usize)
    ensures
        res == decimal_text(n as nat).len(),
        1 <= res <= 20,
    decreases n,
{
    if n < 10 {
        1
    } else {
        let rest = decimal_width(n / 10);
        proof {
            lemma_decimal_width(n as nat);
        }
        rest + 1
    }
}

/// A number below 10^k has no more than k digits.
pub open spec fn pow10(k: nat) -> nat
    decreases k,
{
    if k == 0 {
        1
    } else {
        10 * pow10((k - 1) as nat)
    }
}

/// The number of digits of a number of 64 bits is 20 at most.
pub proof fn lemma_decimal_width(n: nat)
    requires
        n <= u64::MAX,
    ensures
        1 <= decimal_text(n).len() <= 20,
{
    assert(pow10(20) == 100000000000000000000nat) by {
        reveal_with_fuel(pow10, 21);
    }
    lemma_width_below(n, 20);
}

/// A number below 10^k, with k at least 1, has no more than k digits.
pub proof fn lemma_width_below(n: nat, k: nat)
    requires
        k >= 1,
        n < pow10(k),
    ensures
        1 <= decimal_text(n).len() <= k,
    decreases k,
{
    if n >= 10 {
        assert(pow10(1) == 10) by {
            reveal_with_fuel(pow10, 2);
        }
        assert(k >= 2);
        lemma_width_below(n / 10, (k - 1) as nat);
    }
}

/// `n` times the character `c`.
pub open spec fn repeated(c: char, n: nat) -> Seq<char> {
    Seq::new(n, |i: int| c)
}

/// Writes the character `c` `n` times.
pub fn repeat(c: char, n: usize) -> (res: String)
    ensures
        res@ == repeated(c, n as nat),
{
    let mut out = String::new();
    let mut i: usize = 0;
    while i < n
        invariant
            i <= n,
            out@ =~= repeated(c, i as nat),
        decreases n - i,
    {
        push_char(&mut out, c);
        i = i + 1;
    }
    out
}

/// The line with the index `n` of a text, read from the character `i` on,
/// which stands in the line with the index `line`; `buf` holds what was
/// read of the wanted line. Lines end at a line feed, and a carriage return
/// before the line feed is no part of the line. A line that the text does
/// not have is empty.
pub open spec fn line_from(s: Seq<char>, n: nat, i: int, line: nat, buf: Seq<char>) -> Seq<char>
    decreases s.len() - i,
{
    if i < 0 || i >= s.len() {
        if line == n {
            buf
        } else {
            Seq::<char>::empty()
        }
    } else if s[i] == '\n' {
        if line == n {
            if buf.len() > 0 && buf.last() == '\r' {
                buf.drop_last()
            } else {
                buf
            }
        } else {
            line_from(s, n, i + 1, line + 1, Seq::<char>::empty())
        }
    } else if line == n {
        line_from(s, n, i + 1, line, buf.push(s[i]))
    } else {
        line_from(s, n, i + 1, line, buf)
    }
}

/// The line with the index `n` of a text, counted from 0.
pub open spec fn nth_line(s: Seq<char>, n: nat) -> Seq<char> {
    line_from(s, n, 0, 0, Seq::<char>::empty())
}

/// Writes the characters of `chars`.
fn string_of(chars: &Vec<char>) -> (res: String)
    ensures
        res@ == chars@,
{
    let mut out = String::new();
    let mut i: usize = 0;
    while i < chars.len()
        invariant
            i <= chars@.len(),
            out@ =~= chars@.take(i as int),
        decreases chars.len() - i,
    {
        push_char(&mut out, chars[i]);
        i = i + 1;
    }
    assert(chars@.take(chars@.len() as int) =~= chars@);
    out
}

/// Gives the line with the index `n` of `content`, counted from 0.
pub fn line_of(content: &str, n: usize) -> (res: String)
    ensures
        res@ == nth_line(content@, n as nat),
{
    let mut it = content.chars();
    proof {
        vstd::string::axiom_spec_iter(content);
    }
    let mut buf: Vec<char> = Vec::new();
    let mut line: usize = 0;
    let ghost mut i: int = 0;
    loop
        invariant
            0 <= i <= content@.len(),
            it.remaining() == content@.skip(i),
            line <= n,
            line <= i,
            nth_line(content@, n as nat) == line_from(content@, n as nat, i, line as nat, buf@),
        decreases content@.len() - i,
    {
        let ghost before = it;
        let next = it.next();
        proof {
            vstd::string::next_postcondition(&before, &it, next);
        }
        match next {
            None => {
                if line == n {
                    return string_of(&buf);
                } else {
                    return String::new();
                }
            },
            Some(c) => {
                assert(c == content@[i]);
                assert(content@.skip(i).drop_first() =~= content@.skip(i + 1));
                if c == '\n' {
                    if line == n {
                        let len = buf.len();
                        if len > 0 && buf[len - 1] == '\r' {
                            buf.pop();
                        }
                        return string_of(&buf);
                    }
                    line = line + 1;
                    buf = Vec::new();
                } else if line == n {
                    buf.push(c);
                }
                proof {
                    i = i + 1;
                }
            },
        }
    }
}

} // verus!
