//! From a cursor to the line and the column where it stands.

use vstd::prelude::*;
use vstd::string::StringSliceAdditionalSpecFns;
use vstd::utf8::{
    decode_utf8, encode_utf8_valid_utf8, is_char_boundary, is_continuation_byte, valid_utf8,
};
use crate::location::Location;
use crate::utf8_parser::input::Input;
use crate::utf8_parser::text::{
    byte_len, lemma_after_ascii, lemma_byte_len_bound, lemma_chars_are_starts,
    lemma_subrange_valid, starts,
};

verus! {

/// The number of line feeds among the first `offset` bytes of `src`.
pub open spec fn newlines_before(src: Seq<u8>, offset: int) -> nat
    decreases offset,
{
    if offset <= 0 {
        0
    } else {
        newlines_before(src, offset - 1) + if src[offset - 1] == 10u8 {
            1nat
        } else {
            0nat
        }
    }
}

/// The number of characters that start among the bytes of `src` before
/// `offset` and behind the last line feed before `offset`: the bytes there
/// that do not continue a character.
pub open spec fn chars_in_line(src: Seq<u8>, offset: int) -> nat
    decreases offset,
{
    if offset <= 0 || src[offset - 1] == 10u8 {
        0
    } else {
        chars_in_line(src, offset - 1) + if is_continuation_byte(src[offset - 1]) {
            0nat
        } else {
            1nat
        }
    }
}

/// Where the line begins that holds the byte `offset` of `src`: behind the
/// last line feed before `offset`, or at the start.
pub open spec fn line_start(src: Seq<u8>, offset: int) -> int
    decreases offset,
{
    if offset <= 0 {
        0
    } else if src[offset - 1] == 10u8 {
        offset
    } else {
        line_start(src, offset - 1)
    }
}

/// The start of a line is a place between two characters, and the bytes
/// from there to `offset` that do not continue a character are those that
/// `chars_in_line` counts.
proof fn lemma_line(src: Seq<u8>, offset: int)
    requires
        valid_utf8(src),
        0 <= offset <= src.len(),
    ensures
        0 <= line_start(src, offset) <= offset,
        is_char_boundary(src, line_start(src, offset)),
        chars_in_line(src, offset) == starts(src.subrange(line_start(src, offset), offset)),
    decreases offset,
{
    if offset <= 0 {
        vstd::utf8::is_char_boundary_start_end_of_seq(src);
        assert(src.subrange(0, 0) =~= Seq::<u8>::empty());
    } else if src[offset - 1] == 10u8 {
        lemma_after_ascii(src, offset - 1);
        assert(src.subrange(offset, offset) =~= Seq::<u8>::empty());
    } else {
        lemma_line(src, offset - 1);
        let from = line_start(src, offset - 1);
        assert(src.subrange(from, offset).drop_last() =~= src.subrange(from, offset - 1));
        assert(src.subrange(from, offset).last() == src[offset - 1]);
    }
}

/// The column of a cursor counts characters: it is one more than the
/// number of characters that stand between the start of its line and the
/// cursor.
pub proof fn column_counts_characters<'a>(input: Input<'a>)
    requires
        input.wf(),
    ensures
        input.place().column == low32(
            decode_utf8(
                input.source().subrange(
                    line_start(input.source(), input.offset as int),
                    input.offset as int,
                ),
            ).len() + 1,
        ),
        input.place().line == low32(newlines_before(input.source(), input.offset as int) + 1),
{
    let src = input.source();
    encode_utf8_valid_utf8(input.input@);
    lemma_line(src, input.offset as int);
    let from = line_start(src, input.offset as int);
    lemma_subrange_valid(src, from, input.offset as int);
    lemma_chars_are_starts(src.subrange(from, input.offset as int));
}

/// The number `n`, as far as 32 bits hold it.
pub open spec fn low32(n: nat) -> u32 {
    (n % 0x1_0000_0000) as u32
}

/// The character that starts at byte `offset` of `text` or first behind it,
/// with the byte and the character index where it starts; behind the last
/// character, the length in bytes, the number of characters, and the
/// replacement character. `k` characters are passed over already.
pub open spec fn char_from(text: Seq<char>, offset: int, k: int) -> (int, int, char)
    decreases text.len() - k,
{
    if k < 0 || k >= text.len() {
        (byte_len(text) as int, text.len() as int, '\u{FFFD}')
    } else if byte_len(text.take(k)) >= offset {
        (byte_len(text.take(k)) as int, k, text[k])
    } else {
        char_from(text, offset, k + 1)
    }
}

impl<'a> Input<'a> {
    /// The byte of the source where the fragment starts; the end of the
    /// source for a cursor that stands behind it.
    pub open spec fn start_in_source(&self) -> int {
        if self.offset <= self.source().len() {
            self.offset as int
        } else {
            self.source().len() as int
        }
    }

    /// The line and the column where the fragment starts, both counted from
    /// 1: the line by the line feeds before it, the column by the
    /// characters between the start of its line and itself.
    pub open spec fn place(&self) -> Location {
        Location {
            line: low32(newlines_before(self.source(), self.start_in_source()) + 1),
            column: low32(chars_in_line(self.source(), self.start_in_source()) + 1),
        }
    }

    /// Computes the line and the column where the fragment starts.
    pub fn location(&self) -> (res: Location)
        ensures
            res == self.place(),
    {
        let bytes = self.input.as_bytes();
        let end = if self.offset <= bytes.len() {
            self.offset
        } else {
            bytes.len()
        };
        let mut lines: usize = 0;
        let mut column: usize = 0;
        let mut i: usize = 0;
        while i < end
            invariant
                bytes@ == self.source(),
                end == self.start_in_source(),
                i <= end <= bytes@.len(),
                lines == newlines_before(self.source(), i as int),
                lines <= i,
                column == chars_in_line(self.source(), i as int),
                column <= i,
            decreases end - i,
        {
            let b = bytes[i];
            if b == 10 {
                lines = lines + 1;
                column = 0;
            } else if !(0x80 <= b && b <= 0xbf) {
                column = column + 1;
            }
            i = i + 1;
        }
        Location {
            line: ((lines as u128 + 1) % 0x1_0000_0000) as u32,
            column: ((column as u128 + 1) % 0x1_0000_0000) as u32,
        }
    }
}

/// The character at or first behind byte `offset` of `input`: returns
/// (byte index, char index, char).
pub fn get_char_at_offset(input: &str, offset: usize) -> (res: (usize, usize, char))
    ensures
        (res.0 as int, res.1 as int, res.2) == char_from(input@, offset as int, 0),
{
    let whole = Input::new(input);
    let mut cur = whole;
    let mut chars: usize = 0;
    let ghost mut k: int = 0;
    proof {
        whole.lemma_skip_chars(0);
        assert(whole.text().take(0) =~= Seq::<char>::empty());
        assert(whole.text().skip(0) =~= whole.text());
        lemma_byte_len_bound(whole.text());
        whole.lemma_raw_valid();
    }
    loop
        invariant
            whole.wf(),
            whole.text() == input@,
            whole.offset == 0,
            whole.size() == byte_len(input@),
            input@.len() <= whole.size(),
            0 <= k <= input@.len(),
            chars == k,
            cur == whole.skip_chars(k),
            cur.is_rest_of(whole),
            cur.text() == input@.skip(k),
            char_from(input@, offset as int, 0) == char_from(input@, offset as int, k),
        decreases input@.len() - k,
    {
        proof {
            whole.lemma_skip_chars(k);
        }
        match cur.first_char() {
            None => {
                assert(input@.take(k) =~= input@);
                return (cur.offset, chars, '\u{FFFD}');
            },
            Some(c) => {
                if cur.offset >= offset {
                    return (cur.offset, chars, c);
                }
                cur = cur.step_over(c, whole, Ghost(k));
                chars = chars + 1;
                proof {
                    k = k + 1;
                }
            },
        }
    }
}

} // verus!
