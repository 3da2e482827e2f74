use vstd::prelude::*;
use vstd::utf8::*;

verus! {

/// The number of bytes that the UTF-8 encoding of `chars` takes.
pub open spec fn byte_len(chars: Seq<char>) -> nat {
    encode_utf8(chars).len()
}

/// The number of bytes that the UTF-8 encoding of one character takes.
pub open spec fn char_width(c: char) -> nat {
    encode_scalar(c as u32).len()
}

/// Computes the number of bytes that `c` takes in UTF-8.
pub fn len_utf8(c: char) -> (n: usize)
    ensures
        n == char_width(c),
        1 <= n <= 4,
{
    proof {
        char_is_scalar(c);
    }
    let v: u32 = c as u32;
    if v < 0x80 {
        1
    } else if v < 0x800 {
        2
    } else if v < 0x10000 {
        3
    } else {
        4
    }
}

/// In valid UTF-8 an index is a character boundary exactly when it is the end
/// of the text or the byte there does not continue a character.
pub proof fn lemma_boundary_iff(b: Seq<u8>, i: int)
    requires
        valid_utf8(b),
        0 <= i <= b.len(),
    ensures
        is_char_boundary(b, i) <==> (i == b.len() || !is_continuation_byte(b[i])),
{
    if i == b.len() {
        is_char_boundary_start_end_of_seq(b);
    } else {
        is_char_boundary_iff_not_is_continuation_byte(b, i);
    }
}

/// The bytes between two character boundaries are valid UTF-8 themselves.
pub proof fn lemma_subrange_valid(b: Seq<u8>, s: int, e: int)
    requires
        valid_utf8(b),
        0 <= s <= e <= b.len(),
        is_char_boundary(b, s),
        is_char_boundary(b, e),
    ensures
        valid_utf8(b.subrange(s, e)),
{
    valid_utf8_split(b, e);
    let head = b.subrange(0, e);
    lemma_boundary_iff(b, s);
    lemma_boundary_iff(head, s);
    assert(is_char_boundary(head, s));
    valid_utf8_split(head, s);
    assert(head.subrange(s, e) =~= b.subrange(s, e));
}

/// A boundary of a sub-range is a boundary of the whole text, and the reverse.
pub proof fn lemma_boundary_shift(b: Seq<u8>, s: int, e: int, k: int)
    requires
        valid_utf8(b),
        0 <= s <= e <= b.len(),
        is_char_boundary(b, s),
        is_char_boundary(b, e),
        0 <= k <= e - s,
    ensures
        is_char_boundary(b.subrange(s, e), k) <==> is_char_boundary(b, s + k),
{
    lemma_subrange_valid(b, s, e);
    lemma_boundary_iff(b.subrange(s, e), k);
    lemma_boundary_iff(b, s + k);
    lemma_boundary_iff(b, e);
}

/// Where a valid text begins inside a valid text, there is a boundary.
pub proof fn lemma_suffix_boundary(b: Seq<u8>, n: int)
    requires
        valid_utf8(b),
        0 <= n <= b.len(),
        valid_utf8(b.subrange(n, b.len() as int)),
    ensures
        is_char_boundary(b, n),
{
    lemma_boundary_iff(b, n);
    if n < b.len() {
        let tail = b.subrange(n, b.len() as int);
        assert(tail[0] == b[n]);
        assert(valid_first_scalar(tail));
    }
}

/// Encoding distributes over concatenation.
pub proof fn lemma_encode_concat(a: Seq<char>, b: Seq<char>)
    ensures
        encode_utf8(a + b) == encode_utf8(a) + encode_utf8(b),
    decreases a.len(),
{
    if a.len() == 0 {
        assert(a + b =~= b);
        assert(encode_utf8(a) + encode_utf8(b) =~= encode_utf8(b));
    } else {
        lemma_encode_concat(a.drop_first(), b);
        assert((a + b).drop_first() =~= a.drop_first() + b);
        assert((a + b)[0] == a[0]);
        assert(encode_utf8(a + b) =~= encode_utf8(a) + encode_utf8(b));
    }
}

/// What cutting a valid text after its first `k` characters gives: the cut is
/// at a boundary, and the two parts decode to the first `k` characters and to
/// the rest.
pub proof fn lemma_split_chars(b: Seq<u8>, k: int)
    requires
        valid_utf8(b),
        0 <= k <= decode_utf8(b).len(),
    ensures
        byte_len(decode_utf8(b).take(k)) <= b.len(),
        is_char_boundary(b, byte_len(decode_utf8(b).take(k)) as int),
        b.subrange(0, byte_len(decode_utf8(b).take(k)) as int) == encode_utf8(
            decode_utf8(b).take(k),
        ),
        b.subrange(byte_len(decode_utf8(b).take(k)) as int, b.len() as int) == encode_utf8(
            decode_utf8(b).skip(k),
        ),
        decode_utf8(b.subrange(0, byte_len(decode_utf8(b).take(k)) as int)) == decode_utf8(
            b,
        ).take(k),
        decode_utf8(b.subrange(byte_len(decode_utf8(b).take(k)) as int, b.len() as int))
            == decode_utf8(b).skip(k),
{
    let chars = decode_utf8(b);
    let head = chars.take(k);
    let tail = chars.skip(k);
    let n = byte_len(head) as int;
    decode_utf8_encode_utf8(b);
    assert(chars =~= head + tail);
    lemma_encode_concat(head, tail);
    assert(b == encode_utf8(head) + encode_utf8(tail));
    assert(b.subrange(0, n) =~= encode_utf8(head));
    assert(b.subrange(n, b.len() as int) =~= encode_utf8(tail));
    encode_utf8_valid_utf8(tail);
    lemma_suffix_boundary(b, n);
    encode_utf8_decode_utf8(head);
    encode_utf8_decode_utf8(tail);
}

/// The first character of a text takes as many bytes as its encoding has.
pub proof fn lemma_take_one(chars: Seq<char>)
    requires
        chars.len() > 0,
    ensures
        byte_len(chars.take(1)) == char_width(chars[0]),
{
    assert(chars.take(1) =~= seq![chars[0]]);
    let one = seq![chars[0]];
    assert(one.drop_first() =~= Seq::<char>::empty());
    assert(encode_utf8(one) =~= encode_scalar(chars[0] as u32)) by {
        reveal_with_fuel(encode_utf8, 2);
    }
}

/// One more character adds its own width to the width of a prefix.
pub proof fn lemma_take_step(chars: Seq<char>, k: int)
    requires
        0 <= k < chars.len(),
    ensures
        byte_len(chars.take(k + 1)) == byte_len(chars.take(k)) + char_width(chars[k]),
{
    let one = seq![chars[k]];
    assert(chars.take(k + 1) =~= chars.take(k) + one);
    lemma_encode_concat(chars.take(k), one);
    lemma_take_one(one);
    assert(one.take(1) =~= one);
}

/// Behind an ASCII byte of a valid text a character starts, or the text
/// ends.
pub proof fn lemma_after_ascii(b: Seq<u8>, i: int)
    requires
        valid_utf8(b),
        0 <= i < b.len(),
        b[i] < 0x80,
    ensures
        is_char_boundary(b, i),
        is_char_boundary(b, i + 1),
{
    lemma_boundary_iff(b, i);
    valid_utf8_split(b, i);
    let tail = b.subrange(i, b.len() as int);
    assert(tail[0] == b[i]);
    assert(valid_first_scalar(tail));
    assert(length_of_first_scalar(tail) == 1);
    assert(pop_first_scalar(tail) =~= b.subrange(i + 1, b.len() as int));
    lemma_suffix_boundary(b, i + 1);
}

/// The number of bytes of `b` that do not continue a character.
pub open spec fn starts(b: Seq<u8>) -> nat
    decreases b.len(),
{
    if b.len() == 0 {
        0
    } else {
        starts(b.drop_last()) + if is_continuation_byte(b.last()) {
            0nat
        } else {
            1nat
        }
    }
}

/// The starts of two texts add up.
pub proof fn lemma_starts_concat(a: Seq<u8>, b: Seq<u8>)
    ensures
        starts(a + b) == starts(a) + starts(b),
    decreases b.len(),
{
    if b.len() == 0 {
        assert(a + b =~= a);
    } else {
        lemma_starts_concat(a, b.drop_last());
        assert((a + b).drop_last() =~= a + b.drop_last());
        assert((a + b).last() == b.last());
    }
}

/// A valid text has as many characters as bytes that do not continue a
/// character.
pub proof fn lemma_chars_are_starts(b: Seq<u8>)
    requires
        valid_utf8(b),
    ensures
        decode_utf8(b).len() == starts(b),
    decreases b.len(),
{
    if b.len() > 0 {
        let head = take_first_scalar(b);
        let tail = pop_first_scalar(b);
        assert(b =~= head + tail);
        lemma_starts_concat(head, tail);
        lemma_chars_are_starts(tail);
        assert(starts(head) == 1) by {
            reveal_with_fuel(starts, 5);
            let k = length_of_first_scalar(b);
            assert(head.len() == k);
            assert(head[0] == b[0]);
            if k >= 2 {
                assert(head.drop_last().len() == k - 1);
                assert(head.last() == b[k - 1]);
                assert(head.drop_last()[0] == b[0]);
                if k >= 3 {
                    assert(head.drop_last().last() == b[k - 2]);
                    assert(head.drop_last().drop_last()[0] == b[0]);
                    if k >= 4 {
                        assert(head.drop_last().drop_last().last() == b[k - 3]);
                        assert(head.drop_last().drop_last().drop_last()[0] == b[0]);
                    }
                }
            }
        }
    }
}

/// A text of ASCII characters has as many bytes as characters.
pub proof fn lemma_ascii_len(chars: Seq<char>)
    requires
        is_ascii_chars(chars),
    ensures
        byte_len(chars) == chars.len(),
{
    is_ascii_chars_encode_utf8(chars);
}

/// A text has at least as many bytes as characters.
pub proof fn lemma_byte_len_bound(chars: Seq<char>)
    ensures
        chars.len() <= byte_len(chars),
    decreases chars.len(),
{
    if chars.len() > 0 {
        lemma_byte_len_bound(chars.drop_first());
    }
}

} // verus!
