//! How text and its UTF-8 bytes correspond where a line ends.
//!
//! Line feed and carriage return are ASCII, so each is encoded as one byte
//! that occurs in no other character's encoding. The lemmas here carry a
//! line's end from the bytes of a text to its characters and back.

use vstd::prelude::*;
use vstd::utf8::*;
use crate::line::{first_line, lemma_line_len_bound, lemma_line_len_skips, LF};

verus! {

/// An ASCII scalar is encoded as the one byte of the same value; every byte
/// of any other scalar's encoding has its top bit set.
proof fn lemma_scalar_bytes(v: u32)
    by (bit_vector)
    requires
        is_scalar(v),
    ensures
        has_width_1_encoding(v) ==> leading_byte_width_1(v) as u32 == v,
        has_width_2_encoding(v) ==> leading_byte_width_2(v) >= 0x80,
        has_width_3_encoding(v) ==> leading_byte_width_3(v) >= 0x80,
        has_width_4_encoding(v) ==> leading_byte_width_4(v) >= 0x80,
        last_continuation_byte(v) >= 0x80,
        second_last_continuation_byte(v) >= 0x80,
        third_last_continuation_byte(v) >= 0x80,
{
}

/// An ASCII byte occurs in the encoding of a character only as the whole
/// encoding of the character with that value.
pub proof fn lemma_ascii_byte_of_char(c: char, b: u8)
    requires
        b < 0x80,
    ensures
        c == b as char ==> encode_scalar(c as u32) == seq![b],
        encode_scalar(c as u32).contains(b) ==> c == b as char,
{
    let v = c as u32;
    char_is_scalar(c);
    lemma_scalar_bytes(v);
    let e = encode_scalar(v);
    if c == b as char {
        assert(e =~= seq![b]);
    }
    if e.contains(b) {
        let i = choose|i: int| 0 <= i < e.len() && e[i] == b;
        assert(e[i] == b);
    }
}

/// A text of one character is encoded as that character.
pub proof fn lemma_encode_single(c: char)
    ensures
        encode_utf8(seq![c]) == encode_scalar(c as u32),
{
    reveal_with_fuel(encode_utf8, 2);
    assert(seq![c].drop_first() =~= Seq::<char>::empty());
    assert(encode_utf8(seq![c]) =~= encode_scalar(c as u32));
}

/// Encoding distributes over concatenation.
pub proof fn lemma_encode_concat(a: Seq<char>, b: Seq<char>)
    ensures
        encode_utf8(a + b) == encode_utf8(a) + encode_utf8(b),
    decreases a.len(),
{
    if a.len() == 0 {
        assert(a + b =~= b);
        assert(encode_utf8(a) + encode_utf8(b) =~= encode_utf8(b));
    } else {
        assert((a + b).drop_first() =~= a.drop_first() + b);
        lemma_encode_concat(a.drop_first(), b);
        assert(encode_utf8(a + b) =~= encode_utf8(a) + encode_utf8(b));
    }
}

/// The encoding of a prefix of a text ends on a character boundary of the
/// text's encoding.
pub proof fn lemma_prefix_ends_on_boundary(a: Seq<char>, b: Seq<char>)
    ensures
        is_char_boundary(encode_utf8(a + b), encode_utf8(a).len() as int),
    decreases a.len(),
{
    let bytes = encode_utf8(a + b);
    encode_utf8_valid_utf8(a + b);
    if a.len() == 0 {
    } else {
        let rest = a.drop_first();
        assert((a + b).drop_first() =~= rest + b);
        encode_utf8_first_scalar(a + b);
        assert(pop_first_scalar(bytes) =~= encode_utf8(rest + b));
        lemma_encode_concat(a, b);
        lemma_prefix_ends_on_boundary(rest, b);
    }
}

/// Encoding a text and taking the first line of the bytes gives the
/// encoding of the first line of the text.
pub proof fn lemma_encode_first_line(text: Seq<char>)
    ensures
        first_line(encode_utf8(text), LF) == encode_utf8(first_line(text, '\n')),
    decreases text.len(),
{
    if text.len() == 0 {
        assert(first_line(text, '\n') =~= text);
        assert(first_line(encode_utf8(text), LF) =~= encode_utf8(text));
    } else {
        let c = text[0];
        let rest = text.drop_first();
        let head = encode_scalar(c as u32);
        lemma_ascii_byte_of_char(c, LF);
        lemma_line_len_bound(rest, '\n');
        if c == '\n' {
            assert(first_line(text, '\n') =~= seq!['\n']);
            lemma_encode_single(c);
            assert(encode_utf8(seq!['\n']) =~= seq![LF]);
            assert(encode_utf8(text)[0] == LF);
            assert(first_line(encode_utf8(text), LF) =~= seq![LF]);
        } else {
            assert(!head.contains(LF));
            lemma_line_len_skips(head, encode_utf8(rest), LF);
            lemma_encode_first_line(rest);
            let line = first_line(text, '\n');
            assert(line =~= seq![c] + first_line(rest, '\n'));
            assert(line.drop_first() =~= first_line(rest, '\n'));
            assert(line[0] == c);
        }
    }
}

/// A text ends with an ASCII character exactly when its encoding ends with
/// that character's byte, and then the bytes before it encode the text
/// before it.
pub proof fn lemma_encode_last_ascii(text: Seq<char>, b: u8)
    requires
        b < 0x80,
    ensures
        (text.len() > 0 && text.last() == b as char) <==> (encode_utf8(text).len() > 0
            && encode_utf8(text).last() == b),
        text.len() > 0 && text.last() == b as char ==> encode_utf8(text).drop_last()
            == encode_utf8(text.drop_last()),
{
    if text.len() > 0 {
        let c = text.last();
        let body = text.drop_last();
        assert(text =~= body + seq![c]);
        lemma_encode_concat(body, seq![c]);
        let e = encode_scalar(c as u32);
        lemma_encode_single(c);
        lemma_ascii_byte_of_char(c, b);
        char_is_scalar(c);
        assert(e.len() > 0);
        if encode_utf8(text).last() == b {
            assert(e[e.len() - 1] == b);
            assert(e.contains(b));
        }
        if c == b as char {
            assert(encode_utf8(text).drop_last() =~= encode_utf8(body));
        }
    }
}

/// A line feed after some bytes changes nothing about whether they are
/// valid UTF-8, and adds a line feed to the text they encode.
pub proof fn lemma_decode_with_line_feed(body: Seq<u8>)
    ensures
        valid_utf8(body.push(LF)) <==> valid_utf8(body),
        valid_utf8(body) ==> decode_utf8(body.push(LF)) == decode_utf8(body).push('\n'),
{
    let bytes = body.push(LF);
    let single = seq![LF];
    let n = body.len() as int;
    lemma_encode_single('\n');
    lemma_ascii_byte_of_char('\n', LF);
    encode_utf8_valid_utf8(seq!['\n']);
    encode_utf8_decode_utf8(seq!['\n']);
    assert(valid_utf8(single) && decode_utf8(single) == seq!['\n']);
    assert(bytes =~= body + single);
    assert(bytes.subrange(0, n) =~= body);
    assert(bytes.subrange(n, bytes.len() as int) =~= single);
    if valid_utf8(body) {
        valid_utf8_concat(body, single);
    }
    if valid_utf8(bytes) {
        assert(!is_continuation_byte(bytes[n]));
        is_char_boundary_iff_not_is_continuation_byte(bytes, n);
        valid_utf8_split(bytes, n);
        decode_utf8_split(bytes, n);
        assert(decode_utf8(body) + seq!['\n'] =~= decode_utf8(body).push('\n'));
    }
}

} // verus!
