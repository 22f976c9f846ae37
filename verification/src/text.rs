//! Cutting a line of text at the offsets of its ASCII bytes.

use vstd::prelude::*;
use vstd::string::StringSliceAdditionalSpecFns;
use vstd::utf8::{
    encode_utf8_valid_utf8, is_char_boundary, is_char_boundary_start_end_of_seq,
    length_of_first_scalar, pop_first_scalar, valid_utf8, valid_utf8_split,
};

verus! {

/// An offset at which the lexer cuts a line: an end of the line, or an
/// offset with an ASCII byte at it or just before it.
pub open spec fn is_cut(data: Seq<u8>, i: int) -> bool {
    0 <= i <= data.len() && (i == 0 || i == data.len() || data[i] < 128 || data[i - 1] < 128)
}

/// In well-formed UTF-8 an ASCII byte is a character of its own: one
/// character ends before it and the next begins after it.
pub proof fn lemma_ascii_boundary(bytes: Seq<u8>, i: int)
    requires
        valid_utf8(bytes),
        0 <= i < bytes.len(),
        bytes[i] < 128,
    ensures
        is_char_boundary(bytes, i),
        is_char_boundary(bytes, i + 1),
    decreases bytes.len(),
{
    let width = length_of_first_scalar(bytes);
    let rest = pop_first_scalar(bytes);
    assert(valid_utf8(rest));
    assert(1 <= width <= 4 && width <= bytes.len());
    if i == 0 {
        assert(width == 1);
        assert(is_char_boundary(rest, 0));
        assert(is_char_boundary(bytes, 1));
    } else {
        assert(i >= width);
        assert(rest[i - width] == bytes[i]);
        lemma_ascii_boundary(rest, i - width);
    }
}

/// Every cut of a line of well-formed UTF-8 lies between two characters.
pub proof fn lemma_cut_boundary(bytes: Seq<u8>, i: int)
    requires
        valid_utf8(bytes),
        is_cut(bytes, i),
    ensures
        is_char_boundary(bytes, i),
{
    is_char_boundary_start_end_of_seq(bytes);
    if i != 0 && i != bytes.len() {
        if bytes[i] < 128 {
            lemma_ascii_boundary(bytes, i);
        } else {
            lemma_ascii_boundary(bytes, i - 1);
        }
    }
}

/// The text of `line` between two cuts.
pub fn span<'a>(line: &'a str, from: usize, to: usize) -> (part: &'a str)
    requires
        from <= to,
        is_cut(line.spec_bytes(), from as int),
        is_cut(line.spec_bytes(), to as int),
    ensures
        part.spec_bytes() == line.spec_bytes().subrange(from as int, to as int),
{
    let ghost bytes = line.spec_bytes();
    proof {
        encode_utf8_valid_utf8(line@);
        lemma_cut_boundary(bytes, to as int);
    }
    let (head, _) = line.split_at(to);
    proof {
        valid_utf8_split(bytes, to as int);
        assert(is_cut(head.spec_bytes(), from as int));
        lemma_cut_boundary(head.spec_bytes(), from as int);
    }
    let (_, part) = head.split_at(from);
    assert(part.spec_bytes() =~= bytes.subrange(from as int, to as int));
    part
}

} // verus!
