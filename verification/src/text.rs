//! Recognised text.

use vstd::prelude::*;
use vstd::string::*;
use vstd::utf8::*;

verus! {

/// Whether a character has the Unicode property White_Space.
pub open spec fn white_space(c: char) -> bool {
    let u = c as u32;
    ||| 0x9 <= u <= 0xD
    ||| u == 0x20
    ||| u == 0x85
    ||| u == 0xA0
    ||| u == 0x1680
    ||| 0x2000 <= u <= 0x200A
    ||| 0x2028 <= u <= 0x2029
    ||| u == 0x202F
    ||| u == 0x205F
    ||| u == 0x3000
}

/// `char::is_whitespace` says whether a character has the Unicode property White_Space, as
/// the Unicode Character Database lists it.
pub assume_specification[ char::is_whitespace ](c: char) -> (r: bool)
    ensures
        r == white_space(c),
;

/// Whether a text has no character but white space.
pub open spec fn blank(text: Seq<char>) -> bool {
    forall|i: int| 0 <= i < text.len() ==> white_space(#[trigger] text[i])
}

/// Whether a text has no character but white space.
pub fn is_blank(text: &str) -> (r: bool)
    ensures
        r == blank(text@),
{
    for c in it: text.chars()
        invariant
            it.seq() == text@,
            forall|i: int| 0 <= i < it.index() ==> white_space(#[trigger] text@[i]),
    {
        if !c.is_whitespace() {
            return false;
        }
    }
    true
}

/// How many bytes of a recognised text the log shows at most.
pub const EXCERPT_LEN: usize = 80;

/// The lesser of `EXCERPT_LEN` and a text's length in bytes.
pub open spec fn excerpt_limit(bytes: Seq<u8>) -> int {
    if bytes.len() <= EXCERPT_LEN {
        bytes.len() as int
    } else {
        EXCERPT_LEN as int
    }
}

/// `cut` is the last place, among the first `EXCERPT_LEN` bytes, at which the text can be cut
/// between two characters.
pub open spec fn is_excerpt_cut(bytes: Seq<u8>, cut: int) -> bool {
    &&& 0 <= cut <= excerpt_limit(bytes)
    &&& is_char_boundary(bytes, cut)
    &&& forall|i: int| cut < i <= excerpt_limit(bytes) ==> !#[trigger] is_char_boundary(bytes, i)
}

/// The beginning of a text for the log: its first `EXCERPT_LEN` bytes, less those of a
/// character that they would cut in two.
pub fn excerpt(text: &str) -> (head: &str)
    ensures
        is_excerpt_cut(text.spec_bytes(), head.spec_bytes().len() as int),
        head.spec_bytes() == text.spec_bytes().take(head.spec_bytes().len() as int),
{
    let len: usize = text.as_bytes().len();
    let ghost bytes = text.spec_bytes();
    let mut cut: usize = if len <= EXCERPT_LEN {
        len
    } else {
        EXCERPT_LEN
    };
    proof {
        encode_utf8_valid_utf8(text@);
        is_char_boundary_start_end_of_seq(bytes);
    }
    while !text.is_char_boundary(cut)
        invariant
            bytes == text.spec_bytes(),
            is_char_boundary(bytes, 0),
            cut <= excerpt_limit(bytes),
            forall|i: int|
                cut < i <= excerpt_limit(bytes) ==> !#[trigger] is_char_boundary(bytes, i),
        decreases cut,
    {
        cut = cut - 1;
    }
    let head = text.split_at(cut).0;
    assert(head.spec_bytes() =~= bytes.take(cut as int));
    head
}

/// The log shows exactly the first `EXCERPT_LEN` bytes of a text, or all of a shorter one, if
/// and only if the text is no longer or can be cut there between two characters.
pub proof fn law_excerpt_is_full(text: Seq<char>, cut: int)
    requires
        is_excerpt_cut(encode_utf8(text), cut),
    ensures
        cut == excerpt_limit(encode_utf8(text)) <==> encode_utf8(text).len() <= EXCERPT_LEN
            || is_char_boundary(encode_utf8(text), EXCERPT_LEN as int),
{
    encode_utf8_valid_utf8(text);
    is_char_boundary_start_end_of_seq(encode_utf8(text));
}

} // verus!
