//! Texts for tests of what rejects a character that is neither a letter nor a digit.
use vstd::prelude::*;

verus! {

/// True if the byte is an ASCII letter or digit.
pub open spec fn alphanumeric(c: u8) -> bool {
    (0x30 <= c <= 0x39) || (0x41 <= c <= 0x5a) || (0x61 <= c <= 0x7a)
}

/// True if the byte is an ASCII letter or digit.
pub fn is_ascii_alphanumeric(c: u8) -> (b: bool)
    ensures
        b == alphanumeric(c),
{
    (0x30 <= c && c <= 0x39) || (0x41 <= c && c <= 0x5a) || (0x61 <= c && c <= 0x7a)
}

/// The length of the text that `length_draw` stands for: between one and `max_len`.
pub open spec fn text_length(length_draw: usize, max_len: usize) -> int {
    1 + length_draw as int % max_len as int
}

/// A text of letters and digits with the byte `c` in one place.
///
/// The length of the text follows from `length_draw`: it is between one and `max_len`.
/// The place of `c` follows from `index_draw`. Every other place holds the byte that
/// `letters` has there.
pub fn text_with_non_ascii(
    c: u8,
    length_draw: usize,
    index_draw: usize,
    letters: &Vec<u8>,
    max_len: usize,
) -> (text: Vec<u8>)
    requires
        !alphanumeric(c),
        max_len > 0,
        letters@.len() >= max_len,
    ensures
        text@.len() == text_length(length_draw, max_len),
        text@ == letters@.take(text_length(length_draw, max_len)).update(
            index_draw as int % text_length(length_draw, max_len),
            c,
        ),
{
    let text_len = 1 + length_draw % max_len;
    let random_index_to_replace = index_draw % text_len;
    let mut text: Vec<u8> = Vec::new();
    let mut idx: usize = 0;
    while idx < text_len
        invariant
            0 <= idx <= text_len <= letters@.len(),
            random_index_to_replace < text_len,
            text@.len() == idx,
            forall|j: int|
                0 <= j < idx ==> text@[j] == (if j == random_index_to_replace {
                    c
                } else {
                    letters@[j]
                }),
        decreases text_len - idx,
    {
        if idx != random_index_to_replace {
            text.push(letters[idx]);
        } else {
            text.push(c);
        }
        idx = idx + 1;
    }
    proof {
        assert(text@ =~= letters@.take(text_len as int).update(
            random_index_to_replace as int,
            c,
        ));
    }
    text
}

} // verus!
