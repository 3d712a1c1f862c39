//! Text by byte offsets and by suffix.

use vstd::prelude::*;
use vstd::string::StrSliceExecFns;
use vstd::string::StringSliceAdditionalSpecFns;
use vstd::utf8::{decode_utf8, encode_utf8, encode_utf8_decode_utf8, is_char_boundary};

verus! {

/// The text of the bytes from `start` to `end` of a source, if the two
/// offsets lie in the source, in this order, each between two characters.
pub open spec fn text_between(source: Seq<char>, start: int, end: int) -> Option<Seq<char>> {
    let bytes = encode_utf8(source);
    if 0 <= start <= end <= bytes.len() && is_char_boundary(bytes, start) && is_char_boundary(
        bytes.subrange(start, bytes.len() as int),
        end - start,
    ) {
        Some(decode_utf8(bytes.subrange(start, end)))
    } else {
        None
    }
}

/// Cuts the text of a byte range out of a source.
pub fn slice_text(source: &str, start: usize, end: usize) -> (text: Option<String>)
    ensures
        match text {
            Some(t) => text_between(source@, start as int, end as int) == Some(t@),
            None => text_between(source@, start as int, end as int) is None,
        },
{
    let length = source.as_bytes().len();
    if start > end || end > length || !source.is_char_boundary(start) {
        return None;
    }
    let (_, tail) = source.split_at(start);
    if !tail.is_char_boundary(end - start) {
        return None;
    }
    let (text, _) = tail.split_at(end - start);
    proof {
        let bytes = encode_utf8(source@);
        assert(text.spec_bytes() == bytes.subrange(start as int, end as int));
        encode_utf8_decode_utf8(text@);
    }
    Some(text.to_owned())
}

/// The text ends with the suffix.
pub open spec fn is_suffix(text: Seq<char>, suffix: Seq<char>) -> bool {
    suffix.len() <= text.len() && text.subrange(text.len() - suffix.len(), text.len() as int)
        == suffix
}

/// Whether a text ends with a suffix.
pub fn ends_with(text: &str, suffix: &str) -> (ends: bool)
    ensures
        ends == is_suffix(text@, suffix@),
{
    let length = text.unicode_len();
    let width = suffix.unicode_len();
    if width > length {
        return false;
    }
    let tail = text.substring_char(length - width, length);
    tail.to_owned() == suffix.to_owned()
}

} // verus!
