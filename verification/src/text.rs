//! Comparing and decoding text.

use vstd::prelude::*;
use vstd::string::StringSliceAdditionalSpecFns;
use vstd::utf8::{
    decode_utf8, encode_scalar, encode_utf8, is_char_boundary, length_of_first_scalar,
    pop_first_scalar, valid_utf8,
};

verus! {

/// Whether two byte slices hold the same bytes.
pub fn bytes_equal(left: &[u8], right: &[u8]) -> (same: bool)
    ensures
        same == (left@ == right@),
{
    if left.len() != right.len() {
        return false;
    }
    let mut i: usize = 0;
    while i < left.len()
        invariant
            left@.len() == right@.len(),
            i <= left@.len(),
            forall|j: int| 0 <= j < i ==> left@[j] == right@[j],
        decreases left@.len() - i,
    {
        if left[i] != right[i] {
            return false;
        }
        i += 1;
    }
    assert(left@ =~= right@);
    true
}

/// Two texts are the same exactly when their encodings are.
pub proof fn lemma_encoding_is_injective(left: Seq<char>, right: Seq<char>)
    ensures
        (encode_utf8(left) == encode_utf8(right)) == (left == right),
{
    vstd::utf8::encode_utf8_decode_utf8(left);
    vstd::utf8::encode_utf8_decode_utf8(right);
}

/// Whether two strings hold the same characters.
pub fn str_equal(left: &str, right: &str) -> (same: bool)
    ensures
        same == (left@ == right@),
{
    proof {
        lemma_encoding_is_injective(left@, right@);
    }
    bytes_equal(left.as_bytes(), right.as_bytes())
}

/// `text` begins with the characters of `prefix`.
pub open spec fn starts_with(text: Seq<char>, prefix: Seq<char>) -> bool {
    prefix.len() <= text.len() && text.subrange(0, prefix.len() as int) == prefix
}

/// `text` ends with the characters of `suffix`.
pub open spec fn ends_with(text: Seq<char>, suffix: Seq<char>) -> bool {
    suffix.len() <= text.len() && text.subrange(text.len() - suffix.len(), text.len() as int)
        == suffix
}

/// The encoding of two texts one after the other is the two encodings one
/// after the other.
pub proof fn lemma_encode_concat(left: Seq<char>, right: Seq<char>)
    ensures
        encode_utf8(left + right) == encode_utf8(left) + encode_utf8(right),
    decreases left.len(),
{
    if left.len() == 0 {
        assert(left + right =~= right);
        assert(encode_utf8(left) + encode_utf8(right) =~= encode_utf8(right));
    } else {
        let rest = left.drop_first();
        lemma_encode_concat(rest, right);
        assert((left + right).drop_first() =~= rest + right);
        assert((left + right)[0] == left[0]);
        assert(encode_utf8(left + right) =~= encode_scalar(left[0] as u32) + (encode_utf8(rest)
            + encode_utf8(right)));
        assert(encode_utf8(left) + encode_utf8(right) =~= encode_scalar(left[0] as u32) + (
        encode_utf8(rest) + encode_utf8(right)));
    }
}

/// Where well-formed bytes begin with the encoding of a text, that text's
/// end falls between two characters.
pub proof fn lemma_prefix_boundary(bytes: Seq<u8>, prefix: Seq<char>)
    requires
        valid_utf8(bytes),
        encode_utf8(prefix).len() <= bytes.len(),
        bytes.subrange(0, encode_utf8(prefix).len() as int) == encode_utf8(prefix),
    ensures
        is_char_boundary(bytes, encode_utf8(prefix).len() as int),
    decreases prefix.len(),
{
    let encoded = encode_utf8(prefix);
    if prefix.len() > 0 {
        vstd::utf8::encode_utf8_first_scalar(prefix);
        let tail = prefix.drop_first();
        let first = encode_scalar(prefix[0] as u32);
        assert(encoded == first + encode_utf8(tail));
        assert(encoded.len() >= 1);
        assert(bytes[0] == bytes.subrange(0, encoded.len() as int)[0]);
        let width = length_of_first_scalar(bytes);
        assert(width == length_of_first_scalar(encoded));
        assert(width == first.len());
        let rest = pop_first_scalar(bytes);
        assert(valid_utf8(rest));
        assert(rest.subrange(0, encode_utf8(tail).len() as int) =~= encode_utf8(tail)) by {
            assert forall|i: int| 0 <= i < encode_utf8(tail).len() implies rest[i] == encode_utf8(
                tail,
            )[i] by {
                assert(rest[i] == bytes[width + i]);
                assert(bytes[width + i] == bytes.subrange(0, encoded.len() as int)[width + i]);
                assert(encoded[width + i] == encode_utf8(tail)[i]);
            }
        }
        lemma_prefix_boundary(rest, tail);
    }
}

/// The rest of `text` after `prefix`, where `text` begins with `prefix`.
pub fn strip_prefix<'a>(text: &'a str, prefix: &str) -> (rest: Option<&'a str>)
    ensures
        match rest {
            Some(r) => starts_with(text@, prefix@) && r@ == text@.skip(prefix@.len() as int),
            None => !starts_with(text@, prefix@),
        },
{
    broadcast use vstd::utf8::group_utf8_lib;

    let text_bytes = text.as_bytes();
    let prefix_bytes = prefix.as_bytes();
    let n = prefix_bytes.len();
    proof {
        if starts_with(text@, prefix@) {
            let tail = text@.skip(prefix@.len() as int);
            assert(text@ =~= prefix@ + tail);
            lemma_encode_concat(prefix@, tail);
            assert(text_bytes@.subrange(0, n as int) =~= prefix_bytes@);
        }
    }
    if text_bytes.len() < n {
        return None;
    }
    let mut i: usize = 0;
    while i < n
        invariant
            n == prefix_bytes@.len(),
            n <= text_bytes@.len(),
            i <= n,
            forall|j: int| 0 <= j < i ==> text_bytes@[j] == prefix_bytes@[j],
            starts_with(text@, prefix@) ==> text_bytes@.subrange(0, n as int) == prefix_bytes@,
        decreases n - i,
    {
        if text_bytes[i] != prefix_bytes[i] {
            proof {
                if starts_with(text@, prefix@) {
                    assert(text_bytes@.subrange(0, n as int)[i as int] == text_bytes@[i as int]);
                }
            }
            return None;
        }
        i += 1;
    }
    proof {
        assert(text_bytes@.subrange(0, n as int) =~= prefix_bytes@);
        lemma_prefix_boundary(text_bytes@, prefix@);
        vstd::utf8::decode_utf8_split(text_bytes@, n as int);
        vstd::utf8::valid_utf8_split(text_bytes@, n as int);
    }
    let (_, rest) = text.split_at(n);
    proof {
        let tail_bytes = text_bytes@.subrange(n as int, text_bytes@.len() as int);
        assert(rest.spec_bytes() == tail_bytes);
        assert(decode_utf8(encode_utf8(rest@)) == rest@);
        assert(decode_utf8(encode_utf8(text@)) == text@);
        assert(decode_utf8(encode_utf8(prefix@)) == prefix@);
        assert(text@ =~= prefix@ + rest@);
        assert(text@.subrange(0, prefix@.len() as int) =~= prefix@);
        assert(text@.skip(prefix@.len() as int) =~= rest@);
    }
    Some(rest)
}

/// Whether `text` ends with `suffix`.
pub fn has_suffix(text: &str, suffix: &str) -> (found: bool)
    ensures
        found == ends_with(text@, suffix@),
{
    broadcast use vstd::utf8::group_utf8_lib;

    let text_bytes = text.as_bytes();
    let suffix_bytes = suffix.as_bytes();
    let n = suffix_bytes.len();
    proof {
        if ends_with(text@, suffix@) {
            let head = text@.take(text@.len() - suffix@.len());
            assert(text@ =~= head + suffix@);
            lemma_encode_concat(head, suffix@);
            assert(text_bytes@.subrange(text_bytes@.len() - n, text_bytes@.len() as int)
                =~= suffix_bytes@);
        }
    }
    if text_bytes.len() < n {
        return false;
    }
    let start = text_bytes.len() - n;
    let mut i: usize = 0;
    while i < n
        invariant
            n == suffix_bytes@.len(),
            start + n == text_bytes@.len(),
            text_bytes@.len() <= usize::MAX,
            i <= n,
            forall|j: int| 0 <= j < i ==> text_bytes@[start + j] == suffix_bytes@[j],
            ends_with(text@, suffix@) ==> text_bytes@.subrange(
                start as int,
                text_bytes@.len() as int,
            ) == suffix_bytes@,
        decreases n - i,
    {
        if text_bytes[start + i] != suffix_bytes[i] {
            proof {
                if ends_with(text@, suffix@) {
                    assert(text_bytes@.subrange(start as int, text_bytes@.len() as int)[i as int]
                        == text_bytes@[start + i]);
                }
            }
            return false;
        }
        i += 1;
    }
    proof {
        let tail_bytes = text_bytes@.subrange(start as int, text_bytes@.len() as int);
        assert(tail_bytes =~= suffix_bytes@);
        if n == 0 {
            if suffix@.len() > 0 {
                vstd::utf8::encode_utf8_first_scalar(suffix@);
            }
            assert(text@.subrange(text@.len() - suffix@.len(), text@.len() as int) =~= suffix@);
        } else {
            if suffix@.len() > 0 {
                vstd::utf8::encode_utf8_first_scalar(suffix@);
            }
            assert(!vstd::utf8::is_continuation_byte(suffix_bytes@[0]));
            assert(text_bytes@[start as int] == suffix_bytes@[0]);
            vstd::utf8::is_char_boundary_iff_not_is_continuation_byte(text_bytes@, start as int);
            vstd::utf8::decode_utf8_split(text_bytes@, start as int);
            vstd::utf8::valid_utf8_split(text_bytes@, start as int);
            let head = decode_utf8(text_bytes@.subrange(0, start as int));
            assert(decode_utf8(encode_utf8(text@)) == text@);
            assert(decode_utf8(encode_utf8(suffix@)) == suffix@);
            assert(text@ =~= head + suffix@);
            assert(text@.subrange(text@.len() - suffix@.len(), text@.len() as int) =~= suffix@);
        }
    }
    true
}

/// `core::str::from_utf8`: the text that `bytes` encode, where they are
/// well-formed UTF-8, and nothing where they are not. Assumed, not proved.
#[verifier::external_body]
pub(crate) fn str_from_utf8(bytes: &[u8]) -> (text: Option<&str>)
    ensures
        match text {
            Some(s) => valid_utf8(bytes@) && s@ == decode_utf8(bytes@),
            None => !valid_utf8(bytes@),
        },
{
    core::str::from_utf8(bytes).ok()
}

} // verus!
