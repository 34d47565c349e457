//! Recognising the text of a number.
//!
//! A fact's text counts as a number when it is a decimal floating-point
//! literal: an optional sign, then digits with at most one point among them,
//! then an optional exponent. Nothing may stand before or after it, white
//! space included, and no word stands for a number: `inf` and `nan` are
//! none.

use vstd::prelude::*;
use vstd::utf8::encode_utf8;

verus! {

/// `+`
pub const PLUS: u8 = 0x2b;

/// `-`
pub const MINUS: u8 = 0x2d;

/// `.`
pub const POINT: u8 = 0x2e;

/// `0`
pub const ZERO: u8 = 0x30;

/// `9`
pub const NINE: u8 = 0x39;

/// `E`
pub const UPPER_E: u8 = 0x45;

/// `e`
pub const LOWER_E: u8 = 0x65;

/// A decimal digit.
pub open spec fn is_digit(byte: u8) -> bool {
    ZERO <= byte <= NINE
}

/// A sign.
pub open spec fn is_sign(byte: u8) -> bool {
    byte == PLUS || byte == MINUS
}

/// The letter that begins an exponent.
pub open spec fn is_exponent_mark(byte: u8) -> bool {
    byte == LOWER_E || byte == UPPER_E
}

/// Every byte is a digit.
pub open spec fn all_digits(bytes: Seq<u8>) -> bool {
    forall|i: int| 0 <= i < bytes.len() ==> is_digit(#[trigger] bytes[i])
}

/// The bytes without the sign that they may begin with.
pub open spec fn unsigned(bytes: Seq<u8>) -> Seq<u8> {
    if bytes.len() > 0 && is_sign(bytes[0]) {
        bytes.skip(1)
    } else {
        bytes
    }
}

/// The first `whole` bytes are digits, and either nothing follows or a point
/// and more digits; there is at least one digit in all.
pub open spec fn mantissa_with_point_at(bytes: Seq<u8>, whole: int) -> bool {
    &&& 0 <= whole <= bytes.len()
    &&& all_digits(bytes.take(whole))
    &&& if whole == bytes.len() {
        whole >= 1
    } else {
        bytes[whole] == POINT && all_digits(bytes.skip(whole + 1)) && bytes.len() >= 2
    }
}

/// Digits with at most one point among them, and at least one digit.
pub open spec fn is_mantissa(bytes: Seq<u8>) -> bool {
    exists|whole: int| mantissa_with_point_at(bytes, whole)
}

/// An exponent mark, an optional sign, and at least one digit.
pub open spec fn is_exponent(bytes: Seq<u8>) -> bool {
    &&& bytes.len() >= 1
    &&& is_exponent_mark(bytes[0])
    &&& unsigned(bytes.skip(1)).len() >= 1
    &&& all_digits(unsigned(bytes.skip(1)))
}

/// The first `split` bytes are a mantissa, and either nothing follows or an
/// exponent.
pub open spec fn number_with_exponent_at(bytes: Seq<u8>, split: int) -> bool {
    &&& 0 <= split <= bytes.len()
    &&& is_mantissa(bytes.take(split))
    &&& (split == bytes.len() || is_exponent(bytes.skip(split)))
}

/// A mantissa with an optional exponent.
pub open spec fn is_finite_number(bytes: Seq<u8>) -> bool {
    exists|split: int| number_with_exponent_at(bytes, split)
}

/// The bytes are a decimal floating-point literal.
pub open spec fn is_float_literal(bytes: Seq<u8>) -> bool {
    is_finite_number(unsigned(bytes))
}

/// The text is a decimal floating-point literal.
pub open spec fn is_number_text(text: Seq<char>) -> bool {
    is_float_literal(encode_utf8(text))
}

/// The end of the run of digits that begins at `from`.
fn digits_end(bytes: &[u8], from: usize) -> (end: usize)
    requires
        from <= bytes@.len(),
    ensures
        from <= end <= bytes@.len(),
        all_digits(bytes@.subrange(from as int, end as int)),
        end < bytes@.len() ==> !is_digit(bytes@[end as int]),
{
    let mut end = from;
    while end < bytes.len() && ZERO <= bytes[end] && bytes[end] <= NINE
        invariant
            from <= end <= bytes@.len(),
            all_digits(bytes@.subrange(from as int, end as int)),
        decreases bytes@.len() - end,
    {
        proof {
            let grown = bytes@.subrange(from as int, end + 1);
            assert forall|i: int| 0 <= i < grown.len() implies is_digit(#[trigger] grown[i]) by {
                if i < end - from {
                    assert(grown[i] == bytes@.subrange(from as int, end as int)[i]);
                }
            }
        }
        end += 1;
    }
    end
}

/// Where a mantissa stands at the start of the bytes, it ends where the run
/// of digits and points ends, and a split of the whole into mantissa and
/// exponent can only be at the mantissa's end.
proof fn lemma_mantissa_end(bytes: Seq<u8>, whole: int, end: int)
    requires
        0 <= whole <= end <= bytes.len(),
        all_digits(bytes.take(whole)),
        whole < bytes.len() ==> !is_digit(bytes[whole]),
        if whole < bytes.len() && bytes[whole] == POINT {
            whole + 1 <= end && all_digits(bytes.subrange(whole + 1, end)) && (end < bytes.len()
                ==> !is_digit(bytes[end]))
        } else {
            end == whole
        },
    ensures
        is_mantissa(bytes.take(end)) <==> (if end == whole {
            whole >= 1
        } else {
            end >= 2
        }),
        forall|split: int|
            number_with_exponent_at(bytes, split) ==> split == end,
{
    let head = bytes.take(end);
    if end == whole {
        if whole >= 1 {
            assert(head.take(whole) =~= bytes.take(whole));
            assert(mantissa_with_point_at(head, whole));
        }
        assert forall|w: int| mantissa_with_point_at(head, w) implies whole >= 1 by {
            if w < head.len() {
                assert(head[w] == POINT);
                assert(head[w] == bytes.take(whole)[w]);
            }
        }
    } else {
        if end >= 2 {
            assert(head.take(whole) =~= bytes.take(whole));
            assert(head.skip(whole + 1) =~= bytes.subrange(whole + 1, end));
            assert(mantissa_with_point_at(head, whole));
        }
        assert forall|w: int| mantissa_with_point_at(head, w) implies end >= 2 by {
            if w == head.len() && end == 1 {
                assert(head.take(w)[0] == bytes[0]);
            }
        }
    }
    assert forall|split: int| number_with_exponent_at(bytes, split) implies split == end by {
        let part = bytes.take(split);
        let w = choose|w: int| mantissa_with_point_at(part, w);
        // the digits before the point
        assert(w == whole) by {
            if w < whole {
                // part[w] is a point or the mantissa ends there
                if w < part.len() {
                    assert(part[w] == bytes[w]);
                    assert(bytes.take(whole)[w] == bytes[w]);
                } else {
                    // split == w < whole: the exponent mark would be a digit
                    assert(split == w);
                    assert(bytes.skip(split)[0] == bytes[split]);
                    assert(bytes.take(whole)[split] == bytes[split]);
                }
            } else if w > whole {
                assert(part.take(w)[whole] == bytes[whole]);
            }
        }
        if split == whole {
            // no point was taken
            if whole < bytes.len() && bytes[whole] == POINT {
                assert(bytes.skip(split)[0] == bytes[whole]);
            }
        } else {
            assert(part[whole] == bytes[whole]);
            assert(bytes[whole] == POINT);
            if split < end {
                assert(split < bytes.len());
                assert(bytes.skip(split)[0] == bytes[split]);
                assert(bytes.subrange(whole + 1, end)[split - whole - 1] == bytes[split]);
            } else if split > end {
                assert(part.skip(whole + 1)[end - whole - 1] == bytes[end]);
            }
        }
    }
}

/// Whether the bytes from `from` on are a mantissa with an optional exponent.
fn is_finite_number_from(bytes: &[u8], from: usize) -> (accepted: bool)
    requires
        from <= bytes@.len(),
    ensures
        accepted == is_finite_number(bytes@.skip(from as int)),
{
    let ghost rest = bytes@.skip(from as int);
    let whole_end = digits_end(bytes, from);
    let end = if whole_end < bytes.len() && bytes[whole_end] == POINT {
        digits_end(bytes, whole_end + 1)
    } else {
        whole_end
    };
    let has_digit = if end == whole_end {
        whole_end > from
    } else {
        end - from >= 2
    };
    proof {
        assert(rest.take(whole_end - from) =~= bytes@.subrange(from as int, whole_end as int));
        if whole_end < bytes@.len() {
            assert(rest[whole_end - from] == bytes@[whole_end as int]);
        }
        if end != whole_end {
            assert(rest.subrange(whole_end - from + 1, end - from) =~= bytes@.subrange(
                whole_end + 1,
                end as int,
            ));
            if end < bytes@.len() {
                assert(rest[end - from] == bytes@[end as int]);
            }
        }
        lemma_mantissa_end(rest, whole_end - from, end - from);
    }
    if !has_digit {
        return false;
    }
    if end == bytes.len() {
        proof {
            assert(number_with_exponent_at(rest, end - from));
        }
        return true;
    }
    let ghost tail = rest.skip(end - from);
    proof {
        assert(tail.len() >= 1);
        assert(tail[0] == bytes@[end as int]);
    }
    if bytes[end] != LOWER_E && bytes[end] != UPPER_E {
        return false;
    }
    let after_mark = end + 1;
    let digits_from = if after_mark < bytes.len() && (bytes[after_mark] == PLUS
        || bytes[after_mark] == MINUS) {
        after_mark + 1
    } else {
        after_mark
    };
    let digits_to = digits_end(bytes, digits_from);
    proof {
        let marked = tail.skip(1);
        assert(marked =~= bytes@.skip(after_mark as int));
        if marked.len() > 0 {
            assert(marked[0] == bytes@[after_mark as int]);
        }
        assert(unsigned(marked) =~= bytes@.skip(digits_from as int));
        let digits = unsigned(marked);
        if digits_to == bytes@.len() {
            assert(digits =~= bytes@.subrange(digits_from as int, digits_to as int));
        } else {
            assert(digits[digits_to - digits_from] == bytes@[digits_to as int]);
        }
        if digits_to == bytes@.len() && digits_to > digits_from {
            assert(is_exponent(tail));
            assert(number_with_exponent_at(rest, end - from));
        }
    }
    digits_to == bytes.len() && digits_to > digits_from
}

/// Whether the bytes are a decimal floating-point literal.
pub fn float_literal(bytes: &[u8]) -> (accepted: bool)
    ensures
        accepted == is_float_literal(bytes@),
{
    let from: usize = if bytes.len() > 0 && (bytes[0] == PLUS || bytes[0] == MINUS) {
        1
    } else {
        0
    };
    assert(unsigned(bytes@) =~= bytes@.skip(from as int));
    is_finite_number_from(bytes, from)
}

/// Whether the text is a decimal floating-point literal.
pub fn is_number(text: &str) -> (accepted: bool)
    ensures
        accepted == is_number_text(text@),
{
    float_literal(text.as_bytes())
}

} // verus!
