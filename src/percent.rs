//! Percent-encoding under RFC 3986's unreserved-character rule.

use vstd::prelude::*;
use vstd::utf8::{encode_scalar, encode_utf8, is_ascii_chars, is_ascii_chars_encode_utf8};

use crate::text::push_char;

verus! {

pub const HEX_UPPER: [char; 16] = [
    '0', '1', '2', '3', '4', '5', '6', '7', '8', '9', 'A', 'B', 'C', 'D', 'E', 'F',
];

/// Letters, digits, `-`, `.`, `_` and `~` pass through unescaped.
pub open spec fn is_unreserved(b: u8) -> bool {
    (0x41 <= b <= 0x5a) || (0x61 <= b <= 0x7a) || (0x30 <= b <= 0x39) || b == 0x2d || b == 0x2e
        || b == 0x5f || b == 0x7e
}

/// One byte of the input: itself when unreserved, else `%` and two upper-case
/// hex digits.
pub open spec fn encode_byte(b: u8) -> Seq<char> {
    if is_unreserved(b) {
        seq![b as char]
    } else {
        seq!['%', HEX_UPPER@[(b / 16) as int], HEX_UPPER@[(b % 16) as int]]
    }
}

pub open spec fn percent_encode_bytes(bytes: Seq<u8>) -> Seq<char>
    decreases bytes.len(),
{
    if bytes.len() == 0 {
        Seq::empty()
    } else {
        percent_encode_bytes(bytes.drop_last()) + encode_byte(bytes.last())
    }
}

/// The percent-encoding of a text: each byte of its UTF-8 form in turn.
pub open spec fn percent_encode(s: Seq<char>) -> Seq<char> {
    percent_encode_bytes(encode_utf8(s))
}

/// Percent-encodes `input`: every byte of its UTF-8 form that is not a letter,
/// digit, `-`, `.`, `_` or `~` becomes `%XX` in upper-case hex.
pub fn url_encode(input: &str) -> (r: String)
    ensures
        r@ == percent_encode(input@),
{
    let bytes = input.as_bytes();
    let mut r = String::new();
    let mut i: usize = 0;
    while i < bytes.len()
        invariant
            i <= bytes@.len(),
            bytes@ == encode_utf8(input@),
            r@ == percent_encode_bytes(bytes@.take(i as int)),
        decreases bytes@.len() - i,
    {
        let b = bytes[i];
        let ghost before = r@;
        if (0x41 <= b && b <= 0x5a) || (0x61 <= b && b <= 0x7a) || (0x30 <= b && b <= 0x39)
            || b == 0x2d || b == 0x2e || b == 0x5f || b == 0x7e {
            push_char(&mut r, b as char);
        } else {
            push_char(&mut r, '%');
            push_char(&mut r, HEX_UPPER[(b / 16) as usize]);
            push_char(&mut r, HEX_UPPER[(b % 16) as usize]);
        }
        proof {
            assert(bytes@.take(i + 1).drop_last() =~= bytes@.take(i as int));
            assert(r@ =~= before + encode_byte(b));
        }
        i += 1;
    }
    assert(bytes@.take(bytes@.len() as int) =~= bytes@);
    r
}

/// A character that encoding passes through: a letter, a digit, `-`, `.`,
/// `_` or `~`.
pub open spec fn is_unreserved_char(c: char) -> bool {
    ||| 'A' <= c <= 'Z'
    ||| 'a' <= c <= 'z'
    ||| '0' <= c <= '9'
    ||| c == '-'
    ||| c == '.'
    ||| c == '_'
    ||| c == '~'
}

proof fn lemma_encoded_length(bytes: Seq<u8>)
    ensures
        percent_encode_bytes(bytes).len() >= bytes.len(),
        percent_encode_bytes(bytes).len() == bytes.len() <==> forall|i: int|
            0 <= i < bytes.len() ==> is_unreserved(#[trigger] bytes[i]),
    decreases bytes.len(),
{
    if bytes.len() > 0 {
        let init = bytes.drop_last();
        lemma_encoded_length(init);
        if forall|i: int| 0 <= i < bytes.len() ==> is_unreserved(#[trigger] bytes[i]) {
            assert forall|i: int| 0 <= i < init.len() implies is_unreserved(#[trigger] init[i]) by {
                assert(init[i] == bytes[i]);
            }
            assert(is_unreserved(bytes[bytes.len() - 1]));
        } else {
            let k = choose|k: int| 0 <= k < bytes.len() && !is_unreserved(#[trigger] bytes[k]);
            if k < init.len() {
                assert(init[k] == bytes[k]);
            }
        }
    }
}

proof fn lemma_encoded_unreserved(bytes: Seq<u8>)
    requires
        forall|i: int| 0 <= i < bytes.len() ==> is_unreserved(#[trigger] bytes[i]),
    ensures
        percent_encode_bytes(bytes) == bytes.map_values(|b: u8| b as char),
    decreases bytes.len(),
{
    if bytes.len() > 0 {
        let init = bytes.drop_last();
        assert forall|i: int| 0 <= i < init.len() implies is_unreserved(#[trigger] init[i]) by {
            assert(init[i] == bytes[i]);
        }
        lemma_encoded_unreserved(init);
        assert(is_unreserved(bytes[bytes.len() - 1]));
        assert(percent_encode_bytes(bytes) =~= bytes.map_values(|b: u8| b as char));
    }
}

proof fn lemma_utf8_length(s: Seq<char>)
    ensures
        encode_utf8(s).len() >= s.len(),
    decreases s.len(),
{
    if s.len() > 0 {
        lemma_utf8_length(s.drop_first());
        assert(encode_scalar(s[0] as u32).len() >= 1);
    }
}

/// Encoding leaves a text unchanged exactly when every character of it is a
/// letter, a digit, `-`, `.`, `_` or `~`.
pub proof fn lemma_encoding_fixes_exactly_unreserved(s: Seq<char>)
    ensures
        percent_encode(s) == s <==> forall|i: int|
            0 <= i < s.len() ==> is_unreserved_char(#[trigger] s[i]),
{
    let bytes = encode_utf8(s);
    lemma_encoded_length(bytes);
    lemma_utf8_length(s);
    if percent_encode(s) == s {
        assert(percent_encode_bytes(bytes).len() == bytes.len());
        lemma_encoded_unreserved(bytes);
        assert forall|i: int| 0 <= i < s.len() implies is_unreserved_char(#[trigger] s[i]) by {
            assert(s[i] == bytes[i] as char);
            assert(is_unreserved(bytes[i]));
        }
    }
    if forall|i: int| 0 <= i < s.len() ==> is_unreserved_char(#[trigger] s[i]) {
        assert(is_ascii_chars(s));
        is_ascii_chars_encode_utf8(s);
        assert forall|i: int| 0 <= i < bytes.len() implies is_unreserved(#[trigger] bytes[i]) by {
            assert(s[i] as u8 == bytes[i]);
            assert(is_unreserved_char(s[i]));
        }
        lemma_encoded_unreserved(bytes);
        assert forall|i: int| 0 <= i < s.len() implies #[trigger] percent_encode(s)[i] == s[i] by {
            assert(s[i] as u8 == bytes[i]);
            assert(is_unreserved_char(s[i]));
        }
        assert(percent_encode(s) =~= s);
    }
}

} // verus!
