//! Text and the bytes that stand for it.

use crate::bytes::bytes_eq;
use vstd::prelude::*;
use vstd::utf8::{encode_utf8, encode_utf8_decode_utf8};

verus! {

/// `std`'s `format!` with `{:#?}`: the pretty `Debug` rendering of `value`.
/// Nothing is claimed of the text.
#[verifier::external_body]
pub(crate) fn render<T: core::fmt::Debug>(value: &T) -> String {
    format!("{:#?}", value)
}

/// Two texts with the same bytes are the same text.
pub proof fn lemma_bytes_decide_text(a: Seq<char>, b: Seq<char>)
    ensures
        (encode_utf8(a) == encode_utf8(b)) == (a == b),
{
    encode_utf8_decode_utf8(a);
    encode_utf8_decode_utf8(b);
}

/// Decides whether two texts are the same.
pub fn str_eq(a: &str, b: &str) -> (r: bool)
    ensures
        r == (a@ == b@),
{
    proof {
        lemma_bytes_decide_text(a@, b@);
    }
    bytes_eq(a.as_bytes(), b.as_bytes())
}

/// Decides whether `bytes` are the bytes of `text`.
pub fn text_is(text: &str, bytes: &[u8]) -> (r: bool)
    ensures
        r == (encode_utf8(text@) == bytes@),
{
    bytes_eq(text.as_bytes(), bytes)
}

/// The position of the first full stop in `key`, or its length if it holds
/// none.
pub open spec fn first_dot(key: Seq<u8>) -> int
    decreases key.len(),
{
    if key.len() == 0 || key[0] == 0x2e {
        0
    } else {
        1 + first_dot(key.drop_first())
    }
}

pub proof fn lemma_first_dot_bounds(key: Seq<u8>)
    ensures
        0 <= first_dot(key) <= key.len(),
    decreases key.len(),
{
    if key.len() > 0 && key[0] != 0x2e {
        lemma_first_dot_bounds(key.drop_first());
    }
}

/// Finds the first full stop.
pub fn find_dot(key: &[u8]) -> (at: usize)
    ensures
        at == first_dot(key@),
        at <= key@.len(),
{
    let mut i: usize = 0;
    proof {
        assert(key@.skip(0) =~= key@);
    }
    while i < key.len() && key[i] != 0x2e
        invariant
            i <= key.len(),
            first_dot(key@) == i + first_dot(key@.skip(i as int)),
        decreases key.len() - i,
    {
        proof {
            assert(key@.skip(i as int).drop_first() =~= key@.skip(i + 1));
        }
        i += 1;
    }
    proof {
        lemma_first_dot_bounds(key@);
    }
    i
}

} // verus!
