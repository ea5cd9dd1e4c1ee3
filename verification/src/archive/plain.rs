//! A look at the member headers of a container before it is handed on: do
//! they all name their members plainly?
//!
//! A container begins with eight bytes that mark it. Each member follows
//! with a header of 60 bytes, which holds the member's name in its first 16
//! bytes and its size, in decimal, in the bytes 48 to 57, and with that many
//! bytes of data, filled up to an even number.

use crate::bytes::{has_prefix, starts_with};
use vstd::prelude::*;

verus! {

/// `!<arch>` and a line feed: the first eight bytes of every container.
pub open spec fn container_magic() -> Seq<u8> {
    seq![0x21u8, 0x3c, 0x61, 0x72, 0x63, 0x68, 0x3e, 0x0a]
}

/// The value of the decimal digits `field[0..count]`.
pub open spec fn decimal(field: Seq<u8>, count: int) -> nat
    decreases count,
{
    if count <= 0 {
        0
    } else {
        decimal(field, count - 1) * 10 + (field[count - 1] - 0x30) as nat
    }
}

/// How many decimal digits `field` begins with.
pub open spec fn digits(field: Seq<u8>) -> int
    decreases field.len(),
{
    if field.len() > 0 && 0x30 <= field[0] <= 0x39 {
        1 + digits(field.drop_first())
    } else {
        0
    }
}

/// The number that a field of a member header holds, if it is written
/// plainly: decimal digits, at least one, and then nothing but spaces.
pub open spec fn plain_number(field: Seq<u8>) -> Option<nat> {
    if digits(field) >= 1 && forall|i: int| digits(field) <= i < field.len() ==> field[i] == 0x20 {
        Some(decimal(field, digits(field)))
    } else {
        None
    }
}

/// The size that the member header at `at` gives, if it is a plain number.
pub open spec fn member_size(deb: Seq<u8>, at: int) -> Option<nat> {
    plain_number(deb.subrange(at + 48, at + 58))
}

/// From the member header at `at` on, every header names its member plainly:
/// its name does not begin with `/`, which would make it a reference into a
/// table of names, and its size is a plain number.
pub open spec fn plain_from(deb: Seq<u8>, at: int) -> bool
    decreases deb.len() - at,
{
    if at < 0 || at + 60 > deb.len() {
        true
    } else if deb[at] == 0x2f {
        false
    } else {
        match member_size(deb, at) {
            None => false,
            Some(size) => if at + 60 + size + size % 2 > deb.len() {
                true
            } else {
                plain_from(deb, at + 60 + size + size % 2)
            },
        }
    }
}

/// The container names all its members plainly. What does not begin like a
/// container has no members, and so does.
pub open spec fn plain_container(deb: Seq<u8>) -> bool {
    has_prefix(deb, container_magic()) ==> plain_from(deb, 8)
}

pub proof fn lemma_digits_bounds(field: Seq<u8>)
    ensures
        0 <= digits(field) <= field.len(),
        forall|i: int| 0 <= i < digits(field) ==> 0x30 <= #[trigger] field[i] <= 0x39,
        digits(field) < field.len() ==> !(0x30 <= field[digits(field)] <= 0x39),
    decreases field.len(),
{
    if field.len() > 0 && 0x30 <= field[0] <= 0x39 {
        lemma_digits_bounds(field.drop_first());
        assert forall|i: int| 0 <= i < digits(field) implies 0x30 <= #[trigger] field[i]
            <= 0x39 by {
            if i > 0 {
                assert(field[i] == field.drop_first()[i - 1]);
            }
        }
        if digits(field) < field.len() {
            assert(field[digits(field)] == field.drop_first()[digits(field) - 1]);
        }
    }
}

/// A number of at most `count` digits is below the `count`-th power of ten.
pub proof fn lemma_decimal_bound(field: Seq<u8>, count: int)
    requires
        0 <= count <= 10,
        count <= field.len(),
        forall|i: int| 0 <= i < count ==> 0x30 <= #[trigger] field[i] <= 0x39,
    ensures
        decimal(field, count) < 10_000_000_000,
{
    lemma_decimal_power(field, count);
}

spec fn power_of_ten(count: int) -> nat
    decreases count,
{
    if count <= 0 {
        1
    } else {
        10 * power_of_ten(count - 1)
    }
}

proof fn lemma_decimal_power(field: Seq<u8>, count: int)
    requires
        0 <= count <= 10,
        count <= field.len(),
        forall|i: int| 0 <= i < count ==> 0x30 <= #[trigger] field[i] <= 0x39,
    ensures
        decimal(field, count) < power_of_ten(count),
        power_of_ten(count) <= 10_000_000_000,
    decreases count,
{
    reveal_with_fuel(power_of_ten, 12);
    if count > 0 {
        lemma_decimal_power(field, count - 1);
    }
}

/// Reads the number of a header field that is written plainly.
pub fn read_plain_number(field: &[u8]) -> (number: Option<u64>)
    requires
        field@.len() <= 10,
    ensures
        match number {
            Some(n) => plain_number(field@) == Some(n as nat) && n < 10_000_000_000,
            None => plain_number(field@) is None,
        },
{
    let mut value: u64 = 0;
    let mut i: usize = 0;
    proof {
        lemma_digits_bounds(field@);
    }
    while i < field.len() && 0x30 <= field[i] && field[i] <= 0x39
        invariant
            i <= field.len(),
            field@.len() <= 10,
            i <= digits(field@),
            value == decimal(field@, i as int),
            forall|k: int| 0 <= k < digits(field@) ==> 0x30 <= #[trigger] field@[k] <= 0x39,
            digits(field@) <= field@.len(),
            digits(field@) < field@.len() ==> !(0x30 <= field@[digits(field@)] <= 0x39),
        decreases field.len() - i,
    {
        proof {
            lemma_decimal_bound(field@, i as int);
            assert(i < digits(field@)) by {
                if i >= digits(field@) {
                    assert(i == digits(field@));
                }
            }
        }
        value = value * 10 + (field[i] - 0x30) as u64;
        i += 1;
    }
    proof {
        assert(i == digits(field@)) by {
            if i < digits(field@) {
                assert(0x30 <= field@[i as int] <= 0x39);
            }
        }
        lemma_decimal_bound(field@, i as int);
    }
    if i == 0 {
        return None;
    }
    let mut k: usize = i;
    while k < field.len()
        invariant
            i <= k <= field.len(),
            i == digits(field@),
            value < 10_000_000_000,
            forall|j: int| i <= j < k ==> field@[j] == 0x20,
        decreases field.len() - k,
    {
        if field[k] != 0x20 {
            proof {
                assert(field@[k as int] != 0x20);
            }
            return None;
        }
        k += 1;
    }
    Some(value)
}

/// Tells whether the container names all its members plainly.
pub fn names_are_plain(deb: &[u8]) -> (plain: bool)
    ensures
        plain == plain_container(deb@),
{
    let magic: [u8; 8] = [0x21, 0x3c, 0x61, 0x72, 0x63, 0x68, 0x3e, 0x0a];
    proof {
        assert(magic@ =~= container_magic());
    }
    if !starts_with(deb, magic.as_slice()) {
        return true;
    }
    let mut at: usize = 8;
    while deb.len() - at >= 60
        invariant
            8 <= at <= deb.len(),
            has_prefix(deb@, container_magic()),
            plain_from(deb@, 8) == plain_from(deb@, at as int),
        decreases deb.len() - at,
    {
        if deb[at] == 0x2f {
            return false;
        }
        let field = vstd::slice::slice_subrange(deb, at + 48, at + 58);
        proof {
            assert(field@ == deb@.subrange(at + 48, at + 58));
        }
        let size = match read_plain_number(field) {
            None => {
                return false;
            },
            Some(size) => size,
        };
        let step: u64 = 60 + size + size % 2;
        if step > (deb.len() - at) as u64 {
            return true;
        }
        at = at + step as usize;
    }
    true
}

} // verus!
