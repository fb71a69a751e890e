//! Store-assigned identifiers.
//!
//! An identifier is written as exactly 24 hexadecimal characters.  This
//! module parses that form (rejecting anything else as `InvalidId` before
//! any store access happens), renders an identifier back to hexadecimal,
//! and proves that rendering then parsing returns the identifier unchanged.

use crate::error::ServiceError;
use vstd::arithmetic::div_mod::{lemma_div_denominator, lemma_fundamental_div_mod};
use vstd::prelude::*;
use vstd::string::*;

verus! {

/// 16 to the power `k`.
pub open spec fn pow16(k: nat) -> int
    decreases k,
{
    if k == 0 {
        1
    } else {
        16 * pow16((k - 1) as nat)
    }
}

proof fn lemma_pow16_pos(k: nat)
    ensures
        pow16(k) >= 1,
    decreases k,
{
    if k > 0 {
        lemma_pow16_pos((k - 1) as nat);
    }
}

proof fn lemma_pow16_increases(j: nat, k: nat)
    requires
        j <= k,
    ensures
        pow16(j) <= pow16(k),
    decreases k,
{
    if j < k {
        lemma_pow16_increases(j, (k - 1) as nat);
        lemma_pow16_pos((k - 1) as nat);
    }
}

/// The numeric value of a hexadecimal character, or 16 for any other
/// character.
pub open spec fn hex_val(c: char) -> int {
    let u = (c as u32) as int;
    if 48 <= u < 58 {
        u - 48
    } else if 97 <= u < 103 {
        u - 87
    } else if 65 <= u < 71 {
        u - 55
    } else {
        16
    }
}

/// Whether a character is a hexadecimal digit (either case).
pub open spec fn is_hex_digit(c: char) -> bool {
    hex_val(c) < 16
}

/// Whether a character is a lowercase hexadecimal digit: a decimal digit
/// or `a` to `f`.
pub open spec fn is_lower_hex_digit(c: char) -> bool {
    is_hex_digit(c) && !(65 <= (c as u32) < 71)
}

/// Whether a string is a well-formed identifier: exactly 24 hexadecimal
/// characters.
pub open spec fn is_oid_str(s: Seq<char>) -> bool {
    s.len() == 24 && forall|i: int| 0 <= i < s.len() ==> is_hex_digit(#[trigger] s[i])
}

/// The numeric value of a hexadecimal string, most significant character
/// first.
pub open spec fn oid_of(s: Seq<char>) -> int
    decreases s.len(),
{
    if s.len() == 0 {
        0
    } else {
        oid_of(s.drop_last()) * 16 + hex_val(s.last())
    }
}

/// A store-assigned identifier, held as the numeric value of its 24
/// hexadecimal characters.
#[derive(Clone, Copy, Debug, PartialEq, Eq, Structural)]
pub struct ObjectId {
    value: u128,
}

impl View for ObjectId {
    type V = int;

    closed spec fn view(&self) -> int {
        self.value as int
    }
}

proof fn lemma_pow16_24_value()
    ensures
        pow16(24) == 0x1000000000000000000000000,
{
    reveal_with_fuel(pow16, 25);
}

fn hex_digit_value(c: char) -> (r: Option<u8>)
    ensures
        r is Some <==> is_hex_digit(c),
        r matches Some(d) ==> d as int == hex_val(c),
{
    let u = c as u32;
    if 48 <= u && u < 58 {
        Some((u - 48) as u8)
    } else if 97 <= u && u < 103 {
        Some((u - 87) as u8)
    } else if 65 <= u && u < 71 {
        Some((u - 55) as u8)
    } else {
        None
    }
}

fn hex_digit_str(d: u8) -> (r: &'static str)
    requires
        d < 16,
    ensures
        r@.len() == 1,
        hex_val(r@[0]) == d as int,
        is_lower_hex_digit(r@[0]),
{
    proof {
        reveal_strlit("0");
        reveal_strlit("1");
        reveal_strlit("2");
        reveal_strlit("3");
        reveal_strlit("4");
        reveal_strlit("5");
        reveal_strlit("6");
        reveal_strlit("7");
        reveal_strlit("8");
        reveal_strlit("9");
        reveal_strlit("a");
        reveal_strlit("b");
        reveal_strlit("c");
        reveal_strlit("d");
        reveal_strlit("e");
        reveal_strlit("f");
    }
    match d {
        0 => "0",
        1 => "1",
        2 => "2",
        3 => "3",
        4 => "4",
        5 => "5",
        6 => "6",
        7 => "7",
        8 => "8",
        9 => "9",
        10 => "a",
        11 => "b",
        12 => "c",
        13 => "d",
        14 => "e",
        _ => "f",
    }
}

fn pow16_exec(k: usize) -> (r: u128)
    requires
        k <= 23,
    ensures
        r as int == pow16(k as nat),
{
    let mut r: u128 = 1;
    let mut j: usize = 0;
    while j < k
        invariant
            j <= k <= 23,
            r as int == pow16(j as nat),
        decreases k - j,
    {
        proof {
            lemma_pow16_increases((j + 1) as nat, 23);
            lemma_pow16_24_value();
        }
        r = r * 16;
        j = j + 1;
    }
    r
}

impl ObjectId {
    /// Identifier values fit in 24 hexadecimal characters.
    pub open spec fn wf(&self) -> bool {
        0 <= self@ < pow16(24)
    }

    /// Parse an identifier from its 24-character hexadecimal form.  Any
    /// other string — wrong length or a non-hexadecimal character — is
    /// rejected as `InvalidId` carrying the offending string.
    pub fn parse_str(s: &str) -> (r: Result<ObjectId, ServiceError>)
        ensures
            r is Ok <==> is_oid_str(s@),
            r matches Ok(oid) ==> oid@ == oid_of(s@) && oid.wf(),
            r matches Err(e) ==> e matches ServiceError::InvalidId(t) && t@ == s@,
    {
        let len = s.unicode_len();
        if len != 24 {
            return Err(ServiceError::InvalidId(s.to_owned()));
        }
        let mut value: u128 = 0;
        let mut i: usize = 0;
        while i < 24
            invariant
                s@.len() == 24,
                i <= 24,
                value as int == oid_of(s@.subrange(0, i as int)),
                (value as int) < pow16(i as nat),
                forall|j: int| 0 <= j < i ==> is_hex_digit(#[trigger] s@[j]),
            decreases 24 - i,
        {
            let c = s.get_char(i);
            match hex_digit_value(c) {
                None => {
                    return Err(ServiceError::InvalidId(s.to_owned()));
                },
                Some(d) => {
                    proof {
                        lemma_pow16_increases((i + 1) as nat, 24);
                        lemma_pow16_24_value();
                        assert(s@.subrange(0, i + 1).drop_last() =~= s@.subrange(0, i as int));
                        assert(s@.subrange(0, i + 1).last() == s@[i as int]);
                    }
                    value = value * 16 + (d as u128);
                    i = i + 1;
                },
            }
        }
        proof {
            assert(s@.subrange(0, 24) =~= s@);
        }
        Ok(ObjectId { value })
    }

    /// Render the identifier as 24 hexadecimal characters (lowercase).
    /// Parsing the result gives back exactly this identifier's value.
    pub fn to_hex(&self) -> (r: String)
        requires
            self.wf(),
        ensures
            is_oid_str(r@),
            forall|i: int| 0 <= i < r@.len() ==> is_lower_hex_digit(#[trigger] r@[i]),
            oid_of(r@) == self@,
    {
        let v = self.value;
        proof {
            vstd::arithmetic::div_mod::lemma_basic_div(v as int, pow16(24));
        }
        let mut s = String::new();
        let mut i: usize = 0;
        while i < 24
            invariant
                i <= 24,
                0 <= (v as int) < pow16(24),
                s@.len() == i,
                oid_of(s@) == (v as int) / pow16((24 - i) as nat),
                forall|j: int| 0 <= j < s@.len() ==> is_lower_hex_digit(#[trigger] s@[j]),
            decreases 24 - i,
        {
            let p = pow16_exec(23 - i);
            proof {
                lemma_pow16_pos((23 - i) as nat);
            }
            let d = ((v / p) % 16) as u8;
            let dc = hex_digit_str(d);
            proof {
                let ghost x = (v as int) / pow16((23 - i) as nat);
                lemma_div_denominator(v as int, pow16((23 - i) as nat), 16);
                lemma_fundamental_div_mod(x, 16);
                assert(pow16((24 - i) as nat) == pow16((23 - i) as nat) * 16);
                assert((v as int) / pow16((24 - i) as nat) == x / 16);
                assert(x == 16 * (x / 16) + x % 16);
            }
            let ghost prev = s@;
            s.append(dc);
            proof {
                assert(s@.drop_last() =~= prev);
                assert(s@.last() == dc@[0]);
            }
            i = i + 1;
        }
        s
    }

    /// Build the identifier with a given numeric value; used by the store
    /// when it assigns identifiers from its counter.
    pub(crate) fn from_u64(v: u64) -> (r: ObjectId)
        ensures
            r@ == v as int,
            r.wf(),
    {
        proof {
            assert(pow16(16) == 0x10000000000000000) by {
                reveal_with_fuel(pow16, 17);
            }
            lemma_pow16_increases(16, 24);
        }
        ObjectId { value: v as u128 }
    }

    /// Whether two identifiers are the same.
    pub fn equals(&self, other: &ObjectId) -> (r: bool)
        ensures
            r == (self@ == other@),
    {
        self.value == other.value
    }

    /// The raw numeric value, for tests and callers that order or hash
    /// identifiers.
    pub fn value(&self) -> (r: u128)
        ensures
            r as int == self@,
    {
        self.value
    }
}

} // verus!
