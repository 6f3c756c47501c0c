//! The 6-bit armoring of AIS payloads.
//!
//! Each payload character stands for one 6-bit group: `'0'..='W'` for the
//! values 0 to 39 and `` '`'..='w' `` for 40 to 63. Groups are written most
//! significant bit first and concatenate in input order.

use vstd::prelude::*;
use vstd::string::*;

verus! {

/// Why a payload could not be unarmored.
#[derive(Debug, Clone, Copy, PartialEq, Eq, Structural)]
pub enum CodecError {
    InvalidCharacter,
}

/// The 6-bit value of an armoring character, or -1 for any other character.
pub open spec fn armor_value(c: char) -> int {
    let code = c as u32;
    if 48 <= code <= 87 {
        code as int - 48
    } else if 96 <= code <= 119 {
        code as int - 56
    } else {
        -1
    }
}

pub open spec fn is_armor_char(c: char) -> bool {
    armor_value(c) >= 0
}

pub open spec fn is_armored(s: Seq<char>) -> bool {
    forall|i: int| 0 <= i < s.len() ==> is_armor_char(#[trigger] s[i])
}

/// Bit `k` of a 6-bit value, counted from the most significant (k = 0).
pub open spec fn six_bit(v: u8, k: int) -> bool {
    ((v >> ((5 - k) as u8)) & 1u8) == 1u8
}

/// The bit string of an armored payload.
pub open spec fn bits_of(s: Seq<char>) -> Seq<bool> {
    Seq::new((6 * s.len()) as nat, |j: int| six_bit(armor_value(s[j / 6]) as u8, j % 6))
}

pub open spec fn bit_value(b: bool) -> int {
    if b {
        1
    } else {
        0
    }
}

/// The value of the `k`-th group of six bits.
pub open spec fn group_value(b: Seq<bool>, k: int) -> int {
    32 * bit_value(b[6 * k]) + 16 * bit_value(b[6 * k + 1]) + 8 * bit_value(b[6 * k + 2]) + 4
        * bit_value(b[6 * k + 3]) + 2 * bit_value(b[6 * k + 4]) + bit_value(b[6 * k + 5])
}

/// The character code that armors a 6-bit value.
pub open spec fn armor_code(v: int) -> int {
    if v < 40 {
        v + 48
    } else {
        v + 56
    }
}

/// The character codes that armor a bit string, one for each group of six.
pub open spec fn armored_codes(b: Seq<bool>) -> Seq<int> {
    Seq::new(b.len() / 6, |k: int| armor_code(group_value(b, k)))
}

pub open spec fn codes_of(s: Seq<char>) -> Seq<int> {
    Seq::new(s.len(), |i: int| s[i] as u32 as int)
}

proof fn lemma_six_bits_recompose(v: u8)
    requires
        v < 64,
    ensures
        32 * bit_value(six_bit(v, 0)) + 16 * bit_value(six_bit(v, 1)) + 8 * bit_value(
            six_bit(v, 2),
        ) + 4 * bit_value(six_bit(v, 3)) + 2 * bit_value(six_bit(v, 4)) + bit_value(
            six_bit(v, 5),
        ) == v,
{
    assert(((v >> 5u8) & 1u8) <= 1u8 && ((v >> 4u8) & 1u8) <= 1u8 && ((v >> 3u8) & 1u8) <= 1u8
        && ((v >> 2u8) & 1u8) <= 1u8 && ((v >> 1u8) & 1u8) <= 1u8 && ((v >> 0u8) & 1u8) <= 1u8)
        by (bit_vector);
    assert(v < 64 ==> v == 32 * ((v >> 5u8) & 1u8) + 16 * ((v >> 4u8) & 1u8) + 8 * ((v >> 3u8)
        & 1u8) + 4 * ((v >> 2u8) & 1u8) + 2 * ((v >> 1u8) & 1u8) + ((v >> 0u8) & 1u8))
        by (bit_vector);
}

/// A valid armored string of length L decodes to exactly 6L bits, and armoring
/// those bits again gives back the same characters.
pub proof fn lemma_codec_round_trip(s: Seq<char>)
    requires
        is_armored(s),
    ensures
        bits_of(s).len() == 6 * s.len(),
        armored_codes(bits_of(s)) == codes_of(s),
{
    let b = bits_of(s);
    assert(b.len() / 6 == s.len());
    assert forall|k: int| 0 <= k < s.len() implies armor_code(group_value(b, k)) == s[k] as u32
        as int by {
        let v = armor_value(s[k]) as u8;
        assert(is_armor_char(s[k]));
        assert forall|t: int| 0 <= t < 6 implies b[6 * k + t] == six_bit(v, t) by {
            assert((6 * k + t) / 6 == k);
            assert((6 * k + t) % 6 == t);
        }
        lemma_six_bits_recompose(v);
    }
    assert(armored_codes(b) =~= codes_of(s));
}

/// Unarmors a payload into its bit string, most significant bit of each
/// character first.
pub fn unarmor(payload: &str) -> (r: Result<Vec<bool>, CodecError>)
    ensures
        r is Ok <==> is_armored(payload@),
        r is Err ==> r == Err::<Vec<bool>, CodecError>(CodecError::InvalidCharacter),
        r matches Ok(bits) ==> bits@ == bits_of(payload@) && bits@.len() == 6
            * payload@.len(),
{
    let n = payload.unicode_len();
    let mut out: Vec<bool> = Vec::new();
    let mut i: usize = 0;
    while i < n
        invariant
            n == payload@.len(),
            i <= n,
            is_armored(payload@.take(i as int)),
            out@ == bits_of(payload@.take(i as int)),
        decreases n - i,
    {
        let c = payload.get_char(i);
        let code = c as u32;
        let v: u8 = if 48 <= code && code <= 87 {
            (code - 48) as u8
        } else if 96 <= code && code <= 119 {
            (code - 56) as u8
        } else {
            assert(!is_armor_char(payload@[i as int]));
            return Err(CodecError::InvalidCharacter);
        };
        assert(v as int == armor_value(c));
        out.push((v >> 5u8) & 1u8 == 1u8);
        out.push((v >> 4u8) & 1u8 == 1u8);
        out.push((v >> 3u8) & 1u8 == 1u8);
        out.push((v >> 2u8) & 1u8 == 1u8);
        out.push((v >> 1u8) & 1u8 == 1u8);
        out.push(v & 1u8 == 1u8);
        proof {
            let prev = payload@.take(i as int);
            let next = payload@.take(i + 1);
            assert forall|k: int| 0 <= k < next.len() implies is_armor_char(
                #[trigger] next[k],
            ) by {
                if k < i {
                    assert(next[k] == prev[k]);
                }
            }
            assert forall|j: int| 0 <= j < 6 * next.len() implies #[trigger] out@[j]
                == six_bit(armor_value(next[j / 6]) as u8, j % 6) by {
                if j < 6 * i {
                    assert(j / 6 < i);
                    assert(next[j / 6] == prev[j / 6]);
                } else {
                    assert(j / 6 == i);
                    assert(v & 1u8 == (v >> 0u8) & 1u8) by (bit_vector);
                }
            }
            assert(out@ =~= bits_of(next));
        }
        i += 1;
    }
    assert(payload@.take(n as int) =~= payload@);
    Ok(out)
}

} // verus!
