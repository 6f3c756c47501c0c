//! The comma-separated fields of a raw NMEA line, and where the status byte of
//! an Aid-to-Navigation report sits in it.

use vstd::prelude::*;
use vstd::arithmetic::power2::{pow2, lemma_pow2_unfold, lemma2_to64};
use vstd::string::*;
use crate::codec::{CodecError, bits_of, is_armored, unarmor};
use crate::msg21::{AtonStatus, interpret, page_of};

verus! {

/// The number of characters before the first comma (all of them if none).
pub open spec fn first_field_len(s: Seq<char>) -> nat
    decreases s.len(),
{
    if s.len() == 0 {
        0
    } else if s[0] == ',' {
        0
    } else {
        1 + first_field_len(s.drop_first())
    }
}

/// The line split at every comma: n commas give n + 1 fields.
pub open spec fn fields(s: Seq<char>) -> Seq<Seq<char>>
    decreases s.len(),
{
    let k = first_field_len(s);
    if k >= s.len() {
        seq![s]
    } else {
        seq![s.take(k as int)] + fields(s.skip(k + 1int))
    }
}

/// The field that holds the armored payload.
pub const PAYLOAD_FIELD: usize = 5;

/// The fewest bits an Aid-to-Navigation payload has.
pub const MIN_ATON_BITS: usize = 156;

/// The value of a bit string read most significant bit first.
pub open spec fn bits_value(b: Seq<bool>) -> nat
    decreases b.len(),
{
    if b.len() == 0 {
        0
    } else {
        2 * bits_value(b.drop_last()) + if b.last() {
            1nat
        } else {
            0nat
        }
    }
}

/// The status byte: the last eight bits of the payload.
pub open spec fn status_byte_of(b: Seq<bool>) -> u8 {
    bits_value(b.subrange(b.len() - 8, b.len() as int)) as u8
}

/// Why the status byte could not be read from a line.
#[derive(Debug, Clone, Copy, PartialEq, Eq, Structural)]
pub enum StatusError {
    MalformedSentence,
    EmptyPayload,
    CodecFailure(CodecError),
    PayloadTooShort,
}

/// The status byte and page id of a line, or why there is none.
pub open spec fn status_of_line(s: Seq<char>) -> Result<(u8, u8), StatusError> {
    let f = fields(s);
    if f.len() <= PAYLOAD_FIELD as int {
        Err(StatusError::MalformedSentence)
    } else if f[PAYLOAD_FIELD as int].len() == 0 {
        Err(StatusError::EmptyPayload)
    } else if !is_armored(f[PAYLOAD_FIELD as int]) {
        Err(StatusError::CodecFailure(CodecError::InvalidCharacter))
    } else if 6 * f[PAYLOAD_FIELD as int].len() < MIN_ATON_BITS as int {
        Err(StatusError::PayloadTooShort)
    } else {
        let b = status_byte_of(bits_of(f[PAYLOAD_FIELD as int]));
        Ok((b, page_of(b)))
    }
}

/// The interpreted status of a line, or why there is none.
pub open spec fn aton_status_of_line(s: Seq<char>) -> Result<AtonStatus, StatusError> {
    match status_of_line(s) {
        Ok((b, p)) => Ok(
            AtonStatus {
                page_id: p,
                racon_status: interpret(b).0,
                light_status: interpret(b).1,
                health: interpret(b).2,
            },
        ),
        Err(e) => Err(e),
    }
}

pub proof fn lemma_first_field_len(t: Seq<char>, k: int)
    requires
        0 <= k <= t.len(),
        forall|m: int| 0 <= m < k ==> t[m] != ',',
        k == t.len() || t[k] == ',',
    ensures
        first_field_len(t) == k,
    decreases k,
{
    if k > 0 {
        lemma_first_field_len(t.drop_first(), k - 1);
    }
}

proof fn lemma_bits_value_bound(b: Seq<bool>)
    ensures
        bits_value(b) < pow2(b.len()),
    decreases b.len(),
{
    if b.len() > 0 {
        lemma_bits_value_bound(b.drop_last());
        lemma_pow2_unfold(b.len());
    } else {
        lemma2_to64();
    }
}

/// Where the payload field of a line starts and ends, if the line has one.
fn payload_bounds(line: &str) -> (r: Option<(usize, usize)>)
    ensures
        r is None <==> fields(line@).len() <= PAYLOAD_FIELD,
        r matches Some((a, b)) ==> a <= b <= line@.len() && fields(line@)[PAYLOAD_FIELD as int]
            == line@.subrange(a as int, b as int),
{
    let n = line.unicode_len();
    let s = Ghost(line@);
    let mut pos: usize = 0;
    let mut field: usize = 0;
    let ghost mut before: Seq<Seq<char>> = Seq::empty();
    assert(s@.skip(0) =~= s@);
    assert(before + fields(s@) =~= fields(s@));
    loop
        invariant
            n == s@.len(),
            s@ == line@,
            pos <= n,
            field <= PAYLOAD_FIELD,
            before.len() == field,
            fields(s@) == before + fields(s@.skip(pos as int)),
        decreases n - pos,
    {
        let mut end: usize = pos;
        while end < n && line.get_char(end) != ','
            invariant
                n == s@.len(),
                s@ == line@,
                pos <= end <= n,
                forall|m: int| pos <= m < end ==> s@[m] != ',',
            decreases n - end,
        {
            end += 1;
        }
        let ghost t = s@.skip(pos as int);
        proof {
            assert forall|m: int| 0 <= m < end - pos implies t[m] != ',' by {
                assert(t[m] == s@[pos + m]);
            }
            if end < n {
                assert(t[end - pos] == s@[end as int]);
            }
            lemma_first_field_len(t, end - pos);
        }
        if field == PAYLOAD_FIELD {
            proof {
                assert(t.take(end - pos) =~= s@.subrange(pos as int, end as int));
                if end == n {
                    assert(t =~= s@.subrange(pos as int, end as int));
                }
                assert((before + fields(t))[PAYLOAD_FIELD as int] == fields(t)[0]);
            }
            return Some((pos, end));
        }
        if end == n {
            return None;
        }
        proof {
            assert(t.skip(end - pos + 1) =~= s@.skip(end + 1));
            assert(fields(t) =~= seq![t.take(end - pos)] + fields(s@.skip(end + 1)));
            before = before.push(t.take(end - pos));
            assert(fields(s@) =~= before + fields(s@.skip(end + 1)));
        }
        pos = end + 1;
        field += 1;
    }
}

/// Reads the last eight bits as a byte, most significant bit first.
fn last_byte(bits: &Vec<bool>) -> (r: u8)
    requires
        bits@.len() >= 8,
    ensures
        r == status_byte_of(bits@),
{
    let len = bits.len();
    let ghost tail = bits@.subrange(len - 8, len as int);
    let mut acc: u32 = 0;
    let mut j: usize = 0;
    proof {
        lemma2_to64();
        assert(tail.take(0) =~= Seq::<bool>::empty());
    }
    while j < 8
        invariant
            len == bits@.len(),
            len >= 8,
            tail == bits@.subrange(len - 8, len as int),
            j <= 8,
            acc as nat == bits_value(tail.take(j as int)),
            acc < pow2(j as nat),
            pow2(8) == 256,
        decreases 8 - j,
    {
        let bit = bits[len - 8 + j];
        let ghost prefix = tail.take(j + 1);
        proof {
            assert(prefix.drop_last() =~= tail.take(j as int));
            assert(prefix.last() == bit);
            lemma_bits_value_bound(prefix);
            if j < 8 {
                lemma2_to64();
            }
        }
        acc = if bit {
            2 * acc + 1
        } else {
            2 * acc
        };
        j += 1;
    }
    assert(tail.take(8) =~= tail);
    acc as u8
}

/// Reads the status byte of an Aid-to-Navigation report from its raw line:
/// the last eight bits of the payload in field 5, with the page id in its top
/// three bits.
pub fn read_status_byte(nmea_sentence: &str) -> (r: Result<(u8, u8), StatusError>)
    ensures
        r == status_of_line(nmea_sentence@),
        fields(nmea_sentence@).len() < 6 ==> r == Err::<(u8, u8), StatusError>(
            StatusError::MalformedSentence,
        ),
        ({
            let f = fields(nmea_sentence@);
            f.len() >= 6 && f[5].len() > 0 && is_armored(f[5]) && bits_of(f[5]).len() < 156
        }) ==> r == Err::<(u8, u8), StatusError>(StatusError::PayloadTooShort),
{
    match payload_bounds(nmea_sentence) {
        None => Err(StatusError::MalformedSentence),
        Some((a, b)) => {
            if a == b {
                return Err(StatusError::EmptyPayload);
            }
            let payload = nmea_sentence.substring_char(a, b);
            match unarmor(payload) {
                Err(e) => Err(StatusError::CodecFailure(e)),
                Ok(bits) => {
                    if bits.len() < MIN_ATON_BITS {
                        return Err(StatusError::PayloadTooShort);
                    }
                    let status_byte = last_byte(&bits);
                    Ok((status_byte, status_byte >> 5u8))
                },
            }
        },
    }
}

} // verus!
