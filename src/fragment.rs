//! The fragment header of an NMEA line: how many sentences the message takes,
//! which one this is, and the sequential message id that ties them together.
//!
//! The header is read as the sentence parser reads it: an optional tag block
//! between backslashes, a `!` or `$`, five bytes of talker and sentence type,
//! then the comma-separated fragment count, fragment number and optional
//! message id, each a run of decimal digits no larger than 255.

use vstd::prelude::*;
use vstd::string::StringSliceAdditionalSpecFns;

verus! {

#[derive(Debug, Clone, Copy, PartialEq, Eq, Structural)]
pub struct FragmentHeader {
    pub num_fragments: u8,
    pub fragment_number: u8,
    pub message_id: Option<u8>,
}

pub open spec fn is_digit(c: u8) -> bool {
    48 <= c <= 57
}

/// The end of the run of digits that starts at `i`.
pub open spec fn digit_run(b: Seq<u8>, i: int) -> int
    decreases b.len() - i,
{
    if i < 0 || i >= b.len() || !is_digit(b[i]) {
        i
    } else {
        digit_run(b, i + 1)
    }
}

/// The decimal value of the digits in `b[i..j]`.
pub open spec fn decimal(b: Seq<u8>, i: int, j: int) -> nat
    decreases j - i,
{
    if j <= i {
        0
    } else {
        decimal(b, i, j - 1) * 10 + (b[j - 1] - 48) as nat
    }
}

/// The number written at `i`, with the index just past it: at least one
/// digit, and a value that fits a byte.
pub open spec fn number_at(b: Seq<u8>, i: int) -> Option<(u8, int)> {
    let j = digit_run(b, i);
    if j == i || decimal(b, i, j) > 255 {
        None
    } else {
        Some((decimal(b, i, j) as u8, j))
    }
}

/// The first backslash at or after `i`, or the length if there is none.
pub open spec fn backslash_from(b: Seq<u8>, i: int) -> int
    decreases b.len() - i,
{
    if i < 0 || i >= b.len() || b[i] == 92 {
        i
    } else {
        backslash_from(b, i + 1)
    }
}

/// Where the sentence starts, past an optional tag block.
pub open spec fn sentence_start(b: Seq<u8>) -> Option<int> {
    if b.len() > 0 && b[0] == 92 {
        let j = backslash_from(b, 1);
        if j < b.len() {
            Some(j + 1)
        } else {
            None
        }
    } else {
        Some(0)
    }
}

pub open spec fn comma_at(b: Seq<u8>, i: int) -> bool {
    0 <= i < b.len() && b[i] == 44
}

/// The fragment header of a line, or `None` if the line does not start as a
/// sentence the parser can read.
pub open spec fn fragment_header(b: Seq<u8>) -> Option<FragmentHeader> {
    match sentence_start(b) {
        None => None,
        Some(p) => if !(p + 6 < b.len() && (b[p] == 33 || b[p] == 36) && b[p + 6] == 44) {
            None
        } else {
            match number_at(b, p + 7) {
                None => None,
                Some((num_fragments, q)) => if !comma_at(b, q) {
                    None
                } else {
                    match number_at(b, q + 1) {
                        None => None,
                        Some((fragment_number, r)) => if !comma_at(b, r) {
                            None
                        } else if comma_at(b, r + 1) {
                            Some(FragmentHeader { num_fragments, fragment_number, message_id: None })
                        } else {
                            match number_at(b, r + 1) {
                                Some((id, t)) => if comma_at(b, t) {
                                    Some(
                                        FragmentHeader {
                                            num_fragments,
                                            fragment_number,
                                            message_id: Some(id),
                                        },
                                    )
                                } else {
                                    None
                                },
                                None => None,
                            }
                        },
                    }
                },
            }
        },
    }
}

/// Whether the parser treats the line as part of a multi-sentence message:
/// more fragments follow it, or the message has other than one fragment.
pub open spec fn is_multipart(h: FragmentHeader) -> bool {
    h.fragment_number < h.num_fragments || h.num_fragments != 1
}

/// Whether more fragments of the message follow this one.
pub open spec fn more_to_come(h: FragmentHeader) -> bool {
    h.fragment_number < h.num_fragments
}

/// Whether the line starts a new multi-sentence message.
pub open spec fn starts_message(h: FragmentHeader) -> bool {
    h.fragment_number < h.num_fragments && h.fragment_number == 1
}

/// A fragment of the message in progress whose number lies below the last
/// fragment the parser took.
pub open spec fn out_of_sequence(
    header: Option<FragmentHeader>,
    message_id: Option<u8>,
    last_fragment: u8,
) -> bool {
    header matches Some(h) && is_multipart(h) && !starts_message(h) && h.message_id == message_id
        && h.fragment_number < last_fragment
}

proof fn lemma_decimal_grows(b: Seq<u8>, i: int, j: int, k: int)
    requires
        i <= j <= k,
    ensures
        decimal(b, i, j) <= decimal(b, i, k),
    decreases k - j,
{
    if j < k {
        lemma_decimal_grows(b, i, j, k - 1);
    }
}

proof fn lemma_digit_run_past(b: Seq<u8>, i: int)
    requires
        0 <= i,
    ensures
        digit_run(b, i) >= i,
    decreases b.len() - i,
{
    if i < b.len() && is_digit(b[i]) {
        lemma_digit_run_past(b, i + 1);
    }
}

fn read_number(b: &[u8], i: usize) -> (r: Option<(u8, usize)>)
    requires
        i <= b@.len(),
    ensures
        r is None ==> number_at(b@, i as int) is None,
        r matches Some((v, j)) ==> number_at(b@, i as int) == Some((v, j as int)) && j <= b@.len(),
{
    let mut j: usize = i;
    let mut v: u32 = 0;
    while j < b.len() && 48 <= b[j] && b[j] <= 57
        invariant
            i <= j <= b@.len(),
            v == decimal(b@, i as int, j as int),
            v <= 255,
            digit_run(b@, i as int) == digit_run(b@, j as int),
        decreases b@.len() - j,
    {
        v = v * 10 + (b[j] - 48) as u32;
        if v > 255 {
            proof {
                lemma_digit_run_past(b@, j + 1);
                lemma_decimal_grows(b@, i as int, j + 1, digit_run(b@, i as int));
            }
            return None;
        }
        j += 1;
    }
    if j == i {
        return None;
    }
    Some((v as u8, j))
}

fn is_comma_at(b: &[u8], i: usize) -> (r: bool)
    ensures
        r == comma_at(b@, i as int),
{
    i < b.len() && b[i] == 44
}

/// Reads the fragment header at the start of a line.
pub fn read_fragment_header(line: &str) -> (r: Option<FragmentHeader>)
    ensures
        r == fragment_header(line.spec_bytes()),
{
    let b = line.as_bytes();
    let p: usize = if b.len() > 0 && b[0] == 92 {
        let mut j: usize = 1;
        while j < b.len() && b[j] != 92
            invariant
                1 <= j <= b@.len(),
                backslash_from(b@, 1) == backslash_from(b@, j as int),
            decreases b@.len() - j,
        {
            j += 1;
        }
        if j == b.len() {
            return None;
        }
        j + 1
    } else {
        0
    };
    assert(sentence_start(b@) == Some(p as int));
    if !(p < b.len() && b.len() - p > 6 && (b[p] == 33 || b[p] == 36) && b[p + 6] == 44) {
        return None;
    }
    let (num_fragments, q) = match read_number(b, p + 7) {
        Some(n) => n,
        None => return None,
    };
    if !is_comma_at(b, q) {
        return None;
    }
    let (fragment_number, r) = match read_number(b, q + 1) {
        Some(n) => n,
        None => return None,
    };
    if !is_comma_at(b, r) {
        return None;
    }
    if is_comma_at(b, r + 1) {
        return Some(FragmentHeader { num_fragments, fragment_number, message_id: None });
    }
    match read_number(b, r + 1) {
        Some((id, t)) => if is_comma_at(b, t) {
            Some(FragmentHeader { num_fragments, fragment_number, message_id: Some(id) })
        } else {
            None
        },
        None => None,
    }
}

} // verus!
