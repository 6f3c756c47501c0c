//! The sentence parser of the `ais` crate, as the decoder sees it.
//!
//! The parser keeps the fragments of a multi-sentence message between calls,
//! so what one call returns depends on the calls before it. What is stated
//! here is how the two numbers it keeps for that move: the message id of the
//! message in progress and the number of the last fragment it took.

use vstd::prelude::*;
use vstd::string::StringSliceAdditionalSpecFns;
use crate::fragment::{FragmentHeader, fragment_header, is_multipart, more_to_come, out_of_sequence};

verus! {

#[verifier::external_type_specification]
#[verifier::external_body]
pub struct ExAisParser(ais::AisParser);

#[verifier::external_type_specification]
#[verifier::external_body]
pub struct ExAisMessage(ais::messages::AisMessage);

#[verifier::external_type_specification]
#[verifier::external_body]
pub struct ExAisError(ais::errors::Error);

/// The message id the parser keeps for the message in progress.
pub uninterp spec fn stored_message_id(parser: ais::AisParser) -> Option<u8>;

/// The number of the last fragment the parser took.
pub uninterp spec fn stored_fragment_number(parser: ais::AisParser) -> u8;

/// Whether a decoded message is an Aid-to-Navigation report (message type 21).
pub uninterp spec fn is_aton_report(message: ais::messages::AisMessage) -> bool;

/// Relies on ais::AisParser::new, the derived default: no message id and
/// fragment number 0.
pub assume_specification[ ais::AisParser::new ]() -> (r: ais::AisParser)
    ensures
        stored_message_id(r) == None::<u8>,
        stored_fragment_number(r) == 0,
;

/// What the parser made of one line.
pub enum ParsedLine {
    /// The line completed a sentence and its message was decoded.
    Complete { message: ais::messages::AisMessage, is_aton: bool },
    /// The line was a fragment taken into a message still in progress.
    NoMessage,
    /// The line's checksum did not match; the parser took nothing from it.
    BadChecksum(ais::errors::Error),
    /// The line was rejected otherwise (framing, fragment order or payload).
    Failed(ais::errors::Error),
}

/// How a call that read `header` and gave `r` moves the parser's stored
/// numbers, as ais::AisParser::parse does: a line that starts a message sets
/// the id and fragment 1; any other fragment it takes must carry the stored
/// id, and its number becomes the stored one. A line without a readable
/// header, or with a bad checksum, changes nothing; another failed call took
/// no fragment, except a final one whose message then failed to decode.
pub open spec fn parser_moves(
    before: ais::AisParser,
    after: ais::AisParser,
    header: Option<FragmentHeader>,
    r: ParsedLine,
) -> bool {
    match header {
        None => r is Failed && after == before,
        Some(h) => match r {
            ParsedLine::BadChecksum(_) => after == before,
            ParsedLine::Failed(_) => {
                &&& stored_message_id(after) == stored_message_id(before)
                &&& (stored_fragment_number(after) == stored_fragment_number(before)
                    || stored_fragment_number(after) == h.fragment_number)
            },
            _ => if is_multipart(h) {
                &&& stored_message_id(after) == h.message_id
                &&& stored_fragment_number(after) == h.fragment_number
            } else {
                &&& stored_message_id(after) == stored_message_id(before)
                &&& stored_fragment_number(after) == stored_fragment_number(before)
            },
        },
    }
}

/// Relies on ais::AisParser::parse with decoding on, which reads one NMEA
/// line and may carry fragments over to the next call: it returns
/// `Incomplete` exactly for a fragment it takes with more to come, and a
/// completed sentence always with its decoded message. Relies also on the
/// variants of ais::errors::Error to tell a checksum mismatch, and on those
/// of ais::messages::AisMessage to tell an Aid-to-Navigation report. The
/// parser subtracts the stored fragment number from the line's without a
/// check, so a fragment of the message in progress numbered below the stored
/// one is kept out.
#[verifier::external_body]
pub(crate) fn parse_line(parser: &mut ais::AisParser, line: &str) -> (r: ParsedLine)
    requires
        !out_of_sequence(
            fragment_header(line.spec_bytes()),
            stored_message_id(*old(parser)),
            stored_fragment_number(*old(parser)),
        ),
    ensures
        parser_moves(*old(parser), *final(parser), fragment_header(line.spec_bytes()), r),
        r is NoMessage ==> (fragment_header(line.spec_bytes()) matches Some(h) && more_to_come(h)),
        r is Complete ==> (fragment_header(line.spec_bytes()) matches Some(h) && !more_to_come(
            h,
        )),
        r matches ParsedLine::Complete { message, is_aton } ==> is_aton == is_aton_report(message),
{
    match parser.parse(line.as_bytes(), true) {
        Ok(ais::AisFragments::Complete(sentence)) => match sentence.message {
            Some(message) => {
                let is_aton = matches!(message, ais::messages::AisMessage::AidToNavigationReport(_));
                ParsedLine::Complete { message, is_aton }
            },
            None => ParsedLine::NoMessage,
        },
        Ok(ais::AisFragments::Incomplete(_)) => ParsedLine::NoMessage,
        Err(e @ ais::errors::Error::Checksum { .. }) => ParsedLine::BadChecksum(e),
        Err(e) => ParsedLine::Failed(e),
    }
}

} // verus!
