//! The decoder owned by one feed: the sentence parser, plus the status byte
//! of Aid-to-Navigation reports, re-derived from the raw line.

use vstd::prelude::*;
use crate::codec::{CodecError, bits_of, is_armored, unarmor};
use crate::msg21::{AtonStatus, aton_status_of};
use crate::fragment::{
    FragmentHeader, fragment_header, more_to_come, out_of_sequence, read_fragment_header,
};
use crate::parser::{
    ParsedLine, is_aton_report, parse_line, stored_fragment_number, stored_message_id,
};
use vstd::string::StringSliceAdditionalSpecFns;
use crate::sentence::{StatusError, aton_status_of_line, fields, read_status_byte, status_of_line};

verus! {

/// Why a line yielded no message.
#[derive(Debug)]
pub enum DecodeError {
    /// The sentence parser rejected the line.
    Parser(ais::errors::Error),
    /// The line is a fragment of the message in progress numbered below one
    /// already taken; it is refused before it reaches the parser.
    FragmentOutOfSequence,
}

/// A decoded message, with the interpreted status byte when it is an
/// Aid-to-Navigation report: `Ok` when the byte could be read from the raw
/// line, `Err` with the reason when it could not. Other kinds carry `None`.
pub struct Outcome {
    pub message: ais::messages::AisMessage,
    pub aton_status: Option<Result<AtonStatus, StatusError>>,
}

/// The interpreted status byte of a raw line, or why it could not be read.
pub fn status_of(nmea_sentence: &str) -> (r: Result<AtonStatus, StatusError>)
    ensures
        r == aton_status_of_line(nmea_sentence@),
{
    match read_status_byte(nmea_sentence) {
        Ok((status_byte, _page_id)) => Ok(aton_status_of(status_byte)),
        Err(e) => Err(e),
    }
}

/// What one parsed line yields: the parser's error for a rejected line,
/// nothing for a line that completes no message, and otherwise the message,
/// with the status read from this very line when it is an Aid-to-Navigation
/// report.
pub fn outcome_of(parsed: ParsedLine, nmea_sentence: &str) -> (r: Result<
    Option<Outcome>,
    DecodeError,
>)
    ensures
        match parsed {
            ParsedLine::Complete { message, is_aton } => r matches Ok(Some(o)) && o.message
                == message && o.aton_status == if is_aton {
                Some(aton_status_of_line(nmea_sentence@))
            } else {
                None
            },
            ParsedLine::NoMessage => r matches Ok(None),
            ParsedLine::BadChecksum(e) => r == Err::<Option<Outcome>, DecodeError>(
                DecodeError::Parser(e),
            ),
            ParsedLine::Failed(e) => r == Err::<Option<Outcome>, DecodeError>(DecodeError::Parser(e)),
        },
{
    match parsed {
        ParsedLine::Complete { message, is_aton } => {
            let aton_status = if is_aton {
                Some(status_of(nmea_sentence))
            } else {
                None
            };
            Ok(Some(Outcome { message, aton_status }))
        },
        ParsedLine::NoMessage => Ok(None),
        ParsedLine::BadChecksum(e) => Err(DecodeError::Parser(e)),
        ParsedLine::Failed(e) => Err(DecodeError::Parser(e)),
    }
}

/// The sentence parser of one feed, with a copy of the message id it keeps
/// and a bound on the last fragment number it took, so that no line reaches
/// it out of sequence.
pub struct AisDecoder {
    parser: ais::AisParser,
    message_id: Option<u8>,
    fragment_bound: u8,
}

impl AisDecoder {
    /// The copy holds the parser's message id and the bound is at least its
    /// last fragment number.
    pub closed spec fn wf(self) -> bool {
        &&& self.message_id == stored_message_id(self.parser)
        &&& stored_fragment_number(self.parser) <= self.fragment_bound
    }

    /// The sentence parser this decoder hands lines to.
    pub closed spec fn sentence_parser(self) -> ais::AisParser {
        self.parser
    }

    /// The message id kept for the message in progress.
    pub closed spec fn kept_message_id(self) -> Option<u8> {
        self.message_id
    }

    /// The bound kept on the parser's last fragment number.
    pub closed spec fn fragment_bound(self) -> u8 {
        self.fragment_bound
    }

    /// Whether a line with this header is refused before the parser: a
    /// fragment of the kept message numbered below the kept bound.
    pub open spec fn refuses(self, header: Option<FragmentHeader>) -> bool {
        out_of_sequence(header, self.kept_message_id(), self.fragment_bound())
    }

    pub fn new() -> (r: Self)
        ensures
            r.wf(),
            stored_message_id(r.sentence_parser()) == None::<u8>,
            stored_fragment_number(r.sentence_parser()) == 0,
            r.kept_message_id() == None::<u8>,
            r.fragment_bound() == 0,
    {
        AisDecoder { parser: ais::AisParser::new(), message_id: None, fragment_bound: 0 }
    }

    /// Parses one raw line, unless it is refused as out of sequence; see
    /// `outcome_of` for what each parser result yields. Only the fragment of
    /// a message with more to come yields nothing; an Aid-to-Navigation
    /// report carries the status read from this very line, any other message
    /// none.
    pub fn process(&mut self, nmea_sentence: &str) -> (r: Result<Option<Outcome>, DecodeError>)
        requires
            old(self).wf(),
        ensures
            final(self).wf(),
            r matches Err(DecodeError::FragmentOutOfSequence) <==> old(self).refuses(
                fragment_header(nmea_sentence.spec_bytes()),
            ),
            r matches Ok(None) ==> (fragment_header(nmea_sentence.spec_bytes()) matches Some(h)
                && more_to_come(h)),
            r matches Ok(Some(o)) ==> {
                &&& (fragment_header(nmea_sentence.spec_bytes()) matches Some(h) && !more_to_come(
                    h,
                ))
                &&& o.aton_status == if is_aton_report(o.message) {
                    Some(aton_status_of_line(nmea_sentence@))
                } else {
                    None
                }
            },
            out_of_sequence(
                fragment_header(nmea_sentence.spec_bytes()),
                stored_message_id(old(self).sentence_parser()),
                stored_fragment_number(old(self).sentence_parser()),
            ) ==> r matches Err(DecodeError::FragmentOutOfSequence),
    {
        let header = read_fragment_header(nmea_sentence);
        if let Some(h) = header {
            let same_message = match (h.message_id, self.message_id) {
                (Some(a), Some(b)) => a == b,
                (None, None) => true,
                _ => false,
            };
            let multipart = h.fragment_number < h.num_fragments || h.num_fragments != 1;
            let starts = h.fragment_number < h.num_fragments && h.fragment_number == 1;
            if multipart && !starts && same_message && h.fragment_number < self.fragment_bound {
                return Err(DecodeError::FragmentOutOfSequence);
            }
        }
        let parsed = parse_line(&mut self.parser, nmea_sentence);
        if let Some(h) = header {
            let taken = match &parsed {
                ParsedLine::BadChecksum(_) => false,
                ParsedLine::Failed(_) => false,
                _ => true,
            };
            let failed = match &parsed {
                ParsedLine::Failed(_) => true,
                _ => false,
            };
            if failed {
                if h.fragment_number > self.fragment_bound {
                    self.fragment_bound = h.fragment_number;
                }
            } else if taken && (h.fragment_number < h.num_fragments || h.num_fragments != 1) {
                self.message_id = h.message_id;
                self.fragment_bound = h.fragment_number;
            }
        }
        outcome_of(parsed, nmea_sentence)
    }

    /// Unarmors a payload into its bit string, most significant bit of each
    /// character first.
    pub fn payload_to_binary(&self, payload: &str) -> (r: Result<Vec<bool>, CodecError>)
        ensures
            r is Ok <==> is_armored(payload@),
            r is Err ==> r == Err::<Vec<bool>, CodecError>(CodecError::InvalidCharacter),
            r matches Ok(bits) ==> bits@ == bits_of(payload@) && bits@.len() == 6
                * payload@.len(),
    {
        unarmor(payload)
    }

    /// Reads the status byte of an Aid-to-Navigation report from its raw line,
    /// with the page id in its top three bits.
    pub fn extract_aton_status(&self, nmea_sentence: &str) -> (r: Result<(u8, u8), StatusError>)
        ensures
            r == status_of_line(nmea_sentence@),
            fields(nmea_sentence@).len() < 6 ==> r == Err::<(u8, u8), StatusError>(
                StatusError::MalformedSentence,
            ),
            ({
                let f = fields(nmea_sentence@);
                f.len() >= 6 && f[5].len() > 0 && is_armored(f[5]) && bits_of(f[5]).len() < 156
            }) ==> r == Err::<(u8, u8), StatusError>(StatusError::PayloadTooShort),
    {
        read_status_byte(nmea_sentence)
    }
}

} // verus!
