//! The read decisions of one live feed connection.
//!
//! Each connection owns its decoder, so the parser's fragment state is never
//! shared between feeds. Every read yields one event; a line is decoded, and
//! the end of the stream, a read error or a read timeout ends the connection.

use vstd::prelude::*;
use crate::decoder::{AisDecoder, DecodeError, Outcome};
use crate::fragment::{fragment_header, more_to_come};
use crate::parser::{is_aton_report, stored_fragment_number, stored_message_id};
use crate::sentence::aton_status_of_line;
use vstd::utf8::encode_utf8;

verus! {

/// The result of one read under the per-read timeout.
pub enum ReadEvent {
    /// One line, with its line ending removed.
    Line(String),
    EndOfStream,
    ReadError,
    TimedOut,
}

/// Why a connection ended.
#[derive(Debug, Clone, Copy, PartialEq, Eq, Structural)]
pub enum DisconnectReason {
    EndOfStream,
    ReadError,
    TimedOut,
}

/// What to do after one read.
pub enum FeedAction {
    /// Send this outcome on the fan-in channel, waiting while it is full.
    Forward(Outcome),
    /// The line completed no message; read on.
    ReadOn,
    /// The line was rejected; it is dropped and reading goes on.
    Dropped(DecodeError),
    /// The connection is over.
    Disconnect(DisconnectReason),
}

/// What a decoded line leads to: its outcome is forwarded, a line that
/// completed no message is passed over, and a rejected line is dropped.
pub fn action_for(decoded: Result<Option<Outcome>, DecodeError>) -> (r: FeedAction)
    ensures
        match decoded {
            Ok(Some(o)) => r == FeedAction::Forward(o),
            Ok(None) => r == FeedAction::ReadOn,
            Err(e) => r == FeedAction::Dropped(e),
        },
{
    match decoded {
        Ok(Some(outcome)) => FeedAction::Forward(outcome),
        Ok(None) => FeedAction::ReadOn,
        Err(e) => FeedAction::Dropped(e),
    }
}

pub struct FeedConnection {
    pub decoder: AisDecoder,
}

impl FeedConnection {
    pub open spec fn wf(self) -> bool {
        self.decoder.wf()
    }

    /// A connection with a decoder of its own, whose parser has no message
    /// in progress.
    pub fn new() -> (r: Self)
        ensures
            r.wf(),
            stored_message_id(r.decoder.sentence_parser()) == None::<u8>,
            stored_fragment_number(r.decoder.sentence_parser()) == 0,
            r.decoder.kept_message_id() == None::<u8>,
            r.decoder.fragment_bound() == 0,
    {
        FeedConnection { decoder: AisDecoder::new() }
    }

    /// Decides what one read leads to. Only the end of the stream, a read
    /// error or a timeout ends the connection; a line is decoded and its
    /// result goes through `action_for`.
    pub fn on_read(&mut self, event: ReadEvent) -> (r: FeedAction)
        requires
            old(self).wf(),
        ensures
            final(self).wf(),
            event is EndOfStream <==> r == FeedAction::Disconnect(DisconnectReason::EndOfStream),
            event is ReadError <==> r == FeedAction::Disconnect(DisconnectReason::ReadError),
            event is TimedOut <==> r == FeedAction::Disconnect(DisconnectReason::TimedOut),
            event matches ReadEvent::Line(line) ==> {
                let header = fragment_header(encode_utf8(line@));
                &&& !(r is Disconnect)
                &&& (r matches FeedAction::Dropped(DecodeError::FragmentOutOfSequence)
                    <==> old(self).decoder.refuses(header))
                &&& (r is ReadOn ==> (header matches Some(h) && more_to_come(h)))
                &&& (r matches FeedAction::Forward(o) ==> o.aton_status == if is_aton_report(
                    o.message,
                ) {
                    Some(aton_status_of_line(line@))
                } else {
                    None
                })
            },
    {
        match event {
            ReadEvent::Line(line) => action_for(self.decoder.process(line.as_str())),
            ReadEvent::EndOfStream => FeedAction::Disconnect(DisconnectReason::EndOfStream),
            ReadEvent::ReadError => FeedAction::Disconnect(DisconnectReason::ReadError),
            ReadEvent::TimedOut => FeedAction::Disconnect(DisconnectReason::TimedOut),
        }
    }
}

} // verus!
