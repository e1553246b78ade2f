//! Reading a buffer to the end: all the frames and faults it holds.

use bytes::BytesMut;
use vstd::prelude::*;
use crate::buffer::buffered;
use crate::command::Command;
use crate::message::{Message, ARGS_END, COMMAND_END, FRAME_END};
use crate::codec_model::{agrees, decode_spec, lemma_scan_header, parse_args, scan_header, trimmed, CodecState, HeaderScan, Outcome, Phase};
use crate::msg_codec::{MsgCodec, MsgCodecError};
use crate::scan::{find_from, lemma_find_from};
use crate::text::lossy_text;

verus! {

/// One call never lengthens the buffer, and leaves a decoder that agrees
/// with what it left. A frame costs at least its trailer; a fault leaves the
/// decoder discarding, and a decoder that was discarding already has dropped
/// a byte by then.
pub proof fn lemma_decode_progress(c: CodecState, buf: Seq<u8>)
    ensures
        ({
            let d = decode_spec(c, buf);
            &&& d.state.max_header_bytes == c.max_header_bytes
            &&& d.rest.len() <= buf.len()
            &&& agrees(c, buf) ==> agrees(d.state, d.rest)
            &&& d.outcome is Complete ==> d.rest.len() < buf.len() && d.state == c.restart()
            &&& d.outcome is Fault ==> d.state == c.enter(Phase::Discarding) && (c.phase
                is Discarding ==> d.rest.len() < buf.len())
        }),
    decreases buf.len(),
{
    match c.phase {
        Phase::Command { scanned } => {
            lemma_scan_header(buf, COMMAND_END, scanned, c.max_header_bytes);
            match scan_header(buf, COMMAND_END, scanned, c.max_header_bytes) {
                HeaderScan::Found(k) => {
                    let command = Command::of_tag(trimmed(buf.take(k)));
                    lemma_decode_progress(
                        c.enter(Phase::Args { command, scanned: 0 }),
                        buf.skip(k + 1),
                    );
                },
                HeaderScan::NeedMore => {},
                HeaderScan::TooLong => {},
            }
        },
        Phase::Args { command, scanned } => {
            lemma_scan_header(buf, ARGS_END, scanned, c.max_header_bytes);
            match scan_header(buf, ARGS_END, scanned, c.max_header_bytes) {
                HeaderScan::Found(k) => {
                    match parse_args(lossy_text(buf.take(k))) {
                        Some(args) => {
                            lemma_decode_progress(
                                c.enter(
                                    Phase::Content {
                                        command,
                                        sender: args.sender,
                                        receiver: args.receiver,
                                        remaining: args.length,
                                    },
                                ),
                                buf.skip(k + 1),
                            );
                        },
                        None => {},
                    }
                },
                HeaderScan::NeedMore => {},
                HeaderScan::TooLong => {},
            }
        },
        Phase::Content { .. } => {},
        Phase::Discarding => {
            lemma_find_from(buf, FRAME_END, 0);
            let k = find_from(buf, FRAME_END, 0);
            if k < buf.len() {
                lemma_decode_progress(c.restart(), buf.skip(k + 1));
            }
        },
    }
}

/// What comes of calling the decoder until it has to wait: the decoder and
/// the buffer at that point, and the frames and faults on the way, in order.
pub struct Drained {
    pub state: CodecState,
    pub rest: Seq<u8>,
    pub events: Seq<Outcome>,
}

/// Calls the decoder on `buf` again and again until it asks for more bytes.
pub open spec fn drain(c: CodecState, buf: Seq<u8>) -> Drained
    decreases buf.len(), (if c.phase is Discarding { 0nat } else { 1nat }),
    via drain_comes_to_rest
{
    let d = decode_spec(c, buf);
    if d.outcome is Pending {
        Drained { state: d.state, rest: d.rest, events: Seq::empty() }
    } else {
        let then = drain(d.state, d.rest);
        Drained { state: then.state, rest: then.rest, events: seq![d.outcome] + then.events }
    }
}

#[via_fn]
proof fn drain_comes_to_rest(c: CodecState, buf: Seq<u8>) {
    lemma_decode_progress(c, buf);
}

/// The outcomes that a list of frames and faults stands for.
pub open spec fn events_of(events: Seq<Result<Message, MsgCodecError>>) -> Seq<Outcome> {
    Seq::new(
        events.len(),
        |i: int|
            match events[i] {
                Ok(m) => Outcome::Complete(m@),
                Err(e) => Outcome::Fault(e),
            },
    )
}

impl MsgCodec {
    /// Reads all that `buf` holds: calls `decode` until it asks for more
    /// bytes, and returns the frames and faults on the way, in order.
    pub fn decode_all(&mut self, buf: &mut BytesMut) -> (events: Vec<
        Result<Message, MsgCodecError>,
    >)
        ensures
            drain(old(self)@, buffered(old(buf))) == (Drained {
                state: final(self)@,
                rest: buffered(final(buf)),
                events: events_of(events@),
            }),
    {
        let mut events: Vec<Result<Message, MsgCodecError>> = Vec::new();
        let ghost goal = drain(self@, buffered(buf));
        loop
            invariant
                goal == drain(old(self)@, buffered(old(buf))),
                goal == ({
                    let then = drain(self@, buffered(buf));
                    Drained {
                        state: then.state,
                        rest: then.rest,
                        events: events_of(events@) + then.events,
                    }
                }),
            decreases
                    buffered(buf).len(),
                    (if self@.phase is Discarding {
                        0nat
                    } else {
                        1nat
                    }),
        {
            proof {
                lemma_decode_progress(self@, buffered(buf));
            }
            let ghost before = events@;
            let ghost d = decode_spec(self@, buffered(buf));
            let ghost then = drain(d.state, d.rest);
            match self.decode(buf) {
                Ok(None) => {
                    assert(events_of(events@) + Seq::<Outcome>::empty() =~= events_of(events@));
                    return events;
                },
                Ok(Some(frame)) => {
                    events.push(Ok(frame));
                },
                Err(fault) => {
                    events.push(Err(fault));
                },
            }
            assert(events_of(events@) =~= events_of(before) + seq![d.outcome]);
            assert(events_of(events@) + then.events =~= events_of(before) + (seq![d.outcome]
                + then.events));
        }
    }
}

} // verus!
