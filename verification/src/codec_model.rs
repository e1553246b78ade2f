//! The decoder as a function: what one call makes of a decoder and a
//! buffer.

use vstd::prelude::*;
use crate::command::Command;
use crate::message::{Frame, ARGS_END, COMMAND_END, FRAME_END};
use crate::msg_codec::{MsgCodecError, MsgCodecStatus};
use crate::scan::{find_from, lemma_find_from};
use crate::text::{lossy_text, parse_decimal};

verus! {

/// What a decoder remembers between two calls.
pub enum Phase {
    /// Looking for `#`; the first `scanned` bytes of the buffer were searched
    /// already.
    Command { scanned: nat },
    /// The tag is read; looking for `|`.
    Args { command: Command, scanned: nat },
    /// The header is read; waiting for the content and its trailer.
    Content { command: Command, sender: Seq<char>, receiver: Seq<char>, remaining: nat },
    /// After a fault: dropping bytes up to the next `$`.
    Discarding,
}

/// A decoder: its phase and the bound on either header section.
pub struct CodecState {
    pub phase: Phase,
    pub max_header_bytes: nat,
}

impl CodecState {
    /// The same decoder in another phase.
    pub open spec fn enter(self, phase: Phase) -> CodecState {
        CodecState { phase, ..self }
    }

    /// The same decoder at the start of a frame.
    pub open spec fn restart(self) -> CodecState {
        self.enter(Phase::Command { scanned: 0 })
    }

    /// A decoder with this bound that has read nothing yet.
    pub open spec fn fresh(max_header_bytes: nat) -> CodecState {
        CodecState { phase: Phase::Command { scanned: 0 }, max_header_bytes }
    }

    /// The section that the decoder reads next.
    pub open spec fn status(self) -> MsgCodecStatus {
        match self.phase {
            Phase::Command { .. } => MsgCodecStatus::Command,
            Phase::Args { .. } => MsgCodecStatus::Args,
            Phase::Content { .. } => MsgCodecStatus::Content,
            Phase::Discarding => MsgCodecStatus::Discarding,
        }
    }
}

/// How one call of the decoder ends.
pub enum Outcome {
    /// More bytes are needed.
    Pending,
    /// One frame is complete.
    Complete(Frame),
    /// The input is malformed; the decoder is now discarding.
    Fault(MsgCodecError),
}

/// One call of the decoder: the decoder after it, the bytes it left in the
/// buffer, and how it ended.
pub struct Decoded {
    pub state: CodecState,
    pub rest: Seq<u8>,
    pub outcome: Outcome,
}

/// What the bounded search for a header delimiter finds.
pub enum HeaderScan {
    /// The delimiter, at this offset.
    Found(int),
    /// No delimiter yet, and the bound is not passed.
    NeedMore,
    /// No delimiter within the bound, and the buffer is longer than the bound.
    TooLong,
}

/// The end of the searched prefix: the bound, or the end of the buffer.
pub open spec fn scan_end(buf: Seq<u8>, bound: nat) -> int {
    if bound < buf.len() {
        bound as int
    } else {
        buf.len() as int
    }
}

/// The search for `delimiter` in the first `bound` bytes of `buf`, which
/// resumes where the last search stopped.
pub open spec fn scan_header(buf: Seq<u8>, delimiter: u8, scanned: nat, bound: nat) -> HeaderScan {
    let end = scan_end(buf, bound);
    let from = if scanned < end {
        scanned as int
    } else {
        end
    };
    let k = find_from(buf.take(end), delimiter, from);
    if k < end {
        HeaderScan::Found(k)
    } else if buf.len() > bound {
        HeaderScan::TooLong
    } else {
        HeaderScan::NeedMore
    }
}

/// Whether a byte is ASCII white space: a space, a tab, a line feed, a form
/// feed or a carriage return. Such bytes are trimmed from the front of the
/// command section.
pub open spec fn is_blank(b: u8) -> bool {
    b == 32 || b == 9 || b == 10 || b == 12 || b == 13
}

/// `s` without the white space at its front.
pub open spec fn trimmed(s: Seq<u8>) -> Seq<u8>
    decreases s.len(),
{
    if s.len() > 0 && is_blank(s[0]) {
        trimmed(s.drop_first())
    } else {
        s
    }
}

/// The arguments of a frame.
pub struct FrameArgs {
    pub length: nat,
    pub sender: Seq<char>,
    pub receiver: Seq<char>,
}

/// The arguments that `text` spells: exactly three fields separated by
/// commas, the first an unsigned decimal number. `None` for anything else.
pub open spec fn parse_args(text: Seq<char>) -> Option<FrameArgs> {
    let i = find_from(text, ',', 0);
    let j = find_from(text, ',', i + 1);
    let k = find_from(text, ',', j + 1);
    if i < text.len() && j < text.len() && k == text.len() {
        match parse_decimal(text.take(i)) {
            Some(length) => Some(
                FrameArgs { length, sender: text.subrange(i + 1, j), receiver: text.skip(j + 1) },
            ),
            None => None,
        }
    } else {
        None
    }
}

/// Where a header search finds the delimiter, and what it has passed over.
pub proof fn lemma_scan_header(buf: Seq<u8>, delimiter: u8, scanned: nat, bound: nat)
    ensures
        match scan_header(buf, delimiter, scanned, bound) {
            HeaderScan::Found(k) => {
                &&& 0 <= k < scan_end(buf, bound)
                &&& buf[k] == delimiter
                &&& forall|i: int| scanned <= i < k ==> buf[i] != delimiter
            },
            HeaderScan::NeedMore => {
                &&& buf.len() <= bound
                &&& forall|i: int| scanned <= i < buf.len() ==> buf[i] != delimiter
            },
            HeaderScan::TooLong => {
                &&& buf.len() > bound
                &&& forall|i: int| scanned <= i < bound ==> buf[i] != delimiter
            },
        },
{
    let end = scan_end(buf, bound);
    let from = if scanned < end {
        scanned as int
    } else {
        end
    };
    lemma_find_from(buf.take(end), delimiter, from);
    let k = find_from(buf.take(end), delimiter, from);
    assert forall|i: int| from <= i < k implies buf[i] != delimiter by {
        assert(buf.take(end)[i] == buf[i]);
    }
}

/// One call of the decoder on a decoder `c` and a buffer `buf`.
pub open spec fn decode_spec(c: CodecState, buf: Seq<u8>) -> Decoded
    decreases buf.len(),
    via decode_spec_consumes
{
    match c.phase {
        Phase::Command { scanned } => {
            match scan_header(buf, COMMAND_END, scanned, c.max_header_bytes) {
                HeaderScan::Found(k) => {
                    let command = Command::of_tag(trimmed(buf.take(k)));
                    decode_spec(c.enter(Phase::Args { command, scanned: 0 }), buf.skip(k + 1))
                },
                HeaderScan::NeedMore => Decoded {
                    state: c.enter(
                        Phase::Command { scanned: scan_end(buf, c.max_header_bytes) as nat },
                    ),
                    rest: buf,
                    outcome: Outcome::Pending,
                },
                HeaderScan::TooLong => Decoded {
                    state: c.enter(Phase::Discarding),
                    rest: buf,
                    outcome: Outcome::Fault(MsgCodecError::InvalidCommand),
                },
            }
        },
        Phase::Args { command, scanned } => {
            match scan_header(buf, ARGS_END, scanned, c.max_header_bytes) {
                HeaderScan::Found(k) => {
                    match parse_args(lossy_text(buf.take(k))) {
                        Some(args) => decode_spec(
                            c.enter(
                                Phase::Content {
                                    command,
                                    sender: args.sender,
                                    receiver: args.receiver,
                                    remaining: args.length,
                                },
                            ),
                            buf.skip(k + 1),
                        ),
                        None => Decoded {
                            state: c.enter(Phase::Discarding),
                            rest: buf.skip(k + 1),
                            outcome: Outcome::Fault(MsgCodecError::InvalidArguments),
                        },
                    }
                },
                HeaderScan::NeedMore => Decoded {
                    state: c.enter(
                        Phase::Args { command, scanned: scan_end(buf, c.max_header_bytes) as nat },
                    ),
                    rest: buf,
                    outcome: Outcome::Pending,
                },
                HeaderScan::TooLong => Decoded {
                    state: c.enter(Phase::Discarding),
                    rest: buf,
                    outcome: Outcome::Fault(MsgCodecError::InvalidArguments),
                },
            }
        },
        Phase::Content { command, sender, receiver, remaining } => {
            if buf.len() <= remaining {
                Decoded { state: c, rest: buf, outcome: Outcome::Pending }
            } else if buf[remaining as int] == FRAME_END {
                Decoded {
                    state: c.restart(),
                    rest: buf.skip(remaining as int + 1),
                    outcome: Outcome::Complete(
                        Frame { sender, receiver, command, content: buf.take(remaining as int) },
                    ),
                }
            } else {
                Decoded {
                    state: c.enter(Phase::Discarding),
                    rest: buf.skip(remaining as int),
                    outcome: Outcome::Fault(MsgCodecError::InvalidContent),
                }
            }
        },
        Phase::Discarding => {
            let k = find_from(buf, FRAME_END, 0);
            if k < buf.len() {
                decode_spec(c.restart(), buf.skip(k + 1))
            } else {
                Decoded { state: c, rest: Seq::empty(), outcome: Outcome::Pending }
            }
        },
    }
}

#[via_fn]
proof fn decode_spec_consumes(c: CodecState, buf: Seq<u8>) {
    lemma_scan_header(buf, COMMAND_END, c.phase->Command_scanned, c.max_header_bytes);
    lemma_scan_header(buf, ARGS_END, c.phase->Args_scanned, c.max_header_bytes);
    lemma_find_from(buf, FRAME_END, 0);
}

/// Whether the decoder's memory of what it has searched is true of `buf`:
/// the searched prefix lies within the buffer and holds no delimiter of the
/// section at hand. It is so for a decoder and the buffer that its last call
/// left, with whatever bytes have been appended since.
pub open spec fn agrees(c: CodecState, buf: Seq<u8>) -> bool {
    match c.phase {
        Phase::Command { scanned } => {
            &&& scanned <= buf.len()
            &&& forall|i: int| 0 <= i < scanned ==> buf[i] != COMMAND_END
        },
        Phase::Args { scanned, .. } => {
            &&& scanned <= buf.len()
            &&& forall|i: int| 0 <= i < scanned ==> buf[i] != ARGS_END
        },
        _ => true,
    }
}

} // verus!
