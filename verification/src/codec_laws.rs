//! What holds of the decoder: round trip, chunk invariance, the header
//! bound, and the authority of the declared length.

use vstd::prelude::*;
use vstd::utf8::*;
use crate::command::{lemma_tag_bytes, lemma_tag_reads_back, Command};
use crate::message::{
    args_text, is_delimiter, lawful, no_delimiter, wire, Frame, ARGS_END, COMMAND_END, FRAME_END,
};
use crate::codec_model::{agrees, decode_spec, is_blank, lemma_scan_header, parse_args, scan_end, scan_header, trimmed, CodecState, Decoded, FrameArgs, HeaderScan, Outcome, Phase};
use crate::msg_codec::{MsgCodecError};
use crate::stream::{drain, lemma_decode_progress, Drained};
use crate::scan::{find_from, lemma_find_from, lemma_find_from_is};
use crate::text::{
    decimal, is_digit, lemma_ascii_byte_absent, lemma_decimal_digits, lemma_decimal_reads_back,
    lossy_text,
};

verus! {

/// A search that resumes past a prefix without delimiter finds what a search
/// from the front finds.
pub proof fn lemma_scan_resumes(buf: Seq<u8>, delimiter: u8, scanned: nat, bound: nat)
    requires
        scanned <= buf.len(),
        forall|i: int| 0 <= i < scanned ==> buf[i] != delimiter,
    ensures
        scan_header(buf, delimiter, scanned, bound) == scan_header(buf, delimiter, 0, bound),
{
    let end = scan_end(buf, bound);
    let from = if scanned < end {
        scanned as int
    } else {
        end
    };
    let window = buf.take(end);
    lemma_find_from(window, delimiter, from);
    let k = find_from(window, delimiter, from);
    assert forall|i: int| 0 <= i < k implies #[trigger] window[i] != delimiter by {
        assert(window[i] == buf[i]);
    }
    lemma_find_from_is(window, delimiter, 0, k);
}

/// What a search from the front has settled stays settled when bytes are
/// appended.
pub proof fn lemma_scan_settled(buf: Seq<u8>, more: Seq<u8>, delimiter: u8, bound: nat)
    ensures
        !(scan_header(buf, delimiter, 0, bound) is NeedMore) ==> scan_header(
            buf + more,
            delimiter,
            0,
            bound,
        ) == scan_header(buf, delimiter, 0, bound),
{
    let end = scan_end(buf, bound);
    let long = buf + more;
    let long_end = scan_end(long, bound);
    lemma_scan_header(buf, delimiter, 0, bound);
    lemma_find_from(long.take(long_end), delimiter, 0);
    match scan_header(buf, delimiter, 0, bound) {
        HeaderScan::Found(k) => {
            assert forall|i: int| 0 <= i < k implies #[trigger] long.take(long_end)[i]
                != delimiter by {
                assert(long.take(long_end)[i] == buf[i]);
            }
            assert(long.take(long_end)[k] == buf[k]);
            lemma_find_from_is(long.take(long_end), delimiter, 0, k);
        },
        HeaderScan::TooLong => {
            assert(long_end == bound);
            assert forall|i: int| 0 <= i < long_end implies #[trigger] long.take(long_end)[i]
                != delimiter by {
                assert(long.take(long_end)[i] == buf[i]);
            }
            lemma_find_from_is(long.take(long_end), delimiter, 0, long_end);
        },
        HeaderScan::NeedMore => {},
    }
}

/// Bytes appended behind the buffer change nothing that a call has settled:
/// a frame or a fault comes out as before, with the new bytes left behind
/// it; and where the call had to wait, calling again with the new bytes is
/// the same as having had them from the start.
pub proof fn lemma_decode_extends(c: CodecState, buf: Seq<u8>, more: Seq<u8>)
    requires
        agrees(c, buf),
    ensures
        ({
            let d = decode_spec(c, buf);
            if d.outcome is Pending {
                decode_spec(c, buf + more) == decode_spec(d.state, d.rest + more)
            } else {
                decode_spec(c, buf + more) == (Decoded {
                    state: d.state,
                    rest: d.rest + more,
                    outcome: d.outcome,
                })
            }
        }),
    decreases buf.len(),
{
    let long = buf + more;
    let bound = c.max_header_bytes;
    match c.phase {
        Phase::Command { scanned } => {
            lemma_scan_resumes(buf, COMMAND_END, scanned, bound);
            lemma_scan_resumes(long, COMMAND_END, scanned, bound);
            lemma_scan_settled(buf, more, COMMAND_END, bound);
            lemma_scan_header(buf, COMMAND_END, 0, bound);
            match scan_header(buf, COMMAND_END, scanned, bound) {
                HeaderScan::Found(k) => {
                    assert(long.take(k) =~= buf.take(k));
                    assert(long.skip(k + 1) =~= buf.skip(k + 1) + more);
                    let command = Command::of_tag(trimmed(buf.take(k)));
                    lemma_decode_extends(
                        c.enter(Phase::Args { command, scanned: 0 }),
                        buf.skip(k + 1),
                        more,
                    );
                },
                HeaderScan::NeedMore => {
                    lemma_scan_resumes(long, COMMAND_END, buf.len(), bound);
                },
                HeaderScan::TooLong => {},
            }
        },
        Phase::Args { command, scanned } => {
            lemma_scan_resumes(buf, ARGS_END, scanned, bound);
            lemma_scan_resumes(long, ARGS_END, scanned, bound);
            lemma_scan_settled(buf, more, ARGS_END, bound);
            lemma_scan_header(buf, ARGS_END, 0, bound);
            match scan_header(buf, ARGS_END, scanned, bound) {
                HeaderScan::Found(k) => {
                    assert(long.take(k) =~= buf.take(k));
                    assert(long.skip(k + 1) =~= buf.skip(k + 1) + more);
                    match parse_args(lossy_text(buf.take(k))) {
                        Some(args) => {
                            lemma_decode_extends(
                                c.enter(
                                    Phase::Content {
                                        command,
                                        sender: args.sender,
                                        receiver: args.receiver,
                                        remaining: args.length,
                                    },
                                ),
                                buf.skip(k + 1),
                                more,
                            );
                        },
                        None => {},
                    }
                },
                HeaderScan::NeedMore => {
                    lemma_scan_resumes(long, ARGS_END, buf.len(), bound);
                },
                HeaderScan::TooLong => {},
            }
        },
        Phase::Content { remaining, .. } => {
            if buf.len() > remaining {
                assert(long.take(remaining as int) =~= buf.take(remaining as int));
                assert(long.skip(remaining as int) =~= buf.skip(remaining as int) + more);
                assert(long.skip(remaining as int + 1) =~= buf.skip(remaining as int + 1) + more);
            }
        },
        Phase::Discarding => {
            lemma_find_from(buf, FRAME_END, 0);
            lemma_find_from(more, FRAME_END, 0);
            let k = find_from(buf, FRAME_END, 0);
            if k < buf.len() {
                lemma_find_from_is(long, FRAME_END, 0, k);
                assert(long.skip(k + 1) =~= buf.skip(k + 1) + more);
                lemma_decode_extends(c.restart(), buf.skip(k + 1), more);
            } else {
                let j = find_from(more, FRAME_END, 0);
                assert(Seq::<u8>::empty() + more =~= more);
                lemma_find_from_is(long, FRAME_END, 0, buf.len() + j);
                if j < more.len() {
                    assert(long.skip(buf.len() + j + 1) =~= more.skip(j + 1));
                }
            }
        },
    }
}

/// Appends `chunk` to the buffer and drains it.
pub open spec fn feed(c: CodecState, buf: Seq<u8>, chunk: Seq<u8>) -> Drained {
    drain(c, buf + chunk)
}

/// Feeds the chunks one after another, each into what the one before left.
pub open spec fn feed_all(c: CodecState, buf: Seq<u8>, chunks: Seq<Seq<u8>>) -> Drained
    decreases chunks.len(),
{
    if chunks.len() == 0 {
        Drained { state: c, rest: buf, events: Seq::empty() }
    } else {
        let first = feed(c, buf, chunks[0]);
        let then = feed_all(first.state, first.rest, chunks.drop_first());
        Drained { state: then.state, rest: then.rest, events: first.events + then.events }
    }
}

/// The chunks laid end to end.
pub open spec fn joined(chunks: Seq<Seq<u8>>) -> Seq<u8>
    decreases chunks.len(),
{
    if chunks.len() == 0 {
        Seq::empty()
    } else {
        chunks[0] + joined(chunks.drop_first())
    }
}

/// Draining leaves a decoder that agrees with the buffer it left.
pub proof fn lemma_drain_agrees(c: CodecState, buf: Seq<u8>)
    requires
        agrees(c, buf),
    ensures
        agrees(drain(c, buf).state, drain(c, buf).rest),
    decreases buf.len(), (if c.phase is Discarding { 0nat } else { 1nat }),
{
    lemma_decode_progress(c, buf);
    let d = decode_spec(c, buf);
    if !(d.outcome is Pending) {
        lemma_drain_agrees(d.state, d.rest);
    }
}

/// Draining, appending and draining again gives what draining the whole
/// gives: the same frames and faults in the same order, the same decoder,
/// the same bytes left.
pub proof fn lemma_feed_in_two(c: CodecState, buf: Seq<u8>, more: Seq<u8>)
    requires
        agrees(c, buf),
    ensures
        ({
            let first = drain(c, buf);
            let then = feed(first.state, first.rest, more);
            drain(c, buf + more) == (Drained {
                state: then.state,
                rest: then.rest,
                events: first.events + then.events,
            })
        }),
    decreases buf.len(), (if c.phase is Discarding { 0nat } else { 1nat }),
{
    lemma_decode_progress(c, buf);
    lemma_decode_extends(c, buf, more);
    let d = decode_spec(c, buf);
    let first = drain(c, buf);
    let then = feed(first.state, first.rest, more);
    if d.outcome is Pending {
        assert(first.events + then.events =~= then.events);
    } else {
        lemma_feed_in_two(d.state, d.rest, more);
        let inner = drain(d.state, d.rest);
        assert(seq![d.outcome] + (inner.events + then.events) =~= first.events + then.events);
    }
}

/// Chunk invariance: however a byte sequence is cut into chunks, feeding the
/// chunks one after another yields the frames and faults, in the order, that
/// feeding the whole sequence at once yields, and leaves the same decoder
/// and the same bytes unread.
pub proof fn lemma_chunk_invariance(c: CodecState, buf: Seq<u8>, chunks: Seq<Seq<u8>>)
    requires
        agrees(c, buf),
        chunks.len() > 0,
    ensures
        feed_all(c, buf, chunks) == feed(c, buf, joined(chunks)),
    decreases chunks.len(),
{
    let first = feed(c, buf, chunks[0]);
    let rest = chunks.drop_first();
    let then = feed_all(first.state, first.rest, rest);
    assert(joined(chunks) == chunks[0] + joined(rest));
    if rest.len() == 0 {
        assert(then.events =~= Seq::<Outcome>::empty());
        assert(joined(chunks) =~= chunks[0]);
        assert(first.events + then.events =~= first.events);
    } else {
        assert(agrees(c, buf + chunks[0]));
        lemma_drain_agrees(c, buf + chunks[0]);
        lemma_chunk_invariance(first.state, first.rest, rest);
        lemma_feed_in_two(c, buf + chunks[0], joined(rest));
        assert((buf + chunks[0]) + joined(rest) =~= buf + joined(chunks));
    }
}

/// Chunk invariance for a connection from its start: a decoder that has read
/// nothing, an empty buffer, and any cutting of the input, the cutting into
/// no chunks at all included.
pub proof fn lemma_chunk_invariance_from_start(max_header_bytes: nat, chunks: Seq<Seq<u8>>)
    ensures
        feed_all(CodecState::fresh(max_header_bytes), Seq::empty(), chunks) == drain(
            CodecState::fresh(max_header_bytes),
            joined(chunks),
        ),
{
    let c = CodecState::fresh(max_header_bytes);
    if chunks.len() == 0 {
        lemma_find_from(Seq::<u8>::empty(), COMMAND_END, 0);
        assert(Seq::<u8>::empty().take(0) =~= Seq::<u8>::empty());
    } else {
        lemma_chunk_invariance(c, Seq::empty(), chunks);
        assert(Seq::<u8>::empty() + joined(chunks) =~= joined(chunks));
    }
}

/// A search from the front finds the delimiter where it first stands, if
/// that is within the bound.
proof fn lemma_scan_finds(buf: Seq<u8>, delimiter: u8, bound: nat, k: int)
    requires
        0 <= k < buf.len(),
        k < bound,
        buf[k] == delimiter,
        forall|i: int| 0 <= i < k ==> buf[i] != delimiter,
    ensures
        scan_header(buf, delimiter, 0, bound) == HeaderScan::Found(k),
{
    lemma_scan_header(buf, delimiter, 0, bound);
}

/// The argument section of a frame whose sender and receiver hold no comma
/// reads back as its length, sender and receiver.
pub proof fn lemma_args_read_back(f: Frame)
    requires
        forall|i: int| 0 <= i < f.sender.len() ==> f.sender[i] != ',',
        forall|i: int| 0 <= i < f.receiver.len() ==> f.receiver[i] != ',',
        f.content.len() <= u64::MAX,
    ensures
        parse_args(args_text(f)) == Some(
            FrameArgs { length: f.content.len(), sender: f.sender, receiver: f.receiver },
        ),
{
    let text = args_text(f);
    let digits = decimal(f.content.len());
    let i = digits.len() as int;
    let j = i + 1 + f.sender.len();
    lemma_decimal_digits(f.content.len());
    lemma_decimal_reads_back(f.content.len());
    assert forall|p: int| 0 <= p < i implies text[p] != ',' by {
        assert(text[p] == digits[p]);
        assert(is_digit(digits[p]));
    }
    assert(text[i] == ',');
    lemma_find_from_is(text, ',', 0, i);
    assert forall|p: int| i + 1 <= p < j implies text[p] != ',' by {
        assert(text[p] == f.sender[p - i - 1]);
    }
    assert(text[j] == ',');
    lemma_find_from_is(text, ',', i + 1, j);
    assert forall|p: int| j + 1 <= p < text.len() implies text[p] != ',' by {
        assert(text[p] == f.receiver[p - j - 1]);
    }
    lemma_find_from_is(text, ',', j + 1, text.len() as int);
    assert(text.take(i) =~= digits);
    assert(text.subrange(i + 1, j) =~= f.sender);
    assert(text.skip(j + 1) =~= f.receiver);
}

/// No character of the argument section of a lawful frame is `|`.
proof fn lemma_args_text_has_no_bar(f: Frame)
    requires
        no_delimiter(f.sender),
        no_delimiter(f.receiver),
    ensures
        forall|j: int| 0 <= j < args_text(f).len() ==> args_text(f)[j] as u32 != ARGS_END as u32,
{
    let text = args_text(f);
    let digits = decimal(f.content.len());
    lemma_decimal_digits(f.content.len());
    assert forall|j: int| 0 <= j < text.len() implies text[j] as u32 != ARGS_END as u32 by {
        let i = digits.len() as int;
        let k = i + 1 + f.sender.len();
        if j < i {
            assert(text[j] == digits[j]);
            assert(is_digit(digits[j]));
        } else if j == i {
            assert(text[j] == ',');
        } else if j < k {
            assert(text[j] == f.sender[j - i - 1]);
            assert(!is_delimiter(f.sender[j - i - 1]));
        } else if j == k {
            assert(text[j] == ',');
        } else {
            assert(text[j] == f.receiver[j - k - 1]);
            assert(!is_delimiter(f.receiver[j - k - 1]));
        }
        char_u32_cast(text[j], text[j] as u32);
        char_u32_cast('|', 124u32);
    }
}

/// A decoder at the start of a frame reads a tag and its `#`, and goes on
/// with what follows them.
proof fn lemma_reads_command_section(f: Frame, max_header_bytes: nat, rest: Seq<u8>)
    requires
        f.command.tag_bytes().len() < max_header_bytes,
    ensures
        decode_spec(
            CodecState::fresh(max_header_bytes),
            f.command.tag_bytes() + seq![COMMAND_END] + rest,
        ) == decode_spec(
            CodecState::fresh(max_header_bytes).enter(
                Phase::Args { command: f.command, scanned: 0 },
            ),
            rest,
        ),
{
    let tag = f.command.tag_bytes();
    let input = tag + seq![COMMAND_END] + rest;
    lemma_tag_bytes(f.command);
    lemma_tag_reads_back(f.command);
    let k = tag.len() as int;
    assert forall|i: int| 0 <= i < k implies input[i] != COMMAND_END by {
        assert(input[i] == tag[i]);
    }
    assert(input[k] == COMMAND_END);
    lemma_scan_finds(input, COMMAND_END, max_header_bytes, k);
    assert(input.take(k) =~= tag);
    assert(!is_blank(tag[0]));
    assert(trimmed(tag) == tag);
    assert(input.skip(k + 1) =~= rest);
}

/// A decoder that has read the command reads the argument section of a
/// lawful frame and its `|`, and goes on with what follows them.
proof fn lemma_reads_args_section(f: Frame, max_header_bytes: nat, rest: Seq<u8>)
    requires
        lawful(f, max_header_bytes),
    ensures
        decode_spec(
            CodecState::fresh(max_header_bytes).enter(
                Phase::Args { command: f.command, scanned: 0 },
            ),
            encode_utf8(args_text(f)) + seq![ARGS_END] + rest,
        ) == decode_spec(
            CodecState::fresh(max_header_bytes).enter(
                Phase::Content {
                    command: f.command,
                    sender: f.sender,
                    receiver: f.receiver,
                    remaining: f.content.len(),
                },
            ),
            rest,
        ),
{
    let text = args_text(f);
    let args = encode_utf8(text);
    let input = args + seq![ARGS_END] + rest;
    lemma_args_text_has_no_bar(f);
    lemma_ascii_byte_absent(text, ARGS_END);
    let n = args.len() as int;
    assert forall|i: int| 0 <= i < n implies input[i] != ARGS_END by {
        assert(input[i] == args[i]);
    }
    assert(input[n] == ARGS_END);
    lemma_scan_finds(input, ARGS_END, max_header_bytes, n);
    assert(input.take(n) =~= args);
    assert(input.skip(n + 1) =~= rest);
    encode_utf8_valid_utf8(text);
    encode_utf8_decode_utf8(text);
    assert(lossy_text(args) == text);
    lemma_args_read_back(f);
}

/// Round trip: a lawful frame, written to the wire and read by a decoder at
/// the start of a frame, comes back equal in all four fields. The decoder
/// takes the frame's bytes and no others, and is at the start of a frame
/// again.
pub proof fn lemma_round_trip(f: Frame, max_header_bytes: nat, tail: Seq<u8>)
    requires
        lawful(f, max_header_bytes),
    ensures
        decode_spec(CodecState::fresh(max_header_bytes), wire(f) + tail) == (Decoded {
            state: CodecState::fresh(max_header_bytes),
            rest: tail,
            outcome: Outcome::Complete(f),
        }),
{
    let after_args = f.content + seq![FRAME_END] + tail;
    let after_tag = encode_utf8(args_text(f)) + seq![ARGS_END] + after_args;
    assert(wire(f) + tail =~= f.command.tag_bytes() + seq![COMMAND_END] + after_tag);
    lemma_reads_command_section(f, max_header_bytes, after_tag);
    lemma_reads_args_section(f, max_header_bytes, after_args);
    let m = f.content.len() as int;
    assert(after_args[m] == FRAME_END);
    assert(after_args.take(m) =~= f.content);
    assert(after_args.skip(m + 1) =~= tail);
}

/// Length authority: once the header has declared a content length, the
/// bytes within that length are the content, whatever they are, a `$`
/// included. Only the byte right behind them is looked at as the trailer: a
/// `$` there completes the frame, any other byte is a fault.
pub proof fn lemma_length_authority(c: CodecState, buf: Seq<u8>)
    requires
        c.phase is Content,
        buf.len() > c.phase->Content_remaining,
    ensures
        ({
            let n = c.phase->Content_remaining as int;
            let d = decode_spec(c, buf);
            if buf[n] == FRAME_END {
                &&& d.outcome == Outcome::Complete(
                    Frame {
                        sender: c.phase->Content_sender,
                        receiver: c.phase->Content_receiver,
                        command: c.phase->Content_command,
                        content: buf.take(n),
                    },
                )
                &&& d.rest == buf.skip(n + 1)
                &&& d.state == c.restart()
            } else {
                &&& d.outcome == Outcome::Fault(MsgCodecError::InvalidContent)
                &&& d.rest == buf.skip(n)
                &&& d.state == c.enter(Phase::Discarding)
            }
        }),
{
}

/// A discarding decoder makes no frame of the bytes up to the next `$`: it
/// drops them with the `$`, and reads on as a decoder at the start of a
/// frame would read what follows. Without a `$` it drops everything and
/// waits.
pub proof fn lemma_discarding_drops(c: CodecState, buf: Seq<u8>)
    requires
        c.phase is Discarding,
    ensures
        ({
            let k = find_from(buf, FRAME_END, 0);
            if k < buf.len() {
                decode_spec(c, buf) == decode_spec(c.restart(), buf.skip(k + 1))
            } else {
                decode_spec(c, buf) == (Decoded {
                    state: c,
                    rest: Seq::empty(),
                    outcome: Outcome::Pending,
                })
            }
        }),
{
}

/// The delimiter that ends the header section of a phase.
pub open spec fn section_end(phase: Phase) -> u8 {
    if phase is Command {
        COMMAND_END
    } else {
        ARGS_END
    }
}

/// The fault that a header section without end is reported as.
pub open spec fn section_fault(phase: Phase) -> MsgCodecError {
    if phase is Command {
        MsgCodecError::InvalidCommand
    } else {
        MsgCodecError::InvalidArguments
    }
}

/// Bounded header: where a header section has no delimiter within the bound
/// and the buffer is longer than the bound, the call is a fault that takes
/// no byte and leaves the decoder discarding.
pub proof fn lemma_bounded_header(c: CodecState, buf: Seq<u8>)
    requires
        c.phase is Command || c.phase is Args,
        agrees(c, buf),
        buf.len() > c.max_header_bytes,
        forall|i: int| 0 <= i < c.max_header_bytes ==> buf[i] != section_end(c.phase),
    ensures
        decode_spec(c, buf) == (Decoded {
            state: c.enter(Phase::Discarding),
            rest: buf,
            outcome: Outcome::Fault(section_fault(c.phase)),
        }),
{
    lemma_scan_header(buf, COMMAND_END, c.phase->Command_scanned, c.max_header_bytes);
    lemma_scan_header(buf, ARGS_END, c.phase->Args_scanned, c.max_header_bytes);
}

/// Bounded header, to the end: no frame comes of the bytes of such a header.
/// Draining the buffer reports the fault, drops the bytes up to and with the
/// next `$`, and goes on from there as a decoder at the start of a frame;
/// without a `$` it drops them all.
pub proof fn lemma_bounded_header_discards(c: CodecState, buf: Seq<u8>)
    requires
        c.phase is Command || c.phase is Args,
        agrees(c, buf),
        buf.len() > c.max_header_bytes,
        forall|i: int| 0 <= i < c.max_header_bytes ==> buf[i] != section_end(c.phase),
    ensures
        ({
            let fault = Outcome::Fault(section_fault(c.phase));
            let k = find_from(buf, FRAME_END, 0);
            if k < buf.len() {
                let then = drain(c.restart(), buf.skip(k + 1));
                drain(c, buf) == (Drained {
                    state: then.state,
                    rest: then.rest,
                    events: seq![fault] + then.events,
                })
            } else {
                drain(c, buf) == (Drained {
                    state: c.enter(Phase::Discarding),
                    rest: Seq::empty(),
                    events: seq![fault],
                })
            }
        }),
{
    lemma_bounded_header(c, buf);
    let discarding = c.enter(Phase::Discarding);
    lemma_discarding_drops(discarding, buf);
    let k = find_from(buf, FRAME_END, 0);
    if k < buf.len() {
        assert(drain(discarding, buf) == drain(c.restart(), buf.skip(k + 1)));
    } else {
        assert(drain(discarding, buf).events =~= Seq::<Outcome>::empty());
        assert(seq![Outcome::Fault(section_fault(c.phase))] + Seq::<Outcome>::empty() =~= seq![
            Outcome::Fault(section_fault(c.phase)),
        ]);
    }
}

/// The frames on the wire, one behind the other.
pub open spec fn wire_all(frames: Seq<Frame>) -> Seq<u8>
    decreases frames.len(),
{
    if frames.len() == 0 {
        Seq::empty()
    } else {
        wire(frames[0]) + wire_all(frames.drop_first())
    }
}

/// Order: lawful frames that are written one behind the other are read as
/// those frames, in the order in which they were written, with nothing
/// between them and nothing left.
pub proof fn lemma_stream_round_trip(frames: Seq<Frame>, max_header_bytes: nat)
    requires
        forall|i: int| 0 <= i < frames.len() ==> lawful(#[trigger] frames[i], max_header_bytes),
    ensures
        drain(CodecState::fresh(max_header_bytes), wire_all(frames)) == (Drained {
            state: CodecState::fresh(max_header_bytes),
            rest: Seq::empty(),
            events: Seq::new(frames.len(), |i: int| Outcome::Complete(frames[i])),
        }),
    decreases frames.len(),
{
    let c = CodecState::fresh(max_header_bytes);
    let events = Seq::new(frames.len(), |i: int| Outcome::Complete(frames[i]));
    if frames.len() == 0 {
        lemma_find_from(Seq::<u8>::empty(), COMMAND_END, 0);
        assert(Seq::<u8>::empty().take(0) =~= Seq::<u8>::empty());
        assert(drain(c, wire_all(frames)).events =~= events);
    } else {
        let rest = frames.drop_first();
        assert forall|i: int| 0 <= i < rest.len() implies lawful(
            #[trigger] rest[i],
            max_header_bytes,
        ) by {
            assert(rest[i] == frames[i + 1]);
        }
        lemma_round_trip(frames[0], max_header_bytes, wire_all(rest));
        lemma_stream_round_trip(rest, max_header_bytes);
        let then = Seq::new(rest.len(), |i: int| Outcome::Complete(rest[i]));
        assert(seq![Outcome::Complete(frames[0])] + then =~= events);
    }
}

} // verus!
