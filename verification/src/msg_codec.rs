//! The codec of a connection half: a decoder that takes up where it left
//! off, and an encoder.

use bytes::BytesMut;
use vstd::prelude::*;
use vstd::slice::slice_subrange;
use vstd::slice::slice_to_vec;
use vstd::string::*;
use crate::buffer::{buf_advance, buf_len, buf_put_slice, buf_reserve, buf_slice, buf_split_to, buffered};
use crate::codec_model::{
    decode_spec, is_blank, lemma_scan_header, parse_args, scan_end, scan_header, trimmed,
    CodecState, Decoded, FrameArgs, HeaderScan, Outcome, Phase,
};
use crate::command::Command;
use crate::message::{help_frame, wire, Message, ARGS_END, COMMAND_END, FRAME_END};
use crate::scan::{find_byte, lemma_find_from};
use crate::text::{chars_of, find_char, from_utf8_lossy, lossy_text, parse_u64};

verus! {

/// The header bound of a codec made by `MsgCodec::new`.
pub const DEFAULT_MAX_HEADER_BYTES: u32 = 256;

/// A framing fault, named after the section in which the input went wrong.
#[derive(Debug, Clone, Copy, PartialEq, Eq, Structural)]
pub enum MsgCodecError {
    /// No `#` within the header bound.
    InvalidCommand,
    /// No `|` within the header bound, or arguments that do not read as
    /// length, sender and receiver.
    InvalidArguments,
    /// The byte after the content is not `$`.
    InvalidContent,
}

impl MsgCodecError {
    /// The name of the fault.
    pub open spec fn name(self) -> Seq<char> {
        match self {
            MsgCodecError::InvalidCommand => "InvalidCommand"@,
            MsgCodecError::InvalidArguments => "InvalidArguments"@,
            MsgCodecError::InvalidContent => "InvalidContent"@,
        }
    }

    /// The name of the fault.
    pub fn to_string(&self) -> (s: String)
        ensures
            s@ == self.name(),
    {
        match self {
            MsgCodecError::InvalidCommand => "InvalidCommand".to_owned(),
            MsgCodecError::InvalidArguments => "InvalidArguments".to_owned(),
            MsgCodecError::InvalidContent => "InvalidContent".to_owned(),
        }
    }
}

/// The section that the decoder reads next.
#[derive(Debug, Clone, Copy, PartialEq, Eq, Structural)]
pub enum MsgCodecStatus {
    Command,
    Args,
    Content,
    Discarding,
}

/// The outcome that a result of `MsgCodec::decode` stands for.
pub open spec fn outcome_of(r: Result<Option<Message>, MsgCodecError>) -> Outcome {
    match r {
        Ok(None) => Outcome::Pending,
        Ok(Some(m)) => Outcome::Complete(m@),
        Err(e) => Outcome::Fault(e),
    }
}

/// The decoder and encoder of one connection half.
#[derive(Debug)]
pub struct MsgCodec {
    command: Option<Command>,
    args: Option<(u64, String, String)>,
    content_remaining: u64,
    max_header_bytes: u32,
    scan_cursor: u32,
    is_discarding: bool,
}

impl View for MsgCodec {
    type V = CodecState;

    closed spec fn view(&self) -> CodecState {
        CodecState {
            phase: if self.is_discarding {
                Phase::Discarding
            } else {
                match (self.command, self.args) {
                    (None, _) => Phase::Command { scanned: self.scan_cursor as nat },
                    (Some(command), None) => Phase::Args {
                        command,
                        scanned: self.scan_cursor as nat,
                    },
                    (Some(command), Some(args)) => Phase::Content {
                        command,
                        sender: args.1@,
                        receiver: args.2@,
                        remaining: self.content_remaining as nat,
                    },
                }
            },
            max_header_bytes: self.max_header_bytes as nat,
        }
    }
}

/// Whether `b` is ASCII white space.
fn blank(b: u8) -> (r: bool)
    ensures
        r == is_blank(b),
{
    b == 32 || b == 9 || b == 10 || b == 12 || b == 13
}

/// `s` without the white space at its front.
fn trim_front(s: &[u8]) -> (t: &[u8])
    ensures
        t@ == trimmed(s@),
{
    let mut i: usize = 0;
    assert(s@.skip(0) =~= s@);
    while i < s.len() && blank(s[i])
        invariant
            i <= s.len(),
            trimmed(s@) == trimmed(s@.skip(i as int)),
        decreases s.len() - i,
    {
        assert(s@.skip(i as int).drop_first() =~= s@.skip(i + 1));
        i += 1;
    }
    slice_subrange(s, i, s.len())
}

/// Reads the text of an argument section.
fn read_fields(text: &str) -> (r: Option<(u64, String, String)>)
    ensures
        match r {
            Some(args) => parse_args(text@) == Some(
                FrameArgs { length: args.0 as nat, sender: args.1@, receiver: args.2@ },
            ),
            None => parse_args(text@) is None,
        },
{
    let chars = chars_of(text);
    let len = chars.len();
    let i = find_char(chars.as_slice(), ',', 0);
    if i >= len {
        return None;
    }
    let j = find_char(chars.as_slice(), ',', i + 1);
    if j >= len {
        return None;
    }
    let k = find_char(chars.as_slice(), ',', j + 1);
    if k < len {
        return None;
    }
    proof {
        lemma_find_from(text@, ',', 0);
        lemma_find_from(text@, ',', i + 1);
        lemma_find_from(text@, ',', j + 1);
        assert(text@.subrange(0, i as int) =~= text@.take(i as int));
        assert(text@.subrange(j + 1, len as int) =~= text@.skip(j + 1));
    }
    match parse_u64(slice_subrange(chars.as_slice(), 0, i)) {
        None => None,
        Some(length) => {
            let sender = text.substring_char(i + 1, j).to_owned();
            let receiver = text.substring_char(j + 1, len).to_owned();
            Some((length, sender, receiver))
        },
    }
}

impl Clone for MsgCodec {
    fn clone(&self) -> (codec: MsgCodec)
        ensures
            codec@ == self@,
    {
        proof {
            use_type_invariant(self);
        }
        MsgCodec {
            command: self.command,
            args: match &self.args {
                Some(args) => Some((args.0, args.1.clone(), args.2.clone())),
                None => None,
            },
            content_remaining: self.content_remaining,
            max_header_bytes: self.max_header_bytes,
            scan_cursor: self.scan_cursor,
            is_discarding: self.is_discarding,
        }
    }
}

impl MsgCodec {
    /// Arguments are held only while a command is.
    #[verifier::type_invariant]
    spec fn well_formed(self) -> bool {
        self.command is None ==> self.args is None
    }

    /// A decoder at the start of a frame, with the default header bound.
    pub fn new() -> (codec: MsgCodec)
        ensures
            codec@ == CodecState::fresh(DEFAULT_MAX_HEADER_BYTES as nat),
    {
        MsgCodec::with_max_header_bytes(DEFAULT_MAX_HEADER_BYTES)
    }

    /// A decoder at the start of a frame that bounds either header section
    /// by `max_header_bytes`.
    pub fn with_max_header_bytes(max_header_bytes: u32) -> (codec: MsgCodec)
        ensures
            codec@ == CodecState::fresh(max_header_bytes as nat),
    {
        MsgCodec {
            command: None,
            args: None,
            content_remaining: 0,
            max_header_bytes,
            scan_cursor: 0,
            is_discarding: false,
        }
    }

    /// Puts the decoder back as `new` made it, default bound included.
    pub fn reset(&mut self)
        ensures
            final(self)@ == CodecState::fresh(DEFAULT_MAX_HEADER_BYTES as nat),
    {
        self.init();
        proof {
            use_type_invariant(&*self);
        }
        self.max_header_bytes = DEFAULT_MAX_HEADER_BYTES;
    }

    /// Puts the decoder at the start of a frame; the bound stays.
    pub fn init(&mut self)
        ensures
            final(self)@ == old(self)@.restart(),
    {
        self.args = None;
        self.command = None;
        self.content_remaining = 0;
        self.scan_cursor = 0;
        self.is_discarding = false;
    }

    /// The section that the decoder reads next.
    pub fn status(&self) -> (s: MsgCodecStatus)
        ensures
            s == self@.status(),
    {
        if self.is_discarding {
            return MsgCodecStatus::Discarding;
        }
        if self.command.is_none() {
            return MsgCodecStatus::Command;
        }
        if self.args.is_none() {
            return MsgCodecStatus::Args;
        }
        MsgCodecStatus::Content
    }

    /// The bound on either header section.
    pub fn max_header_bytes(&self) -> (bound: u32)
        ensures
            bound == self@.max_header_bytes,
    {
        self.max_header_bytes
    }

    /// Gives up the frame at hand and starts discarding.
    fn discard(&mut self)
        ensures
            final(self)@ == old(self)@.enter(Phase::Discarding),
    {
        self.args = None;
        self.command = None;
        self.content_remaining = 0;
        self.scan_cursor = 0;
        self.is_discarding = true;
    }

    /// Searches the searchable prefix of the buffer for `delimiter`:
    /// `Ok(Some(offset))` where it is found, `Ok(None)` where more bytes are
    /// needed, `Err(())` where the bound is passed without it.
    fn find_delimiter(&mut self, buf: &BytesMut, delimiter: u8) -> (r: Result<Option<usize>, ()>)
        ensures
            final(self).command == old(self).command,
            final(self).args == old(self).args,
            final(self).content_remaining == old(self).content_remaining,
            final(self).max_header_bytes == old(self).max_header_bytes,
            final(self).is_discarding == old(self).is_discarding,
            match scan_header(
                buffered(buf),
                delimiter,
                old(self).scan_cursor as nat,
                old(self).max_header_bytes as nat,
            ) {
                HeaderScan::Found(k) => {
                    &&& r == Ok::<Option<usize>, ()>(Some(k as usize))
                    &&& 0 <= k < buffered(buf).len()
                    &&& final(self).scan_cursor == 0
                },
                HeaderScan::NeedMore => {
                    &&& r == Ok::<Option<usize>, ()>(None)
                    &&& final(self).scan_cursor == scan_end(
                        buffered(buf),
                        old(self).max_header_bytes as nat,
                    )
                },
                HeaderScan::TooLong => r is Err && final(self).scan_cursor == 0,
            },
    {
        let len = buf_len(buf);
        let bound = self.max_header_bytes as usize;
        let read_to = if bound < len {
            bound
        } else {
            len
        };
        let cursor = self.scan_cursor as usize;
        let from = if cursor < read_to {
            cursor
        } else {
            read_to
        };
        proof {
            use_type_invariant(&*self);
            lemma_scan_header(
                buffered(buf),
                delimiter,
                self.scan_cursor as nat,
                self.max_header_bytes as nat,
            );
        }
        match find_byte(buf_slice(buf), delimiter, from, read_to) {
            Some(k) => {
                self.scan_cursor = 0;
                Ok(Some(k))
            },
            None => {
                if len > bound {
                    self.scan_cursor = 0;
                    Err(())
                } else {
                    self.scan_cursor = read_to as u32;
                    Ok(None)
                }
            },
        }
    }

    /// Reads the command section, up to and including its `#`.
    fn read_command(&mut self, buf: &mut BytesMut) -> (r: Result<Option<Command>, ()>)
        requires
            old(self)@.phase is Command,
        ensures
            final(self)@.max_header_bytes == old(self)@.max_header_bytes,
            match scan_header(
                buffered(old(buf)),
                COMMAND_END,
                old(self)@.phase->Command_scanned,
                old(self)@.max_header_bytes,
            ) {
                HeaderScan::Found(k) => {
                    &&& r == Ok::<Option<Command>, ()>(
                        Some(Command::of_tag(trimmed(buffered(old(buf)).take(k)))),
                    )
                    &&& buffered(final(buf)) == buffered(old(buf)).skip(k + 1)
                    &&& final(self)@.phase == (Phase::Command { scanned: 0 })
                },
                HeaderScan::NeedMore => {
                    &&& r == Ok::<Option<Command>, ()>(None)
                    &&& buffered(final(buf)) == buffered(old(buf))
                    &&& final(self)@.phase == (Phase::Command {
                        scanned: scan_end(buffered(old(buf)), old(self)@.max_header_bytes) as nat,
                    })
                },
                HeaderScan::TooLong => {
                    &&& r is Err
                    &&& buffered(final(buf)) == buffered(old(buf))
                    &&& final(self)@.phase == (Phase::Command { scanned: 0 })
                },
            },
    {
        match self.find_delimiter(buf, COMMAND_END) {
            Err(e) => Err(e),
            Ok(None) => Ok(None),
            Ok(Some(delimiter_idx)) => {
                let command_bytes = buf_split_to(buf, delimiter_idx);
                buf_advance(buf, 1);
                assert(buffered(buf) =~= buffered(old(buf)).skip(delimiter_idx + 1));
                Ok(Some(Command::from_bytes(trim_front(buf_slice(&command_bytes)))))
            },
        }
    }

    /// Reads the argument section, up to and including its `|`, and sets the
    /// content length. `Err(())` where the bound is passed without `|`, or
    /// the section does not read as length, sender and receiver.
    fn read_args(&mut self, buf: &mut BytesMut) -> (r: Result<Option<(u64, String, String)>, ()>)
        requires
            old(self)@.phase is Args,
        ensures
            final(self)@.max_header_bytes == old(self)@.max_header_bytes,
            final(self).command == old(self).command,
            final(self).args == old(self).args,
            final(self).is_discarding == old(self).is_discarding,
            match scan_header(
                buffered(old(buf)),
                ARGS_END,
                old(self)@.phase->Args_scanned,
                old(self)@.max_header_bytes,
            ) {
                HeaderScan::Found(k) => {
                    &&& buffered(final(buf)) == buffered(old(buf)).skip(k + 1)
                    &&& final(self).scan_cursor == 0
                    &&& match parse_args(lossy_text(buffered(old(buf)).take(k))) {
                        Some(args) => {
                            &&& r is Ok
                            &&& r->Ok_0 is Some
                            &&& r->Ok_0->Some_0.0 == args.length
                            &&& r->Ok_0->Some_0.1@ == args.sender
                            &&& r->Ok_0->Some_0.2@ == args.receiver
                            &&& final(self).content_remaining == args.length
                        },
                        None => r is Err,
                    }
                },
                HeaderScan::NeedMore => {
                    &&& r is Ok
                    &&& r->Ok_0 is None
                    &&& buffered(final(buf)) == buffered(old(buf))
                    &&& final(self).scan_cursor == scan_end(
                        buffered(old(buf)),
                        old(self)@.max_header_bytes,
                    )
                },
                HeaderScan::TooLong => {
                    &&& r is Err
                    &&& buffered(final(buf)) == buffered(old(buf))
                    &&& final(self).scan_cursor == 0
                },
            },
    {
        match self.find_delimiter(buf, ARGS_END) {
            Err(e) => Err(e),
            Ok(None) => Ok(None),
            Ok(Some(delimiter_idx)) => {
                let args_bytes = buf_split_to(buf, delimiter_idx);
                buf_advance(buf, 1);
                assert(buffered(buf) =~= buffered(old(buf)).skip(delimiter_idx + 1));
                let args_string = from_utf8_lossy(buf_slice(&args_bytes));
                match read_fields(args_string.as_str()) {
                    None => Err(()),
                    Some(args) => {
                        proof {
                            use_type_invariant(&*self);
                        }
                        self.content_remaining = args.0;
                        Ok(Some(args))
                    },
                }
            },
        }
    }

    /// Appends `item` to `dst` as it goes on the wire. The decoder's state is
    /// not touched. The one failure is a frame that would make the buffer
    /// longer than a buffer can be; the buffer then stays as it is.
    pub fn encode(&mut self, item: Message, dst: &mut BytesMut) -> (r: Result<(), MsgCodecError>)
        ensures
            final(self)@ == old(self)@,
            buffered(old(dst)).len() + wire(item@).len() <= usize::MAX ==> r is Ok && buffered(
                final(dst),
            ) == buffered(old(dst)) + wire(item@),
            buffered(old(dst)).len() + wire(item@).len() > usize::MAX ==> r == Err::<
                (),
                MsgCodecError,
            >(MsgCodecError::InvalidContent) && buffered(final(dst)) == buffered(old(dst)),
    {
        let bytes = item.to_bytes();
        let len = buf_len(&bytes);
        if len > usize::MAX - buf_len(dst) {
            return Err(MsgCodecError::InvalidContent);
        }
        buf_reserve(dst, len);
        buf_put_slice(dst, buf_slice(&bytes));
        Ok(())
    }

    /// Reads at most one frame from the front of `buf`.
    ///
    /// `Ok(Some(frame))`: a frame is complete, and its bytes have left the
    /// buffer. `Ok(None)`: more bytes are needed. `Err(fault)`: the input is
    /// malformed; the decoder drops bytes up to the next `$` before it reads
    /// a frame again.
    pub fn decode(&mut self, buf: &mut BytesMut) -> (r: Result<Option<Message>, MsgCodecError>)
        ensures
            decode_spec(old(self)@, buffered(old(buf))) == (Decoded {
                state: final(self)@,
                rest: buffered(final(buf)),
                outcome: outcome_of(r),
            }),
    {
        let ghost goal = decode_spec(self@, buffered(buf));
        loop
            invariant
                goal == decode_spec(old(self)@, buffered(old(buf))),
                decode_spec(self@, buffered(buf)) == goal,
            decreases buffered(buf).len(),
        {
            let ghost before = buffered(buf);
            let ghost c = self@;
            proof {
                use_type_invariant(&*self);
                lemma_scan_header(before, COMMAND_END, c.phase->Command_scanned, c.max_header_bytes);
                lemma_scan_header(before, ARGS_END, c.phase->Args_scanned, c.max_header_bytes);
                lemma_find_from(before, FRAME_END, 0);
            }
            match self.status() {
                MsgCodecStatus::Command => match self.read_command(buf) {
                    Err(_) => {
                        self.discard();
                        return Err(MsgCodecError::InvalidCommand);
                    },
                    Ok(None) => {
                        return Ok(None);
                    },
                    Ok(Some(cmd)) => {
                        proof {
                            use_type_invariant(&*self);
                        }
                        self.command = Some(cmd);
                        assert(self@ == c.enter(Phase::Args { command: cmd, scanned: 0 }));
                    },
                },
                MsgCodecStatus::Args => match self.read_args(buf) {
                    Err(_) => {
                        self.discard();
                        return Err(MsgCodecError::InvalidArguments);
                    },
                    Ok(None) => {
                        return Ok(None);
                    },
                    Ok(Some(args)) => {
                        self.args = Some(args);
                        assert(self@.phase is Content);
                    },
                },
                MsgCodecStatus::Content => {
                    let len = buf_len(buf);
                    if len as u64 <= self.content_remaining {
                        return Ok(None);
                    }
                    let content_len = self.content_remaining as usize;
                    let content_bytes = buf_split_to(buf, content_len);
                    if buf_slice(buf)[0] != FRAME_END {
                        self.discard();
                        return Err(MsgCodecError::InvalidContent);
                    }
                    buf_advance(buf, 1);
                    assert(buffered(buf) =~= before.skip(content_len + 1));
                    let command = self.command.unwrap();
                    let args = self.args.as_ref().unwrap();
                    let sender = args.1.clone();
                    let receiver = args.2.clone();
                    let content = slice_to_vec(buf_slice(&content_bytes));
                    self.init();
                    return Ok(Some(Message { sender, receiver, command, content }));
                },
                MsgCodecStatus::Discarding => {
                    let len = buf_len(buf);
                    assert(before.take(len as int) =~= before);
                    match find_byte(buf_slice(buf), FRAME_END, 0, len) {
                        Some(k) => {
                            buf_advance(buf, k + 1);
                            self.init();
                            assert(self@ == c.restart());
                        },
                        None => {
                            buf_advance(buf, len);
                            assert(buffered(buf) =~= Seq::<u8>::empty());
                            return Ok(None);
                        },
                    }
                },
            }
        }
    }

    /// Reads at most one frame from the front of `buf`, as `decode` does, and
    /// answers malformed input with the help frame in place of a fault: the
    /// connection goes on, and its user is told.
    pub fn decode_or_help(&mut self, buf: &mut BytesMut) -> (r: Option<Message>)
        ensures
            ({
                let d = decode_spec(old(self)@, buffered(old(buf)));
                &&& final(self)@ == d.state
                &&& buffered(final(buf)) == d.rest
                &&& match d.outcome {
                    Outcome::Pending => r is None,
                    Outcome::Complete(frame) => r is Some && r->Some_0@ == frame,
                    Outcome::Fault(_) => r is Some && r->Some_0@ == help_frame(),
                }
            }),
    {
        match self.decode(buf) {
            Ok(frame) => frame,
            Err(_) => Some(Command::help()),
        }
    }
}

} // verus!
