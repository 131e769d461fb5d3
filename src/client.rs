//! The half-duplex exchange: a request writer frames outgoing bytes, and once it
//! is finalized the response is read frame by frame from a response reader.

use vstd::prelude::*;

use crate::capabilities::{parse_outcome, Capabilities};
use crate::non_io_types::{Error, MessageKind, WriteMode};
use crate::packetline::{
    control_frame, decode_at, encoded, push_encoded, spec_decode, EncodeError, Frame, PacketLine,
    MAX_DATA_LEN,
};

verus! {

/// The line feed byte.
pub const LF: u8 = 10;

/// The line that a text write sends: the bytes, with a line feed appended unless
/// they already end in one.
pub open spec fn text_line(s: Seq<u8>) -> Seq<u8> {
    if s.len() > 0 && s.last() == LF {
        s
    } else {
        s.push(LF)
    }
}

/// The frames of a binary write: chunks of the largest size, the last one shorter.
pub open spec fn binary_frames(s: Seq<u8>) -> Seq<u8>
    decreases s.len(),
{
    if s.len() == 0 {
        Seq::empty()
    } else if s.len() <= MAX_DATA_LEN {
        encoded(s)
    } else {
        encoded(s.take(MAX_DATA_LEN as int)) + binary_frames(s.skip(MAX_DATA_LEN as int))
    }
}

/// What one write call adds to the request, or `None` where it is refused.
pub open spec fn write_frames(mode: WriteMode, s: Seq<u8>) -> Option<Seq<u8>> {
    match mode {
        WriteMode::Binary => Some(binary_frames(s)),
        WriteMode::OneLfTerminatedLinePerWriteCall => if text_line(s).len() <= MAX_DATA_LEN {
            Some(encoded(text_line(s)))
        } else {
            None
        },
    }
}

/// The bytes that close a request written in `mode`, or `None` where a text does
/// not fit: a text is framed as a write call of that mode frames it.
pub open spec fn closing_frame(mode: WriteMode, kind: MessageKind) -> Option<Seq<u8>> {
    match kind {
        MessageKind::Flush => Some(control_frame(0)),
        MessageKind::Delimiter => Some(control_frame(1)),
        MessageKind::ResponseEnd => Some(control_frame(2)),
        MessageKind::Text(t) => write_frames(mode, t@),
    }
}

/// Frames the bytes of a request according to its write mode.
pub struct RequestWriter {
    mode: WriteMode,
    out: Vec<u8>,
}

impl RequestWriter {
    /// The write mode.
    pub closed spec fn mode_spec(&self) -> WriteMode {
        self.mode
    }

    /// The bytes of the request so far.
    pub closed spec fn written(&self) -> Seq<u8> {
        self.out@
    }

    /// A writer with nothing written yet.
    pub fn new(mode: WriteMode) -> (r: RequestWriter)
        ensures
            r.mode_spec() == mode,
            r.written() == Seq::<u8>::empty(),
    {
        RequestWriter { mode, out: Vec::new() }
    }

    /// The write mode.
    pub fn mode(&self) -> (r: WriteMode)
        ensures
            r == self.mode_spec(),
    {
        self.mode
    }

    fn write_binary(&mut self, bytes: &[u8])
        ensures
            final(self).mode == old(self).mode,
            final(self).out@ == old(self).out@ + binary_frames(bytes@),
    {
        let ghost s = bytes@;
        let mut i: usize = 0;
        assert(s.skip(0) =~= s);
        while i < bytes.len()
            invariant
                i <= s.len(),
                s == bytes@,
                self.mode == old(self).mode,
                old(self).out@ + binary_frames(s) == self.out@ + binary_frames(s.skip(i as int)),
            decreases s.len() - i,
        {
            let end: usize = if bytes.len() - i > MAX_DATA_LEN {
                i + MAX_DATA_LEN
            } else {
                bytes.len()
            };
            let chunk = vstd::slice::slice_subrange(bytes, i, end);
            let ghost before = self.out@;
            push_encoded(&mut self.out, chunk);
            proof {
                let rest = s.skip(i as int);
                if rest.len() <= MAX_DATA_LEN {
                    assert(chunk@ =~= rest);
                    assert(s.skip(end as int) =~= Seq::<u8>::empty());
                    assert(binary_frames(rest) == encoded(rest));
                } else {
                    assert(chunk@ =~= rest.take(MAX_DATA_LEN as int));
                    assert(s.skip(end as int) =~= rest.skip(MAX_DATA_LEN as int));
                }
                assert(binary_frames(rest) == encoded(chunk@) + binary_frames(s.skip(end as int)));
                assert(before + binary_frames(rest) =~= (before + encoded(chunk@)) + binary_frames(
                    s.skip(end as int),
                ));
            }
            i = end;
        }
        assert(s.skip(i as int) =~= Seq::<u8>::empty());
        assert(self.out@ + Seq::<u8>::empty() =~= self.out@);
    }

    /// Writes `bytes` as one write call: in binary mode as frames of the largest size,
    /// in text mode as one line that ends in exactly the line feeds it had, or one.
    /// A text line too long for one frame is refused and nothing is written.
    pub fn write(&mut self, bytes: &[u8]) -> (r: Result<(), EncodeError>)
        ensures
            final(self).mode_spec() == old(self).mode_spec(),
            match write_frames(old(self).mode_spec(), bytes@) {
                Some(f) => r is Ok && final(self).written() == old(self).written() + f,
                None => r == Err::<(), EncodeError>(EncodeError::DataLengthLimitExceeded)
                    && final(self).written() == old(self).written(),
            },
    {
        match self.mode {
            WriteMode::Binary => {
                self.write_binary(bytes);
                Ok(())
            },
            WriteMode::OneLfTerminatedLinePerWriteCall => {
                let n = bytes.len();
                let has_lf = n > 0 && bytes[n - 1] == LF;
                if (has_lf && n > MAX_DATA_LEN) || (!has_lf && n >= MAX_DATA_LEN) {
                    return Err(EncodeError::DataLengthLimitExceeded);
                }
                let mut line: Vec<u8> = Vec::new();
                crate::packetline::push_all(&mut line, bytes);
                if !has_lf {
                    line.push(LF);
                }
                assert(line@ =~= text_line(bytes@));
                push_encoded(&mut self.out, line.as_slice());
                Ok(())
            },
        }
    }

    /// Writes the closing frame and ends the request: returns all of its bytes, which
    /// the transport sends before it reads the response.
    pub fn finalize(self, closing: MessageKind) -> (r: Result<Vec<u8>, EncodeError>)
        ensures
            match closing_frame(self.mode_spec(), closing) {
                Some(f) => r matches Ok(v) && v@ == self.written() + f,
                None => r == Err::<Vec<u8>, EncodeError>(EncodeError::DataLengthLimitExceeded),
            },
    {
        let mut out = self.out;
        match closing {
            MessageKind::Flush => {
                crate::packetline::push_all(&mut out, crate::packetline::encode_flush().as_slice());
            },
            MessageKind::Delimiter => {
                crate::packetline::push_all(
                    &mut out,
                    crate::packetline::encode_delimiter().as_slice(),
                );
            },
            MessageKind::ResponseEnd => {
                crate::packetline::push_all(
                    &mut out,
                    crate::packetline::encode_response_end().as_slice(),
                );
            },
            MessageKind::Text(t) => {
                let mut w = RequestWriter { mode: self.mode, out };
                w.write(t)?;
                out = w.out;
            },
        }
        Ok(out)
    }
}

/// Without a trailing line feed, or with one, a text write sends the same line, and
/// that line ends in exactly one line feed.
pub proof fn lemma_text_line_idempotent(s: Seq<u8>)
    requires
        s.len() == 0 || s.last() != LF,
    ensures
        text_line(s) == text_line(s.push(LF)),
        text_line(s) == s.push(LF),
        text_line(s).last() == LF,
        text_line(s).len() >= 2 ==> text_line(s)[text_line(s).len() - 2] != LF,
        write_frames(WriteMode::OneLfTerminatedLinePerWriteCall, s) == write_frames(
            WriteMode::OneLfTerminatedLinePerWriteCall,
            s.push(LF),
        ),
{
    let t = s.push(LF);
    assert(t.last() == LF);
    if s.len() > 0 {
        assert(t[t.len() - 2] == s.last());
    }
}

/// Reads a response frame by frame, telling data from the control frames.
pub struct ResponseReader {
    data: Vec<u8>,
    pos: usize,
}

impl ResponseReader {
    /// The reader is within its bytes.
    pub closed spec fn wf(&self) -> bool {
        self.pos <= self.data@.len()
    }

    /// The bytes not yet consumed.
    pub closed spec fn remaining(&self) -> Seq<u8> {
        self.data@.subrange(self.pos as int, self.data@.len() as int)
    }

    /// A reader over the bytes of a response.
    pub fn new(data: Vec<u8>) -> (r: ResponseReader)
        ensures
            r.wf(),
            r.remaining() == data@,
    {
        let r = ResponseReader { data, pos: 0 };
        assert(r.data@.subrange(0, r.data@.len() as int) =~= r.data@);
        r
    }

    proof fn lemma_advance(&self, n: nat)
        requires
            self.wf(),
            n <= self.remaining().len(),
        ensures
            self.data@.subrange(self.pos + n, self.data@.len() as int) == self.remaining().skip(
                n as int,
            ),
    {
        assert(self.data@.subrange(self.pos + n, self.data@.len() as int) =~= self.remaining().skip(
            n as int,
        ));
    }

    /// Consumes the next frame, whatever it is.
    pub fn next_frame(&mut self) -> (r: Result<PacketLine, Error>)
        requires
            old(self).wf(),
        ensures
            final(self).wf(),
            match spec_decode(old(self).remaining()) {
                Ok((f, n)) => r matches Ok(line) && line@ == f && final(self).remaining() == old(self).remaining().skip(n as int),
                Err(e) => r == Err::<PacketLine, Error>(Error::LineDecode { err: e }) && final(self).remaining() == old(self).remaining(),
            },
    {
        match decode_at(self.data.as_slice(), self.pos) {
            Ok((line, n)) => {
                let len = self.data.len();
                proof {
                    self.lemma_advance(n as nat);
                }
                assert(self.pos + n <= len);
                self.pos = self.pos + n;
                Ok(line)
            },
            Err(e) => Err(Error::LineDecode { err: e }),
        }
    }

    /// Consumes the next frame, which must be a data frame, and returns its payload.
    /// A control frame is left in place.
    pub fn read_line(&mut self) -> (r: Result<Vec<u8>, Error>)
        requires
            old(self).wf(),
        ensures
            final(self).wf(),
            match spec_decode(old(self).remaining()) {
                Ok((Frame::Data(p), n)) => r matches Ok(v) && v@ == p && final(self).remaining()
                    == old(self).remaining().skip(n as int),
                Ok(_) => r == Err::<Vec<u8>, Error>(Error::ExpectedDataLine) && final(self).remaining() == old(self).remaining(),
                Err(e) => r == Err::<Vec<u8>, Error>(Error::LineDecode { err: e }) && final(self).remaining() == old(self).remaining(),
            },
    {
        match decode_at(self.data.as_slice(), self.pos) {
            Ok((PacketLine::Data(p), n)) => {
                let len = self.data.len();
                proof {
                    self.lemma_advance(n as nat);
                }
                assert(self.pos + n <= len);
                self.pos = self.pos + n;
                Ok(p)
            },
            Ok(_) => Err(Error::ExpectedDataLine),
            Err(e) => Err(Error::LineDecode { err: e }),
        }
    }

    /// Consumes the next frame, which must be the data line called `name`, and returns
    /// its payload. Where a control frame comes instead, the line is missing.
    pub fn read_required_line(&mut self, name: &'static str) -> (r: Result<Vec<u8>, Error>)
        requires
            old(self).wf(),
        ensures
            final(self).wf(),
            match spec_decode(old(self).remaining()) {
                Ok((Frame::Data(p), n)) => r matches Ok(v) && v@ == p && final(self).remaining()
                    == old(self).remaining().skip(n as int),
                Ok(_) => r == Err::<Vec<u8>, Error>(Error::ExpectedLine(name)) && final(self).remaining()
                    == old(self).remaining(),
                Err(e) => r == Err::<Vec<u8>, Error>(Error::LineDecode { err: e }) && final(self).remaining()
                    == old(self).remaining(),
            },
    {
        match self.read_line() {
            Err(Error::ExpectedDataLine) => Err(Error::ExpectedLine(name)),
            other => other,
        }
    }

    /// The next frame's control marker, without consuming it: `None` where it is a
    /// data frame.
    pub fn peek_marker(&self) -> (r: Result<Option<MessageKind>, Error>)
        requires
            self.wf(),
        ensures
            match spec_decode(self.remaining()) {
                Ok((Frame::Data(_), _)) => r == Ok::<Option<MessageKind>, Error>(None),
                Ok((Frame::Flush, _)) => r == Ok::<Option<MessageKind>, Error>(
                    Some(MessageKind::Flush),
                ),
                Ok((Frame::Delimiter, _)) => r == Ok::<Option<MessageKind>, Error>(
                    Some(MessageKind::Delimiter),
                ),
                Ok((Frame::ResponseEnd, _)) => r == Ok::<Option<MessageKind>, Error>(
                    Some(MessageKind::ResponseEnd),
                ),
                Err(e) => r == Err::<Option<MessageKind>, Error>(Error::LineDecode { err: e }),
            },
    {
        match decode_at(self.data.as_slice(), self.pos) {
            Ok((PacketLine::Data(_), _)) => Ok(None),
            Ok((PacketLine::Flush, _)) => Ok(Some(MessageKind::Flush)),
            Ok((PacketLine::Delimiter, _)) => Ok(Some(MessageKind::Delimiter)),
            Ok((PacketLine::ResponseEnd, _)) => Ok(Some(MessageKind::ResponseEnd)),
            Err(e) => Err(Error::LineDecode { err: e }),
        }
    }

    /// Reads the advertisement line and parses its capabilities. A parse failure is
    /// returned wrapped, with its cause.
    pub fn read_capabilities(&mut self) -> (r: Result<Capabilities, Error>)
        requires
            old(self).wf(),
        ensures
            final(self).wf(),
            match spec_decode(old(self).remaining()) {
                Ok((Frame::Data(p), n)) => final(self).remaining() == old(self).remaining().skip(
                    n as int,
                ) && match r {
                    Ok(caps) => parse_outcome(p, Ok(caps)),
                    Err(Error::Capabilities { err }) => parse_outcome(p, Err(err)),
                    Err(_) => false,
                },
                Ok(_) => r == Err::<Capabilities, Error>(Error::ExpectedDataLine) && final(
                    self).remaining() == old(self).remaining(),
                Err(e) => r == Err::<Capabilities, Error>(Error::LineDecode { err: e }) && final(
                    self).remaining() == old(self).remaining(),
            },
    {
        let line = self.read_line()?;
        match Capabilities::from_line(line.as_slice()) {
            Ok(caps) => Ok(caps),
            Err(err) => Err(Error::Capabilities { err }),
        }
    }
}

} // verus!
