//! Incremental reading of an HTTP/1.x request head from a stream that delivers
//! its bytes in fragments.
//!
//! A `ReadRequest` owns the buffer in which the bytes gather and the offset
//! index of what the parser has matched so far. It does not read: whoever
//! drives it reads up to `BUFFER_SIZE` bytes from the stream and hands over
//! what the read reported, as a `ReadEvent`. Each such step either asks for
//! more or ends the reading, with the typed request and the bytes that follow
//! its head, or with an error. After that the `ReadRequest` is spent.

pub mod buffer;
pub mod error;
pub mod growable;
pub mod parser;
pub mod parts;
pub mod raw;

use vstd::prelude::*;
use bytes::BytesMut;
use crate::buffer::{capture, lemma_fits_longer, reconstruct, Request, RequestView};
use crate::error::{ErrorKind, LogicError, ParseError, ReadError};
use crate::growable::{buffer_bytes, buffer_extend, buffer_split_to, held};
use crate::parser::{parse_head, parse_outcome, ParseOutcome, RawParse};
use crate::parts::{typed, Parts, PartsView};
use crate::raw::RawRequest;

verus! {

/// The number of bytes to ask of the reader at each step.
pub const BUFFER_SIZE: usize = 1024;

/// What one read from the stream reported.
#[derive(Debug)]
pub enum ReadEvent {
    /// Nothing is there to be read yet.
    Pending,
    /// The reader failed.
    Failed(std::io::Error),
    /// The reader delivered these bytes; none where the stream has ended.
    Bytes(Vec<u8>),
}

/// Where a step leaves the reading.
#[derive(Debug)]
pub enum Poll<T> {
    /// The reading has ended, with this.
    Ready(T),
    /// More bytes are needed.
    Pending,
}

/// A request head that the buffer holds in full.
#[derive(Debug)]
pub struct Head {
    /// The bytes of the head.
    pub block: BytesMut,
    /// What the buffer held behind the head.
    pub rest: BytesMut,
    /// The head's fields, as offsets into `block`.
    pub index: Request,
}

#[derive(Debug)]
struct Active {
    buffer: BytesMut,
    request: Request,
}

/// The reading of one request head.
#[derive(Debug)]
pub struct ReadRequest {
    state: Option<Active>,
}

/// What a `ReadRequest` holds while it is active.
pub struct ActiveView {
    /// The bytes read so far.
    pub buffer: Seq<u8>,
    /// What the last parse attempt matched in them.
    pub index: RequestView,
}

impl View for ReadRequest {
    type V = Option<ActiveView>;

    /// What the reading holds, or nothing once it is spent.
    closed spec fn view(&self) -> Option<ActiveView> {
        match self.state {
            Some(active) => Some(
                ActiveView { buffer: held(active.buffer), index: active.request@ },
            ),
            None => None,
        }
    }
}

/// What a parse attempt leads to.
pub enum Settled {
    /// More bytes are needed; `index` is kept meanwhile.
    Pending { index: RequestView },
    /// The first `len` bytes are the head, and `index` describes it.
    Head { len: usize, index: RequestView },
    /// The reading has failed.
    Failed(ErrorKind),
}

/// What the parser's outcome on the `buffered` bytes leads to; `ended` says
/// that the stream had no more bytes to give.
pub open spec fn settled(outcome: ParseOutcome, buffered: Seq<u8>, ended: bool) -> Settled {
    match outcome {
        ParseOutcome::Rejected => Settled::Failed(ErrorKind::Syntax),
        ParseOutcome::Matched { complete: None, index } => if ended {
            Settled::Failed(ErrorKind::UnexpectedEnd)
        } else {
            Settled::Pending { index }
        },
        ParseOutcome::Matched { complete: Some(len), index } => if len <= buffered.len() {
            Settled::Head { len, index }
        } else {
            Settled::Failed(ErrorKind::Logic(LogicError::OutOfBounds))
        },
    }
}

/// What a parse attempt leads to, by what the parser handed back.
pub open spec fn settled_report(
    parsed: Result<RawParse, httparse::Error>,
    buffered: Seq<u8>,
    ended: bool,
) -> Settled {
    match parsed {
        Err(_) => Settled::Failed(ErrorKind::Syntax),
        Ok(report) => match capture(report.buffer.start, report.request@) {
            None => Settled::Failed(ErrorKind::Logic(LogicError::Capture)),
            Some(index) => settled(
                ParseOutcome::Matched { complete: report.complete, index },
                buffered,
                ended,
            ),
        },
    }
}

/// The typed request of a head: its index is rebuilt against the head's
/// bytes alone, counted from their start, and what is rebuilt is typed.
pub open spec fn finished(index: RequestView, block: Seq<u8>) -> Result<PartsView, LogicError> {
    match reconstruct(index, 0, block.len() as usize) {
        None => Err(LogicError::OutOfBounds),
        Some(raw) => typed(raw, 0, block),
    }
}

/// Where one step with bytes leaves the reading.
pub enum Step {
    /// More bytes are needed; the reading now holds this.
    Pending(ActiveView),
    /// The reading has ended: with the typed request and the bytes behind its
    /// head, or with an error of this kind.
    Done(Result<(PartsView, Seq<u8>), ErrorKind>),
}

/// What the parse attempt of a step leads to. The reading holds `state` and is
/// handed `data`. The index that it has kept must still lie inside the buffer
/// once the bytes are appended; then the parser decides.
pub open spec fn attempted(state: ActiveView, data: Seq<u8>) -> Settled {
    let bytes = state.buffer + data;
    if state.index.fits(bytes.len() as usize) {
        settled(parse_outcome(bytes), bytes, data.len() == 0)
    } else {
        Settled::Failed(ErrorKind::Logic(LogicError::OutOfBounds))
    }
}

/// One step of a reading that holds `state` and is handed `data`.
pub open spec fn step(state: ActiveView, data: Seq<u8>) -> Step {
    let bytes = state.buffer + data;
    match attempted(state, data) {
        Settled::Pending { index } => Step::Pending(ActiveView { buffer: bytes, index }),
        Settled::Failed(kind) => Step::Done(Err(kind)),
        Settled::Head { len, index } => match finished(index, bytes.take(len as int)) {
            Ok(parts) => Step::Done(Ok((parts, bytes.skip(len as int)))),
            Err(fault) => Step::Done(Err(ErrorKind::Logic(fault))),
        },
    }
}

impl ReadRequest {
    /// Starts the reading of a request head. `buffer` holds what was read
    /// ahead of it, if anything.
    pub fn new(buffer: BytesMut) -> (r: ReadRequest)
        ensures
            r@ == Some(ActiveView { buffer: held(buffer), index: RequestView::empty() }),
    {
        ReadRequest { state: Some(Active { buffer, request: Request::new() }) }
    }

    /// Whether the reading may still be driven: true until a step has ended
    /// it.
    pub fn is_active(&self) -> (r: bool)
        ensures
            r == (self@ is Some),
    {
        self.state.is_some()
    }

    /// The number of bytes read so far, and zero once the reading is spent.
    pub fn buffered(&self) -> (r: usize)
        ensures
            r == match self@ {
                Some(active) => active.buffer.len(),
                None => 0,
            },
    {
        match &self.state {
            Some(active) => buffer_bytes(&active.buffer).len(),
            None => 0,
        }
    }

    /// What the last parse attempt matched, as offsets into the bytes read so
    /// far; nothing once the reading is spent.
    pub fn index(&self) -> (r: Option<&Request>)
        ensures
            match self@ {
                Some(active) => r matches Some(index) && index@ == active.index,
                None => r is None,
            },
    {
        match &self.state {
            Some(active) => Some(&active.request),
            None => None,
        }
    }

    /// Takes in what a parse attempt on the buffer handed back; `ended` says
    /// that the read before it delivered no bytes.
    ///
    /// A parser's error ends the reading with that error. What the parser has
    /// matched is captured as an offset index. Where the head is not complete
    /// the index is kept and more bytes are asked for, unless the stream has
    /// ended. Where the head is complete the buffer is split behind it and the
    /// reading ends, with the head, the rest and the index.
    pub fn settle(&mut self, parsed: Result<RawParse, httparse::Error>, ended: bool) -> (r: Poll<
        Result<Head, ReadError>,
    >)
        requires
            old(self)@ is Some,
        ensures
            match settled_report(parsed, old(self)@.unwrap().buffer, ended) {
                Settled::Pending { index } => r is Pending && final(self)@ == Some(
                    ActiveView { buffer: old(self)@.unwrap().buffer, index },
                ),
                Settled::Head { len, index } => r matches Poll::Ready(Ok(head)) && held(head.block)
                    == old(self)@.unwrap().buffer.take(len as int) && held(head.rest) == old(
                    self,
                )@.unwrap().buffer.skip(len as int) && head.index@ == index,
                Settled::Failed(kind) => r matches Poll::Ready(Err(e)) && e.kind() == kind,
            },
            parsed matches Err(e) ==> r == Poll::Ready(
                Err::<Head, ReadError>(ReadError::Parse(ParseError::Syntax(e))),
            ),
            r is Ready <==> final(self)@ is None,
    {
        let mut active = self.state.take().unwrap();
        let report = match parsed {
            Err(e) => {
                return Poll::Ready(Err(ReadError::Parse(ParseError::Syntax(e))));
            },
            Ok(report) => report,
        };
        let index = match Request::from_ref(report.buffer.start, &report.request) {
            None => {
                return Poll::Ready(Err(ReadError::Logic(LogicError::Capture)));
            },
            Some(index) => index,
        };
        match report.complete {
            None => {
                if ended {
                    Poll::Ready(Err(ReadError::Parse(ParseError::UnexpectedEnd)))
                } else {
                    active.request = index;
                    self.state = Some(active);
                    Poll::Pending
                }
            },
            Some(len) => {
                if len > buffer_bytes(&active.buffer).len() {
                    return Poll::Ready(Err(ReadError::Logic(LogicError::OutOfBounds)));
                }
                let block = buffer_split_to(&mut active.buffer, len);
                Poll::Ready(Ok(Head { block, rest: active.buffer, index }))
            },
        }
    }

    /// Takes in what a read reported, and where it delivered bytes, appends
    /// them to the buffer and parses the buffer anew from its start.
    ///
    /// Nothing to read yet leaves the reading as it is. A failed read ends it
    /// with that error. Bytes, or the end of the stream, are followed by a
    /// parse attempt. Before it the index kept so far is rebuilt against the
    /// buffer as it now is, and the reading ends where a field no longer lies
    /// inside. After it `settle` says where the reading stands.
    ///
    /// The reading must be active, and the bytes must leave the buffer no
    /// longer than an allocation can be.
    pub fn attempt_parse(&mut self, read: ReadEvent) -> (r: Poll<Result<Head, ReadError>>)
        requires
            old(self)@ is Some,
            read matches ReadEvent::Bytes(data) ==> old(self)@.unwrap().buffer.len() + data@.len()
                <= isize::MAX,
        ensures
            match read {
                ReadEvent::Pending => r is Pending && final(self)@ == old(self)@,
                ReadEvent::Failed(e) => r == Poll::Ready(Err::<Head, ReadError>(ReadError::Io(e))),
                ReadEvent::Bytes(data) => {
                    let bytes = old(self)@.unwrap().buffer + data@;
                    match attempted(old(self)@.unwrap(), data@) {
                        Settled::Pending { index } => r is Pending && final(self)@ == Some(
                            ActiveView { buffer: bytes, index },
                        ),
                        Settled::Head { len, index } => r matches Poll::Ready(Ok(head)) && held(
                            head.block,
                        ) == bytes.take(len as int) && held(head.rest) == bytes.skip(len as int)
                            && head.index@ == index,
                        Settled::Failed(kind) => r matches Poll::Ready(Err(e)) && e.kind() == kind,
                    }
                },
            },
            r is Ready <==> final(self)@ is None,
            r is Pending ==> old(self)@.unwrap().buffer.is_prefix_of(final(self)@.unwrap().buffer),
    {
        match read {
            ReadEvent::Pending => Poll::Pending,
            ReadEvent::Failed(e) => {
                self.state = None;
                Poll::Ready(Err(ReadError::Io(e)))
            },
            ReadEvent::Bytes(data) => {
                let mut active = self.state.take().unwrap();
                buffer_extend(&mut active.buffer, data.as_slice());
                let bytes = buffer_bytes(&active.buffer);
                if active.request.as_ref(0, bytes.len()).is_none() {
                    return Poll::Ready(Err(ReadError::Logic(LogicError::OutOfBounds)));
                }
                let parsed = parse_head(bytes);
                self.state = Some(active);
                self.settle(parsed, data.len() == 0)
            },
        }
    }

    /// Turns a raw request into the typed one. The raw request points into
    /// `bytes`, which start at the address `buffer`; its fields are read from
    /// there and put to the `http` crate.
    pub fn attempt_type(request: &RawRequest, buffer: usize, bytes: &[u8]) -> (r: Result<
        Parts,
        ReadError,
    >)
        ensures
            match typed(request@, buffer, bytes@) {
                Ok(parts) => r matches Ok(found) && found@ == parts,
                Err(fault) => r matches Err(e) && e == ReadError::Logic(fault),
            },
    {
        let parts = match Parts::read(request, buffer, bytes) {
            Ok(parts) => parts,
            Err(fault) => {
                return Err(ReadError::Logic(fault));
            },
        };
        match parts.check() {
            Ok(_) => Ok(parts),
            Err(fault) => Err(ReadError::Logic(fault)),
        }
    }

    /// Types a complete head. The index is rebuilt against the bytes of the
    /// head alone, counted from their start, and what is rebuilt is typed. The
    /// rest of the buffer is handed on untouched.
    pub fn finish(head: Head) -> (r: Result<(Parts, BytesMut), ReadError>)
        ensures
            match finished(head.index@, held(head.block)) {
                Ok(parts) => r matches Ok(out) && out.0@ == parts && held(out.1) == held(
                    head.rest,
                ),
                Err(fault) => r matches Err(e) && e == ReadError::Logic(fault),
            },
    {
        let Head { block, rest, index } = head;
        let bytes = buffer_bytes(&block);
        let raw = match index.as_ref(0, bytes.len()) {
            Some(raw) => raw,
            None => {
                return Err(ReadError::Logic(LogicError::OutOfBounds));
            },
        };
        match Self::attempt_type(&raw, 0, bytes) {
            Ok(parts) => Ok((parts, rest)),
            Err(e) => Err(e),
        }
    }

    /// Drives the reading by one step, with what a read of up to
    /// `BUFFER_SIZE` bytes reported.
    ///
    /// The reading must be active: a reading that has ended, with a request
    /// or with an error, is spent, and to drive it again is a fault of the
    /// caller. The step ends the reading exactly where it returns `Ready`.
    /// The bytes must leave the buffer no longer than an allocation can be.
    pub fn poll(&mut self, read: ReadEvent) -> (r: Poll<Result<(Parts, BytesMut), ReadError>>)
        requires
            old(self)@ is Some,
            read matches ReadEvent::Bytes(data) ==> old(self)@.unwrap().buffer.len() + data@.len()
                <= isize::MAX,
        ensures
            match read {
                ReadEvent::Pending => r is Pending && final(self)@ == old(self)@,
                ReadEvent::Failed(e) => r == Poll::Ready(
                    Err::<(Parts, BytesMut), ReadError>(ReadError::Io(e)),
                ),
                ReadEvent::Bytes(data) => match step(old(self)@.unwrap(), data@) {
                    Step::Pending(active) => r is Pending && final(self)@ == Some(active),
                    Step::Done(Ok((parts, rest))) => r matches Poll::Ready(Ok(out)) && out.0@
                        == parts && held(out.1) == rest,
                    Step::Done(Err(kind)) => r matches Poll::Ready(Err(e)) && e.kind() == kind,
                },
            },
            r is Ready <==> final(self)@ is None,
            r is Pending ==> old(self)@.unwrap().buffer.is_prefix_of(final(self)@.unwrap().buffer),
    {
        match self.attempt_parse(read) {
            Poll::Pending => Poll::Pending,
            Poll::Ready(Err(e)) => Poll::Ready(Err(e)),
            Poll::Ready(Ok(head)) => Poll::Ready(Self::finish(head)),
        }
    }
}

/// The fragments of a stream, put end to end.
pub open spec fn joined(chunks: Seq<Seq<u8>>) -> Seq<u8>
    decreases chunks.len(),
{
    if chunks.len() == 0 {
        Seq::empty()
    } else {
        chunks[0] + joined(chunks.drop_first())
    }
}

/// Where a reading stands after it was driven with each of `chunks` in turn,
/// for as long as it asked for more.
pub open spec fn feed(state: ActiveView, chunks: Seq<Seq<u8>>) -> Step
    decreases chunks.len(),
{
    if chunks.len() == 0 {
        Step::Pending(state)
    } else {
        match step(state, chunks[0]) {
            Step::Pending(next) => feed(next, chunks.drop_first()),
            done => done,
        }
    }
}

/// `bytes` are a request head and no more: the parser finds the head complete
/// at their end and not before, and what it matches in a shorter beginning
/// lies inside that beginning.
pub open spec fn is_head(bytes: Seq<u8>) -> bool {
    &&& bytes.len() <= usize::MAX
    &&& parse_outcome(bytes) matches ParseOutcome::Matched { complete: Some(len), .. } && len
        == bytes.len()
    &&& forall|k: int|
        0 <= k < bytes.len() ==> ((#[trigger] parse_outcome(bytes.take(k))) matches ParseOutcome::Matched {
            complete: None,
            index,
        } && index.fits(k as usize))
}

/// With fragments still to come that complete a head, driving a reading
/// with each of them in turn ends as one step with all of them does.
proof fn lemma_feed(state: ActiveView, chunks: Seq<Seq<u8>>)
    requires
        chunks.len() > 0,
        forall|i: int| 0 <= i < chunks.len() ==> (#[trigger] chunks[i]).len() > 0,
        is_head(state.buffer + joined(chunks)),
        state.index.fits(state.buffer.len() as usize),
    ensures
        joined(chunks).len() > 0,
        feed(state, chunks) == step(state, joined(chunks)),
    decreases chunks.len(),
{
    let rest = chunks.drop_first();
    if rest.len() == 0 {
        assert(joined(chunks) =~= chunks[0]);
    } else {
        // Behind the first fragment the reading holds a beginning of the
        // head that is shorter than the head, so it asks for more and keeps
        // an index that fits what it holds.
        let all = state.buffer + joined(chunks);
        let gathered = state.buffer + chunks[0];
        assert(gathered + joined(rest) =~= all);
        assert(all.take(gathered.len() as int) =~= gathered);
        assert(parse_outcome(all.take(gathered.len() as int)) is Matched);
        lemma_fits_longer(state.index, state.buffer.len() as usize, gathered.len() as usize);
        let next = step(state, chunks[0])->Pending_0;
        lemma_feed(next, rest);
        // Both indexes fit the whole head, and then the last step goes by
        // the bytes alone.
        lemma_fits_longer(state.index, state.buffer.len() as usize, all.len() as usize);
        lemma_fits_longer(next.index, gathered.len() as usize, all.len() as usize);
    }
}

/// The fragments in which a request head arrives make no difference. Where
/// the bytes that a reading holds, together with fragments that are still to
/// come, are a request head and no more, driving the reading with each
/// fragment in turn ends as driving it once with all of them in one piece:
/// with the same typed request, or the same kind of error. No fragment is
/// empty: a read that delivers nothing says that the stream has ended.
pub proof fn lemma_fragments_make_no_difference(state: ActiveView, chunks: Seq<Seq<u8>>)
    requires
        chunks.len() > 0,
        forall|i: int| 0 <= i < chunks.len() ==> (#[trigger] chunks[i]).len() > 0,
        is_head(state.buffer + joined(chunks)),
        state.index.fits(state.buffer.len() as usize),
    ensures
        feed(state, chunks) == feed(state, seq![joined(chunks)]),
        feed(state, chunks) is Done,
{
    lemma_feed(state, chunks);
    let whole = seq![joined(chunks)];
    assert(joined(whole) =~= joined(chunks)) by {
        assert(joined(whole.drop_first()) =~= Seq::<u8>::empty());
    }
    lemma_feed(state, whole);
}

} // verus!
