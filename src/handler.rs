//! The per-request state machine: find the `content-length:` header, read its
//! value, find the blank line that ends the header block, then stream exactly
//! that many body bytes to a sink.
//!
//! The machine performs no I/O. Each `step` returns the next action: read
//! from the transport (and hand the bytes to `supply`), append bytes to the
//! sink, respond, or fail.
use vstd::prelude::*;
use crate::search::find;
use crate::length::{length_value, parse_length};
use crate::scanner::Scanner;

verus! {

/// The status line written to the transport when a request succeeds.
pub const SUCCESS_RESPONSE: &'static str = "HTTP/1.1 204 No Content\r\n\r\n";

/// Why a request was abandoned.
#[derive(Clone, Copy, PartialEq, Eq, Structural, Debug)]
pub enum IngestError {
    /// A required marker was not found before end-of-stream.
    MarkerNotFound,
    /// The `content-length` value is not a non-negative integer that fits in `usize`.
    InvalidContentLength,
    /// End-of-stream came before the declared number of body bytes.
    TruncatedBody,
}

/// Where a request stands. The phases are passed in order, never revisited.
#[derive(Clone, Copy, PartialEq, Eq, Structural, Debug)]
pub enum Phase {
    AwaitHeaderMarker,
    ReadLengthValue,
    AwaitBodySeparator,
    StreamBody,
    Done,
    Failed(IngestError),
}

/// What the caller must do after a step.
#[derive(Debug)]
pub enum Action {
    /// Read once from the transport and hand the bytes to `supply`.
    Read,
    /// Nothing to do: step again.
    Proceed,
    /// Append these bytes to the sink, then step again.
    Write(Vec<u8>),
    /// Flush the sink and write the success status line: the request is done.
    Respond,
    /// Abandon the request.
    Fail(IngestError),
}

/// The mathematical counterpart of an `Action`.
pub enum Effect {
    Read,
    Proceed,
    Write(Seq<u8>),
    Respond,
    Fail(IngestError),
}

impl View for Action {
    type V = Effect;

    open spec fn view(&self) -> Effect {
        match self {
            Action::Read => Effect::Read,
            Action::Proceed => Effect::Proceed,
            Action::Write(b) => Effect::Write(b@),
            Action::Respond => Effect::Respond,
            Action::Fail(e) => Effect::Fail(*e),
        }
    }
}

/// The state of a request: its phase, the scanner's window, the declared
/// body length and the number of body bytes not yet handed to the sink.
pub struct Model {
    pub phase: Phase,
    pub window: Seq<u8>,
    pub content_length: nat,
    pub remaining: nat,
}

/// `content-length:`
pub open spec fn header_marker() -> Seq<u8> {
    seq![99u8, 111, 110, 116, 101, 110, 116, 45, 108, 101, 110, 103, 116, 104, 58]
}

/// `\r\n`
pub open spec fn line_separator() -> Seq<u8> {
    seq![13u8, 10]
}

/// `\r\n\r\n`
pub open spec fn body_separator() -> Seq<u8> {
    seq![13u8, 10, 13, 10]
}

/// The state of a request before anything was read.
pub open spec fn initial_model() -> Model {
    Model { phase: Phase::AwaitHeaderMarker, window: Seq::empty(), content_length: 0, remaining: 0 }
}

/// The phase that end-of-stream leads to.
pub open spec fn eof_phase(p: Phase) -> Phase {
    match p {
        Phase::StreamBody => Phase::Failed(IngestError::TruncatedBody),
        Phase::Done => Phase::Done,
        Phase::Failed(e) => Phase::Failed(e),
        _ => Phase::Failed(IngestError::MarkerNotFound),
    }
}

/// The state after one transport read yielded `chunk`; an empty chunk is
/// end-of-stream.
pub open spec fn supply_model(m: Model, chunk: Seq<u8>) -> Model {
    if chunk.len() == 0 {
        Model { phase: eof_phase(m.phase), ..m }
    } else {
        Model { window: chunk, ..m }
    }
}

/// Looking for `marker` in the window: on success the window resumes after
/// it and the phase becomes `next`; otherwise the window is discarded.
pub open spec fn seek_model(m: Model, marker: Seq<u8>, next: Phase) -> (Model, Effect) {
    if m.window.len() == 0 {
        (m, Effect::Read)
    } else {
        match find(m.window, marker) {
            Some(i) => (
                Model {
                    phase: next,
                    window: m.window.subrange(i + marker.len(), m.window.len() as int),
                    ..m
                },
                Effect::Proceed,
            ),
            None => (Model { window: Seq::empty(), ..m }, Effect::Proceed),
        }
    }
}

/// One step of the machine: the next state and what the caller must do.
pub open spec fn step_model(m: Model) -> (Model, Effect) {
    let w = m.window;
    match m.phase {
        Phase::AwaitHeaderMarker => seek_model(m, header_marker(), Phase::ReadLengthValue),
        Phase::ReadLengthValue => {
            if w.len() == 0 {
                (m, Effect::Read)
            } else {
                match find(w, line_separator()) {
                    Some(i) => {
                        let rest = w.subrange(i, w.len() as int);
                        match length_value(w.subrange(0, i)) {
                            Some(n) => (
                                Model {
                                    phase: Phase::AwaitBodySeparator,
                                    window: rest,
                                    content_length: n,
                                    remaining: n,
                                },
                                Effect::Proceed,
                            ),
                            None => (
                                Model {
                                    phase: Phase::Failed(IngestError::InvalidContentLength),
                                    window: rest,
                                    ..m
                                },
                                Effect::Fail(IngestError::InvalidContentLength),
                            ),
                        }
                    },
                    None => (Model { window: Seq::empty(), ..m }, Effect::Proceed),
                }
            }
        },
        Phase::AwaitBodySeparator => seek_model(m, body_separator(), Phase::StreamBody),
        Phase::StreamBody => {
            if m.remaining == 0 {
                (Model { phase: Phase::Done, ..m }, Effect::Respond)
            } else if w.len() == 0 {
                (m, Effect::Read)
            } else {
                let k: nat = if m.remaining < w.len() {
                    m.remaining
                } else {
                    w.len()
                };
                (
                    Model { window: w.subrange(k as int, w.len() as int), remaining: (m.remaining - k) as nat, ..m },
                    Effect::Write(w.subrange(0, k as int)),
                )
            }
        },
        Phase::Done => (m, Effect::Respond),
        Phase::Failed(e) => (m, Effect::Fail(e)),
    }
}

/// How far a phase is from the end of a request.
pub open spec fn rank(p: Phase) -> nat {
    match p {
        Phase::AwaitHeaderMarker => 4,
        Phase::ReadLengthValue => 3,
        Phase::AwaitBodySeparator => 2,
        Phase::StreamBody => 1,
        _ => 0,
    }
}

/// The outcome of driving the machine from `m` while the transport's reads
/// yield `reads` in turn and then end-of-stream: the bytes handed to the sink
/// where the request succeeds, or the error where it fails.
pub open spec fn run(m: Model, reads: Seq<Seq<u8>>) -> Result<Seq<u8>, IngestError>
    decreases reads.len(), rank(m.phase), m.window.len(),
{
    let (next, effect) = step_model(m);
    match effect {
        Effect::Read => {
            if reads.len() == 0 {
                run(supply_model(m, Seq::empty()), reads)
            } else {
                run(supply_model(m, reads[0]), reads.drop_first())
            }
        },
        Effect::Proceed => run(next, reads),
        Effect::Write(b) => match run(next, reads) {
            Ok(rest) => Ok(b + rest),
            Err(e) => Err(e),
        },
        Effect::Respond => Ok(Seq::empty()),
        Effect::Fail(e) => Err(e),
    }
}

/// One request in progress: the scanner over its connection, the phase, the
/// declared body length and the body bytes still owed to the sink.
pub struct Ingest {
    scanner: Scanner,
    phase: Phase,
    content_length: usize,
    remaining: usize,
    header: Vec<u8>,
    line: Vec<u8>,
    separator: Vec<u8>,
}

impl View for Ingest {
    type V = Model;

    closed spec fn view(&self) -> Model {
        Model {
            phase: self.phase,
            window: self.scanner.window(),
            content_length: self.content_length as nat,
            remaining: self.remaining as nat,
        }
    }
}

impl Ingest {
    /// The most bytes that one transport read may hand to `supply`.
    pub closed spec fn capacity(&self) -> nat {
        self.scanner.capacity()
    }

    /// The scanner is well formed and the markers hold their bytes.
    pub closed spec fn wf(&self) -> bool {
        &&& self.scanner.wf()
        &&& self.header@ == header_marker()
        &&& self.line@ == line_separator()
        &&& self.separator@ == body_separator()
    }

    /// A request about to be read through a window of `capacity` bytes.
    pub fn new(capacity: usize) -> (r: Ingest)
        ensures
            r.wf(),
            r@ == initial_model(),
            r.capacity() == capacity,
    {
        let header: Vec<u8> = vec![99u8, 111, 110, 116, 101, 110, 116, 45, 108, 101, 110, 103, 116, 104, 58];
        let line: Vec<u8> = vec![13u8, 10];
        let separator: Vec<u8> = vec![13u8, 10, 13, 10];
        assert(header@ =~= header_marker());
        assert(line@ =~= line_separator());
        assert(separator@ =~= body_separator());
        Ingest {
            scanner: Scanner::new(capacity),
            phase: Phase::AwaitHeaderMarker,
            content_length: 0,
            remaining: 0,
            header,
            line,
            separator,
        }
    }

    /// The current phase.
    pub fn phase(&self) -> (p: Phase)
        ensures
            p == self@.phase,
    {
        self.phase
    }

    /// The declared body length, once read.
    pub fn content_length(&self) -> (n: usize)
        ensures
            n == self@.content_length,
    {
        self.content_length
    }

    /// The body bytes not yet handed to the sink.
    pub fn remaining(&self) -> (n: usize)
        ensures
            n == self@.remaining,
    {
        self.remaining
    }

    /// Hands over the bytes of one transport read, asked for by `Action::Read`;
    /// no bytes at all means end-of-stream.
    pub fn supply(&mut self, chunk: &[u8])
        requires
            old(self).wf(),
            old(self)@.window.len() == 0,
            chunk@.len() <= old(self).capacity(),
        ensures
            final(self).wf(),
            final(self).capacity() == old(self).capacity(),
            final(self)@ == supply_model(old(self)@, chunk@),
    {
        let eof = self.scanner.fill_and_check_eof(chunk);
        if eof {
            assert(self@.window =~= old(self)@.window);
            self.phase = match self.phase {
                Phase::StreamBody => Phase::Failed(IngestError::TruncatedBody),
                Phase::Done => Phase::Done,
                Phase::Failed(e) => Phase::Failed(e),
                _ => Phase::Failed(IngestError::MarkerNotFound),
            };
        }
    }

    /// Takes one step and says what the caller must do next.
    pub fn step(&mut self) -> (a: Action)
        requires
            old(self).wf(),
        ensures
            final(self).wf(),
            final(self).capacity() == old(self).capacity(),
            (final(self)@, a@) == step_model(old(self)@),
    {
        match self.phase {
            Phase::AwaitHeaderMarker => {
                if self.scanner.available() == 0 {
                    return Action::Read;
                }
                if self.scanner.consume_until(self.header.as_slice()) {
                    self.phase = Phase::ReadLengthValue;
                }
                Action::Proceed
            },
            Phase::ReadLengthValue => {
                if self.scanner.available() == 0 {
                    return Action::Read;
                }
                match self.scanner.read_until(self.line.as_slice()) {
                    Some(value) => match parse_length(value.as_slice()) {
                        Some(n) => {
                            self.content_length = n;
                            self.remaining = n;
                            self.phase = Phase::AwaitBodySeparator;
                            Action::Proceed
                        },
                        None => {
                            self.phase = Phase::Failed(IngestError::InvalidContentLength);
                            Action::Fail(IngestError::InvalidContentLength)
                        },
                    },
                    None => Action::Proceed,
                }
            },
            Phase::AwaitBodySeparator => {
                if self.scanner.available() == 0 {
                    return Action::Read;
                }
                if self.scanner.consume_until(self.separator.as_slice()) {
                    self.phase = Phase::StreamBody;
                }
                Action::Proceed
            },
            Phase::StreamBody => {
                if self.remaining == 0 {
                    self.phase = Phase::Done;
                    return Action::Respond;
                }
                if self.scanner.available() == 0 {
                    return Action::Read;
                }
                let mut out: Vec<u8> = Vec::new();
                let moved = self.scanner.read_n_bytes_into(self.remaining, &mut out);
                self.remaining = self.remaining - moved;
                assert(out@ =~= old(self)@.window.subrange(0, moved as int));
                Action::Write(out)
            },
            Phase::Done => Action::Respond,
            Phase::Failed(e) => Action::Fail(e),
        }
    }
}

} // verus!
