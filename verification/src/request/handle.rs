//! The decisions of the read loop of a connection.
//!
//! The loop itself waits for the stream and is not written here: it reads
//! into the buffer against a timeout, reports what happened as a
//! `ReadEvent`, and does what the `ReadOutcome` says.

use crate::request::parser::model::spec_parse_request;
use crate::request::parser::laws::spec_is_prefix;
use crate::request::parser::resume::{
    lemma_concat_push, lemma_feed_step, lemma_refusal_is_final, lemma_returns,
    lemma_success_is_final, spec_concat, spec_consistent, spec_start,
};
use crate::request::parser::{
    ParserResult, ParserResultView, ParserState, ParserStateView, ParserStatus, ParserStatusView,
    RequestParser,
};
use crate::request::request::Request;
use vstd::prelude::*;

verus! {

/// Why no request came out of a connection.
#[derive(Debug)]
pub enum HandleRequestError {
    /// No bytes came in time.
    Timeout,
    /// The stream ended.
    EOF,
    /// The bytes are no request; the text says why.
    Invalid(String),
    /// The stream failed; the text says how.
    IOError(String),
}

/// A `HandleRequestError` as a mathematical value.
pub enum HandleRequestErrorView {
    Timeout,
    EOF,
    Invalid(Seq<char>),
    IOError(Seq<char>),
}

impl View for HandleRequestError {
    type V = HandleRequestErrorView;

    open spec fn view(&self) -> HandleRequestErrorView {
        match self {
            HandleRequestError::Timeout => HandleRequestErrorView::Timeout,
            HandleRequestError::EOF => HandleRequestErrorView::EOF,
            HandleRequestError::Invalid(reason) => HandleRequestErrorView::Invalid(reason@),
            HandleRequestError::IOError(reason) => HandleRequestErrorView::IOError(reason@),
        }
    }
}

impl HandleRequestError {
    /// The error in words: a fixed text for a timeout and for the end of
    /// the stream, and the reason itself for the two others.
    pub fn message(&self) -> (r: String)
        ensures
            r@ == match self@ {
                HandleRequestErrorView::Timeout => "Connection Timeout"@,
                HandleRequestErrorView::EOF => "End of File"@,
                HandleRequestErrorView::Invalid(reason) => reason,
                HandleRequestErrorView::IOError(reason) => reason,
            },
    {
        match self {
            HandleRequestError::Timeout => "Connection Timeout".to_owned(),
            HandleRequestError::EOF => "End of File".to_owned(),
            HandleRequestError::Invalid(reason) => reason.clone(),
            HandleRequestError::IOError(reason) => reason.clone(),
        }
    }
}

/// How a read against the timeout ended.
#[derive(Debug)]
pub enum ReadEvent {
    /// The timeout came first.
    Timeout,
    /// The read returned, and says it appended this many bytes to the
    /// buffer; zero means the stream has ended.
    Read(usize),
    /// The read failed.
    Failed(String),
}

/// A `ReadEvent` as a mathematical value.
pub enum ReadEventView {
    Timeout,
    Read(usize),
    Failed(Seq<char>),
}

impl View for ReadEvent {
    type V = ReadEventView;

    open spec fn view(&self) -> ReadEventView {
        match self {
            ReadEvent::Timeout => ReadEventView::Timeout,
            ReadEvent::Read(n) => ReadEventView::Read(*n),
            ReadEvent::Failed(reason) => ReadEventView::Failed(reason@),
        }
    }
}

/// What the loop does next.
#[derive(Debug)]
pub enum ReadOutcome {
    /// Read again into this buffer, and report with this state.
    Continue((Vec<u8>, ParserState)),
    /// The request is complete.
    Complete(ParserResult),
    /// Give up.
    Failed(HandleRequestError),
}

/// A `ReadOutcome` as a mathematical value.
pub enum ReadOutcomeView {
    Continue(Seq<u8>, ParserStateView),
    Complete(ParserResultView),
    Failed(HandleRequestErrorView),
}

impl View for ReadOutcome {
    type V = ReadOutcomeView;

    open spec fn view(&self) -> ReadOutcomeView {
        match self {
            ReadOutcome::Continue(pair) => ReadOutcomeView::Continue(pair.0@, pair.1@),
            ReadOutcome::Complete(result) => ReadOutcomeView::Complete(result@),
            ReadOutcome::Failed(e) => ReadOutcomeView::Failed(e@),
        }
    }
}

/// The two timeouts of a connection, in milliseconds.
#[derive(Debug, Clone, Copy, PartialEq, Eq)]
pub struct Timeouts {
    /// How long the first read of a request may take.
    pub read_timeout_ms: u64,
    /// How long every later read of the request may take.
    pub keep_alive_timeout_ms: u64,
}

impl Default for Timeouts {
    fn default() -> (r: Self)
        ensures
            r.read_timeout_ms == 5,
            r.keep_alive_timeout_ms == 200,
    {
        Timeouts { read_timeout_ms: 5, keep_alive_timeout_ms: 200 }
    }
}

/// Where the read loop stands before a read: the buffer to read into,
/// the state to report with, and the read that comes next with the
/// timeout that it is raced against.
#[derive(Debug)]
pub struct ReadTurn {
    pub buf: Vec<u8>,
    pub state: ParserState,
    /// Number of the read that comes next, counted from one.
    pub read: usize,
    /// The timeout of that read, in milliseconds.
    pub timeout_ms: u64,
}

/// A `ReadTurn` as a mathematical value.
pub struct ReadTurnView {
    pub buf: Seq<u8>,
    pub state: ParserStateView,
    pub read: usize,
    pub timeout_ms: u64,
}

impl View for ReadTurn {
    type V = ReadTurnView;

    open spec fn view(&self) -> ReadTurnView {
        ReadTurnView {
            buf: self.buf@,
            state: self.state@,
            read: self.read,
            timeout_ms: self.timeout_ms,
        }
    }
}

/// What the loop does after a read.
#[derive(Debug)]
pub enum ReadStep {
    /// Read again, as the turn says.
    Read(ReadTurn),
    /// The request is complete.
    Complete(ParserResult),
    /// Give up.
    Failed(HandleRequestError),
}

/// A `ReadStep` as a mathematical value.
pub enum ReadStepView {
    Read(ReadTurnView),
    Complete(ParserResultView),
    Failed(HandleRequestErrorView),
}

impl View for ReadStep {
    type V = ReadStepView;

    open spec fn view(&self) -> ReadStepView {
        match self {
            ReadStep::Read(turn) => ReadStepView::Read(turn@),
            ReadStep::Complete(result) => ReadStepView::Complete(result@),
            ReadStep::Failed(e) => ReadStepView::Failed(e@),
        }
    }
}

impl ReadStepView {
    /// Every range that the step holds lies inside the buffer that it
    /// holds.
    pub open spec fn spec_within(self) -> bool {
        match self {
            ReadStepView::Read(turn) => turn.state.spec_within(turn.buf.len()),
            ReadStepView::Complete(result) => result.spec_within(),
            ReadStepView::Failed(_) => true,
        }
    }
}

/// The number of the read after read number `read`.
pub open spec fn spec_read_after(read: usize) -> usize {
    if read < usize::MAX {
        (read + 1) as usize
    } else {
        read
    }
}

impl Timeouts {
    /// The timeouts of a connection that is not told otherwise.
    pub open spec fn spec_default() -> Timeouts {
        Timeouts { read_timeout_ms: 5, keep_alive_timeout_ms: 200 }
    }

    /// The timeout of the read number `iter` of a request, counted from
    /// one: the short one for the first read, so that a connection that
    /// sends nothing is dropped fast, the long one after it.
    pub open spec fn spec_timeout_ms(self, iter: usize) -> u64 {
        if iter <= 1 {
            self.read_timeout_ms
        } else {
            self.keep_alive_timeout_ms
        }
    }

    /// The turn that a request starts with: an empty buffer, a state that
    /// has read nothing, and read number one with its timeout.
    pub open spec fn spec_first_turn(self) -> ReadTurnView {
        ReadTurnView {
            buf: Seq::empty(),
            state: spec_start(),
            read: 1,
            timeout_ms: self.spec_timeout_ms(1),
        }
    }

    /// What follows a read of the turn `turn` that ended as `event` says,
    /// the bytes that were read being in the turn's buffer: what
    /// `spec_on_read_event` decides, and where that is to read again, the
    /// number of the next read with the timeout of that read.
    pub open spec fn spec_next_turn(self, turn: ReadTurnView, event: ReadEventView) -> ReadStepView {
        match spec_on_read_event(turn.buf, turn.state, event) {
            ReadOutcomeView::Continue(buf, state) => ReadStepView::Read(
                ReadTurnView {
                    buf,
                    state,
                    read: spec_read_after(turn.read),
                    timeout_ms: self.spec_timeout_ms(spec_read_after(turn.read)),
                },
            ),
            ReadOutcomeView::Complete(result) => ReadStepView::Complete(result),
            ReadOutcomeView::Failed(e) => ReadStepView::Failed(e),
        }
    }

    /// The timeout of the read number `iter` of a request.
    pub fn timeout_ms(&self, iter: usize) -> (r: u64)
        ensures
            r == self.spec_timeout_ms(iter),
    {
        if iter <= 1 {
            self.read_timeout_ms
        } else {
            self.keep_alive_timeout_ms
        }
    }

    /// The turn that a request starts with.
    pub fn first_turn(&self) -> (r: ReadTurn)
        ensures
            r@ == self.spec_first_turn(),
    {
        ReadTurn {
            buf: Vec::new(),
            state: ParserState::Start { read_until: None },
            read: 1,
            timeout_ms: self.timeout_ms(1),
        }
    }

    /// Decides what follows a read; see `spec_next_turn`.
    pub fn next_turn(&self, turn: ReadTurn, event: ReadEvent) -> (r: ReadStep)
        ensures
            r@ == self.spec_next_turn(turn@, event@),
            turn@.state.spec_within(turn@.buf.len()) ==> r@.spec_within(),
    {
        let ReadTurn { buf, state, read, timeout_ms: _ } = turn;
        match on_read_event(buf, state, event) {
            ReadOutcome::Continue((buf, state)) => {
                let read: usize = if read < usize::MAX {
                    read + 1
                } else {
                    read
                };
                ReadStep::Read(ReadTurn { buf, state, read, timeout_ms: self.timeout_ms(read) })
            },
            ReadOutcome::Complete(result) => ReadStep::Complete(result),
            ReadOutcome::Failed(e) => ReadStep::Failed(e),
        }
    }
}

/// The first read is raced against the short timeout, and every later
/// read against the long one: the turn that a request starts with has the
/// read timeout, and a turn that follows a read has the keep-alive
/// timeout.
pub proof fn lemma_timeouts_of_reads(timeouts: Timeouts, turn: ReadTurnView, event: ReadEventView)
    requires
        turn.read >= 1,
    ensures
        timeouts.spec_first_turn().read == 1,
        timeouts.spec_first_turn().timeout_ms == timeouts.read_timeout_ms,
        timeouts.spec_next_turn(turn, event) matches ReadStepView::Read(next) ==> next.read >= 2
            && next.timeout_ms == timeouts.keep_alive_timeout_ms,
{
}

/// The reason given when two calls in a row found the buffer at the same
/// length.
pub open spec fn spec_stalled_reason() -> Seq<char> {
    "incomplete twice"@
}

/// The request that a state which knows the body's range stands for, if
/// that range lies inside a buffer of the given bytes. A request is never
/// made of a body that has not arrived in full.
pub open spec fn spec_finalize(buf: Seq<u8>, state: ParserStateView) -> Option<ParserResultView> {
    match state {
        ParserStateView::Body { head, headers, header_options, body, .. } => if body.0 <= body.1
            <= buf.len() {
            Some(ParserResultView { buf, head, headers, body, header_options })
        } else {
            None
        },
        _ => None,
    }
}

/// What follows a call of the parser, where `previous` is the buffer
/// length that the state before the call recorded: an incomplete request
/// whose buffer has not grown since, and was not empty, is given up.
pub open spec fn spec_check_progress(previous: usize, status: ParserStatusView) -> ReadOutcomeView {
    match status {
        ParserStatusView::Success(result) => ReadOutcomeView::Complete(result),
        ParserStatusView::Invalid(reason) => ReadOutcomeView::Failed(
            HandleRequestErrorView::Invalid(reason),
        ),
        ParserStatusView::Incomplete(buf, state) => if previous != 0 && state.read_until()
            == previous {
            ReadOutcomeView::Failed(HandleRequestErrorView::Invalid(spec_stalled_reason()))
        } else {
            ReadOutcomeView::Continue(buf, state)
        },
    }
}

/// What the loop does after a read. A timeout or the end of the stream
/// ends the request: with the request itself where the state stands for
/// one, and with `Timeout` or `EOF` otherwise. A failure of the stream is
/// passed on. After a read of one byte or more the parser is called and
/// its status checked for progress.
pub open spec fn spec_on_read_event(
    buf: Seq<u8>,
    state: ParserStateView,
    event: ReadEventView,
) -> ReadOutcomeView {
    match event {
        ReadEventView::Timeout => match spec_finalize(buf, state) {
            Some(result) => ReadOutcomeView::Complete(result),
            None => ReadOutcomeView::Failed(HandleRequestErrorView::Timeout),
        },
        ReadEventView::Failed(reason) => ReadOutcomeView::Failed(
            HandleRequestErrorView::IOError(reason),
        ),
        ReadEventView::Read(n) => if n == 0 {
            match spec_finalize(buf, state) {
                Some(result) => ReadOutcomeView::Complete(result),
                None => ReadOutcomeView::Failed(HandleRequestErrorView::EOF),
            }
        } else {
            spec_check_progress(state.read_until(), spec_parse_request(buf, state))
        },
    }
}

impl ReadOutcomeView {
    /// Every range that the outcome holds lies inside the buffer that it
    /// holds.
    pub open spec fn spec_within(self) -> bool {
        match self {
            ReadOutcomeView::Continue(buf, state) => state.spec_within(buf.len()),
            ReadOutcomeView::Complete(result) => result.spec_within(),
            ReadOutcomeView::Failed(_) => true,
        }
    }
}

/// Makes the request that a state stands for, or hands buffer and state
/// back.
pub fn finalize(buf: Vec<u8>, state: ParserState) -> (r: Result<
    ParserResult,
    (Vec<u8>, ParserState),
>)
    ensures
        match r {
            Ok(result) => spec_finalize(buf@, state@) == Some(result@) && (state@.spec_within(
                buf@.len(),
            ) ==> result@.spec_within()),
            Err(back) => spec_finalize(buf@, state@) is None && back.0@ == buf@ && back.1@
                == state@,
        },
{
    let fits = match &state {
        ParserState::Body { body, .. } => body.0 <= body.1 && body.1 <= buf.len(),
        _ => false,
    };
    if !fits {
        return Err((buf, state));
    }
    match state {
        ParserState::Body { head, headers, header_options, body, .. } => Ok(
            ParserResult { buf, head, headers, body, header_options },
        ),
        other => Err((buf, other)),
    }
}

/// Decides what follows a call of the parser; see `spec_check_progress`.
pub fn check_progress(previous: usize, status: ParserStatus) -> (r: ReadOutcome)
    ensures
        r@ == spec_check_progress(previous, status@),
        status@.spec_within() ==> r@.spec_within(),
{
    match status {
        ParserStatus::Success(result) => ReadOutcome::Complete(result),
        ParserStatus::Invalid(reason) => ReadOutcome::Failed(HandleRequestError::Invalid(reason)),
        ParserStatus::Incomplete((buf, state)) => {
            if previous != 0 && state.read_until() == previous {
                ReadOutcome::Failed(HandleRequestError::Invalid("incomplete twice".to_owned()))
            } else {
                ReadOutcome::Continue((buf, state))
            }
        },
    }
}

/// Decides what the loop does after a read; see `spec_on_read_event`.
pub fn on_read_event(buf: Vec<u8>, state: ParserState, event: ReadEvent) -> (r: ReadOutcome)
    ensures
        r@ == spec_on_read_event(buf@, state@, event@),
        state@.spec_within(buf@.len()) ==> r@.spec_within(),
{
    match event {
        ReadEvent::Timeout => match finalize(buf, state) {
            Ok(result) => ReadOutcome::Complete(result),
            Err(_) => ReadOutcome::Failed(HandleRequestError::Timeout),
        },
        ReadEvent::Failed(reason) => ReadOutcome::Failed(HandleRequestError::IOError(reason)),
        ReadEvent::Read(n) => {
            if n == 0 {
                match finalize(buf, state) {
                    Ok(result) => ReadOutcome::Complete(result),
                    Err(_) => ReadOutcome::Failed(HandleRequestError::EOF),
                }
            } else {
                let previous: usize = state.read_until();
                check_progress(previous, RequestParser::parse_request(buf, state))
            }
        },
    }
}

/// A stalled connection is given up. Let a call have left a state that
/// records the length of a buffer that is not empty. If the next read
/// claims to have read something and the buffer still has that length,
/// then the loop ends: with the request or its refusal if the parser
/// decides now, and as stalled if the request is incomplete once more.
/// It never reads again.
pub proof fn lemma_stalled_aborts(buf: Seq<u8>, state: ParserStateView, n: usize)
    requires
        buf.len() <= usize::MAX,
        n > 0,
        buf.len() > 0,
        state.read_until() == buf.len(),
    ensures
        !(spec_on_read_event(buf, state, ReadEventView::Read(n)) is Continue),
        spec_parse_request(buf, state) is Incomplete ==> spec_on_read_event(
            buf,
            state,
            ReadEventView::Read(n),
        ) == ReadOutcomeView::Failed(HandleRequestErrorView::Invalid(spec_stalled_reason())),
{
    lemma_returns(buf, state);
}

/// Every read that the loop goes on from has made progress: the state it
/// goes on with records the length of the buffer, and, unless the state
/// before recorded nothing, that length differs from the one recorded
/// before. So on a buffer that only grows the recorded lengths grow, and
/// the loop ends.
pub proof fn lemma_continue_is_progress(buf: Seq<u8>, state: ParserStateView, event: ReadEventView)
    requires
        buf.len() <= usize::MAX,
    ensures
        spec_on_read_event(buf, state, event) matches ReadOutcomeView::Continue(back, next) ==> {
            &&& back == buf
            &&& next.read_until() == buf.len()
            &&& (state.read_until() == 0 || next.read_until() != state.read_until())
        },
{
    lemma_returns(buf, state);
}

/// What a stream does when it is read once.
#[derive(Debug)]
pub enum StreamEvent {
    /// It yields these bytes at once; none means that it has ended.
    Data(Vec<u8>),
    /// It yields these bytes after so many milliseconds.
    Late(u64, Vec<u8>),
    /// It yields nothing before the timeout, however long that is.
    Timeout,
    /// It fails.
    Failed(String),
}

/// A `StreamEvent` as a mathematical value.
pub enum StreamEventView {
    Data(Seq<u8>),
    Late(u64, Seq<u8>),
    Timeout,
    Failed(Seq<char>),
}

impl View for StreamEvent {
    type V = StreamEventView;

    open spec fn view(&self) -> StreamEventView {
        match self {
            StreamEvent::Data(bytes) => StreamEventView::Data(bytes@),
            StreamEvent::Late(after, bytes) => StreamEventView::Late(*after, bytes@),
            StreamEvent::Timeout => StreamEventView::Timeout,
            StreamEvent::Failed(reason) => StreamEventView::Failed(reason@),
        }
    }
}

/// A list of stream events as mathematical values.
pub open spec fn spec_events(stream: Seq<StreamEvent>) -> Seq<StreamEventView> {
    stream.map_values(|e: StreamEvent| e@)
}

/// The buffer after a read that is raced against `timeout_ms`, and what
/// the read reports. Bytes that come late are read if they come before
/// the timeout; otherwise the timeout comes first and the buffer is as it
/// was.
pub open spec fn spec_read(buf: Seq<u8>, event: StreamEventView, timeout_ms: u64) -> (
    Seq<u8>,
    ReadEventView,
) {
    match event {
        StreamEventView::Data(bytes) => (buf + bytes, ReadEventView::Read(bytes.len() as usize)),
        StreamEventView::Late(after, bytes) => if after < timeout_ms {
            (buf + bytes, ReadEventView::Read(bytes.len() as usize))
        } else {
            (buf, ReadEventView::Timeout)
        },
        StreamEventView::Timeout => (buf, ReadEventView::Timeout),
        StreamEventView::Failed(reason) => (buf, ReadEventView::Failed(reason)),
    }
}

/// The turn with the buffer that a read has left.
pub open spec fn spec_turn_with(turn: ReadTurnView, buf: Seq<u8>) -> ReadTurnView {
    ReadTurnView { buf, state: turn.state, read: turn.read, timeout_ms: turn.timeout_ms }
}

/// What one turn of the read loop ends with on a stream that behaves as
/// `stream` says: the read number `at` of the stream is raced against the
/// timeout of the turn, and `spec_next_turn` decides. A stream whose list
/// is used up has ended.
pub open spec fn spec_turn(
    timeouts: Timeouts,
    turn: ReadTurnView,
    stream: Seq<StreamEventView>,
    at: int,
) -> ReadStepView {
    if at < 0 || at >= stream.len() {
        timeouts.spec_next_turn(turn, ReadEventView::Read(0))
    } else {
        timeouts.spec_next_turn(
            spec_turn_with(turn, spec_read(turn.buf, stream[at], turn.timeout_ms).0),
            spec_read(turn.buf, stream[at], turn.timeout_ms).1,
        )
    }
}

/// How the read loop ends when it stands at `turn` and the stream behaves
/// as `stream` says from its read number `at` on, and the number of the
/// first read of the stream that the loop has not made.
pub open spec fn spec_handle(
    timeouts: Timeouts,
    turn: ReadTurnView,
    stream: Seq<StreamEventView>,
    at: int,
) -> (ReadStepView, int)
    decreases stream.len() - at,
{
    if at < 0 || at >= stream.len() {
        (spec_turn(timeouts, turn, stream, at), at)
    } else {
        match spec_turn(timeouts, turn, stream, at) {
            ReadStepView::Read(next) => spec_handle(timeouts, next, stream, at + 1),
            step => (step, at + 1),
        }
    }
}

/// Makes read number `at` of the stream and decides what follows.
fn take_turn(timeouts: &Timeouts, given: ReadTurn, stream: &Vec<StreamEvent>, at: usize) -> (r: ReadStep)
    requires
        given@.state.spec_within(given@.buf.len()),
    ensures
        r@ == spec_turn(*timeouts, given@, spec_events(stream@), at as int),
        r@.spec_within(),
        at >= stream@.len() ==> !(r@ is Read),
{
    let ghost before = given@;
    let ghost events = spec_events(stream@);
    let mut turn = given;
    let event = if at >= stream.len() {
        ReadEvent::Read(0)
    } else {
        assert(events[at as int] == stream@[at as int]@);
        match &stream[at] {
            StreamEvent::Data(bytes) => {
                turn.buf.extend_from_slice(bytes.as_slice());
                ReadEvent::Read(bytes.len())
            },
            StreamEvent::Late(after, bytes) => {
                if *after < turn.timeout_ms {
                    turn.buf.extend_from_slice(bytes.as_slice());
                    ReadEvent::Read(bytes.len())
                } else {
                    ReadEvent::Timeout
                }
            },
            StreamEvent::Timeout => ReadEvent::Timeout,
            StreamEvent::Failed(reason) => ReadEvent::Failed(reason.clone()),
        }
    };
    assert(at < stream@.len() ==> (turn@.buf, event@) == spec_read(
        before.buf,
        events[at as int],
        before.timeout_ms,
    ));
    assert(turn@ == spec_turn_with(before, turn@.buf));
    timeouts.next_turn(turn, event)
}

/// Reads one request from a stream whose behaviour is written down as a
/// list of events, with the timeouts of a connection that is not told
/// otherwise; see `handle_request_with`.
pub fn handle_request(stream: &Vec<StreamEvent>, next: &mut usize) -> (r: Result<
    Request,
    HandleRequestError,
>)
    ensures
        spec_handled(Timeouts::spec_default(), spec_events(stream@), *old(next), *final(next), r),
{
    let timeouts = Timeouts::default();
    handle_request_with(&timeouts, stream, next)
}

/// A call of the read loop on `stream` from its read number `from` on has
/// returned `r` and left the number `upto`: the loop has started with the
/// first turn, it has ended as `spec_handle` says, `upto` is the number of
/// the first read that it has not made, and `r` is the request that the
/// complete result stands for, or the failure.
pub open spec fn spec_handled(
    timeouts: Timeouts,
    stream: Seq<StreamEventView>,
    from: usize,
    upto: usize,
    r: Result<Request, HandleRequestError>,
) -> bool {
    let ended = spec_handle(timeouts, timeouts.spec_first_turn(), stream, from as int);
    &&& upto == ended.1
    &&& match ended.0 {
        ReadStepView::Complete(result) => r matches Ok(request) && request.spec_made_of(result),
        ReadStepView::Failed(e) => r matches Err(x) && x@ == e,
        ReadStepView::Read(_) => false,
    }
}

/// Reads one request from a stream whose behaviour is written down as a
/// list of events: runs the read loop from read number `next` of the
/// stream on, starting with the first turn, and leaves in `next` the
/// number of the first read it has not made. The first read is raced
/// against the read timeout and every later one against the keep-alive
/// timeout.
pub fn handle_request_with(timeouts: &Timeouts, stream: &Vec<StreamEvent>, next: &mut usize) -> (r:
    Result<Request, HandleRequestError>)
    ensures
        spec_handled(*timeouts, spec_events(stream@), *old(next), *final(next), r),
{
    let ghost events = spec_events(stream@);
    let ghost first = *next as int;
    let mut current = timeouts.first_turn();
    loop
        invariant
            events == spec_events(stream@),
            first == *old(next),
            current@.state.spec_within(current@.buf.len()),
            spec_handle(*timeouts, timeouts.spec_first_turn(), events, first) == spec_handle(
                *timeouts,
                current@,
                events,
                *next as int,
            ),
        decreases stream@.len() - *next,
    {
        let step = take_turn(timeouts, current, stream, *next);
        if *next < stream.len() {
            *next = *next + 1;
        }
        match step {
            ReadStep::Read(following) => {
                current = following;
            },
            ReadStep::Complete(result) => {
                return Ok(result.into_request());
            },
            ReadStep::Failed(e) => {
                return Err(e);
            },
        }
    }
}

/// The read loop never parses a buffer of one length twice. A turn after
/// which the loop reads again has put at least one byte into the buffer,
/// and the state it goes on with records the new length; so within one
/// call no two states record the same length, and the loop makes no more
/// turns than the stream has reads.
pub proof fn lemma_turn_grows(
    timeouts: Timeouts,
    turn: ReadTurnView,
    stream: Seq<StreamEventView>,
    at: int,
)
    requires
        0 <= at < stream.len() ==> spec_read(turn.buf, stream[at], turn.timeout_ms).0.len()
            <= usize::MAX,
    ensures
        spec_turn(timeouts, turn, stream, at) matches ReadStepView::Read(next) ==> {
            &&& 0 <= at < stream.len()
            &&& next.buf.len() > turn.buf.len()
            &&& next.state.read_until() == next.buf.len()
            &&& next.read == spec_read_after(turn.read)
            &&& next.timeout_ms == timeouts.spec_timeout_ms(next.read)
        },
{
    if 0 <= at < stream.len() {
        lemma_returns(spec_read(turn.buf, stream[at], turn.timeout_ms).0, turn.state);
    }
}

/// A stream that yields the given chunks at once, one for each read.
pub open spec fn spec_stream_of(chunks: Seq<Seq<u8>>) -> Seq<StreamEventView> {
    chunks.map_values(|chunk: Seq<u8>| StreamEventView::Data(chunk))
}

/// A request that arrives is handed out, and it is the request that the
/// whole stream holds. Let the parser return a complete request on
/// `whole` alone, and let a stream yield `whole` in chunks of one byte or
/// more, however it is cut. Then, whatever the timeouts, the read loop
/// ends with a complete request, after the first chunk with which the
/// bytes so far are one: it never takes the stream for stalled and never
/// refuses. The request has the ranges and options of the request that
/// the parser returns on `whole`, and its buffer holds the chunks that
/// were read.
pub proof fn lemma_stream_delivers(timeouts: Timeouts, whole: Seq<u8>, chunks: Seq<Seq<u8>>)
    requires
        whole.len() <= usize::MAX,
        spec_parse_request(whole, spec_start()) is Success,
        spec_concat(chunks) == whole,
        chunks.len() > 0,
        forall|i: int| 0 <= i < chunks.len() ==> (#[trigger] chunks[i]).len() > 0,
    ensures
        spec_delivered(
            whole,
            chunks,
            spec_handle(timeouts, timeouts.spec_first_turn(), spec_stream_of(chunks), 0),
        ),
{
    assert(Seq::<u8>::empty() + whole =~= whole);
    assert(chunks.subrange(0, chunks.len() as int) =~= chunks);
    assert(chunks.subrange(0, 0) =~= Seq::<Seq<u8>>::empty());
    assert(spec_concat(chunks.subrange(0, 0)) =~= Seq::<u8>::empty());
    lemma_stream_delivers_from(timeouts, timeouts.spec_first_turn(), chunks, 0, whole);
}

/// The read loop has ended with `ended.0` after `ended.1` reads, and that
/// is the request of `whole`: a complete request with the ranges and
/// options that the parser returns on `whole`, in a buffer that holds the
/// chunks that were read, on which the parser returns this very request.
pub open spec fn spec_delivered(
    whole: Seq<u8>,
    chunks: Seq<Seq<u8>>,
    ended: (ReadStepView, int),
) -> bool {
    &&& ended.0 matches ReadStepView::Complete(made)
    &&& spec_parse_request(whole, spec_start()) matches ParserStatusView::Success(expected)
    &&& made.head == expected.head
    &&& made.headers == expected.headers
    &&& made.body == expected.body
    &&& made.header_options == expected.header_options
    &&& 0 < ended.1 <= chunks.len()
    &&& made.buf == spec_concat(chunks.subrange(0, ended.1))
    &&& spec_is_prefix(made.buf, whole)
    &&& spec_parse_request(made.buf, spec_start()) == ParserStatusView::Success(made)
}

proof fn lemma_stream_delivers_from(
    timeouts: Timeouts,
    turn: ReadTurnView,
    chunks: Seq<Seq<u8>>,
    at: int,
    whole: Seq<u8>,
)
    requires
        whole.len() <= usize::MAX,
        spec_parse_request(whole, spec_start()) is Success,
        0 <= at < chunks.len(),
        turn.buf == spec_concat(chunks.subrange(0, at)),
        turn.buf + spec_concat(chunks.subrange(at, chunks.len() as int)) == whole,
        forall|i: int| 0 <= i < chunks.len() ==> (#[trigger] chunks[i]).len() > 0,
        spec_consistent(turn.state, turn.buf),
        turn.state.read_until() <= turn.buf.len(),
    ensures
        spec_delivered(whole, chunks, spec_handle(timeouts, turn, spec_stream_of(chunks), at)),
        spec_handle(timeouts, turn, spec_stream_of(chunks), at).1 > at,
    decreases chunks.len() - at,
{
    let buf = turn.buf;
    let state = turn.state;
    let stream = spec_stream_of(chunks);
    let left = chunks.subrange(at, chunks.len() as int);
    let rest = chunks.subrange(at + 1, chunks.len() as int);
    let grown = buf + chunks[at];
    assert(left[0] == chunks[at]);
    assert(left.drop_first() =~= rest);
    assert(grown + spec_concat(rest) =~= whole);
    assert(spec_is_prefix(grown, whole)) by {
        assert(whole.subrange(0, grown.len() as int) =~= grown);
    }
    assert(chunks.subrange(0, at + 1) =~= chunks.subrange(0, at).push(chunks[at]));
    lemma_concat_push(chunks.subrange(0, at), chunks[at]);
    assert(stream[at] == StreamEventView::Data(chunks[at]));
    lemma_feed_step(buf, state, chunks[at]);
    lemma_returns(grown, state);
    if spec_parse_request(grown, spec_start()) is Invalid {
        lemma_refusal_is_final(grown, whole);
    }
    if spec_parse_request(grown, spec_start()) is Success {
        lemma_success_is_final(grown, whole);
    }
    match spec_parse_request(grown, state) {
        ParserStatusView::Incomplete(back, resumed) => {
            if at + 1 == chunks.len() {
                assert(rest =~= Seq::<Seq<u8>>::empty());
                assert(spec_concat(rest) =~= Seq::<u8>::empty());
                assert(grown =~= whole);
            } else {
                let following = spec_turn(timeouts, turn, stream, at)->Read_0;
                assert(following.buf == back && following.state == resumed);
                lemma_stream_delivers_from(timeouts, following, chunks, at + 1, whole);
            }
        },
        _ => {},
    }
}

} // verus!
