//! One accepted connection: its buffers and the four-state machine that says
//! what each outcome of a non-blocking read or write does to it.

use vstd::prelude::*;
use vstd::string::StringSliceAdditionalSpecFns;
use crate::bytes::{append, copy_range, ends_with};
use crate::error_utils::MaybeFatal;
use crate::oscode::{
    code_is_would_block, is_fatal_read_code, is_fatal_write_code, is_would_block_code,
    read_code_is_fatal, write_code_is_fatal,
};
use crate::request::{Request, RequestParseError};

verus! {

/// The size of the scratch buffer that the caller hands to a single read.
pub const BUFFER_SIZE: usize = 256;

#[derive(Clone, Copy, Debug, PartialEq, Eq, Structural)]
pub enum ConnectionStatus {
    Reading,
    AwaitingResponse,
    Writing,
    Dead,
}

impl ConnectionStatus {
    /// The moves that a connection's status can make: it may stay, step from
    /// reading to awaiting a response, from there to writing, and die from
    /// anywhere.
    pub open spec fn may_become(self, next: ConnectionStatus) -> bool {
        ||| next == self
        ||| next == ConnectionStatus::Dead
        ||| (self == ConnectionStatus::Reading && next == ConnectionStatus::AwaitingResponse)
        ||| (self == ConnectionStatus::AwaitingResponse && next == ConnectionStatus::Writing)
    }
}

#[derive(Clone, Debug)]
pub enum ConnectionReadError {
    /// The read failed with this code of the operating system.
    ReadError(i32),
    /// The connection was in this status, not reading.
    NotReadyToRead(ConnectionStatus),
    /// The bytes received are no request.
    MalformedRequest(RequestParseError),
}

#[derive(Clone, Copy, Debug)]
pub enum ConnectionResponseError {
    /// The connection was in this status, not awaiting a response.
    NotReadyToRespond(ConnectionStatus),
}

#[derive(Clone, Copy, Debug)]
pub enum ConnectionWriteError {
    /// The write failed with this code of the operating system.
    WriteError(i32),
    /// The connection was in this status, not writing.
    NotReadyToWrite(ConnectionStatus),
}

impl MaybeFatal for ConnectionReadError {
    open spec fn fatal(&self) -> bool {
        match self {
            Self::ReadError(code) => read_code_is_fatal(*code),
            Self::NotReadyToRead(_) => true,
            Self::MalformedRequest(_) => false,
        }
    }

    fn is_fatal(&self) -> (fatal: bool) {
        match self {
            Self::ReadError(code) => is_fatal_read_code(*code),
            Self::NotReadyToRead(_) => true,
            Self::MalformedRequest(_) => false,
        }
    }
}

impl MaybeFatal for ConnectionWriteError {
    open spec fn fatal(&self) -> bool {
        match self {
            Self::WriteError(code) => write_code_is_fatal(*code),
            Self::NotReadyToWrite(status) => *status == ConnectionStatus::Reading,
        }
    }

    fn is_fatal(&self) -> (fatal: bool) {
        match self {
            Self::WriteError(code) => is_fatal_write_code(*code),
            Self::NotReadyToWrite(status) => matches!(status, ConnectionStatus::Reading),
        }
    }
}

/// The sequence that ends a request head: two line ends, each a carriage
/// return and a line feed.
pub open spec fn terminator() -> Seq<u8> {
    seq![13u8, 10u8, 13u8, 10u8]
}

/// A connection as a mathematical value.
pub struct ConnectionView {
    pub descriptor: usize,
    pub status: ConnectionStatus,
    pub accumulator: Seq<u8>,
    pub write_cursor: int,
}

impl ConnectionView {
    /// The bytes of the queued response that are not written yet.
    pub open spec fn pending(self) -> Seq<u8> {
        self.accumulator.skip(self.write_cursor)
    }

    pub open spec fn with_status(self, status: ConnectionStatus) -> ConnectionView {
        ConnectionView { status, ..self }
    }

    /// The connection after `kill`.
    pub open spec fn killed(self) -> ConnectionView {
        self.with_status(ConnectionStatus::Dead)
    }

    /// The connection after `reset`: nothing accumulated, nothing written,
    /// the status as it was.
    pub open spec fn cleared(self) -> ConnectionView {
        ConnectionView { accumulator: Seq::empty(), write_cursor: 0, ..self }
    }

    /// The connection after a response of the bytes `data` was queued on it.
    pub open spec fn responding(self, data: Seq<u8>) -> ConnectionView {
        ConnectionView {
            accumulator: data,
            write_cursor: 0,
            status: ConnectionStatus::Writing,
            ..self
        }
    }

    /// Whether a read with this outcome ends the reading for now; if not, the
    /// caller reads once more.
    pub open spec fn read_settles(self, outcome: Result<Seq<u8>, i32>) -> bool {
        ||| self.status != ConnectionStatus::Reading
        ||| self.after_read(outcome).status != ConnectionStatus::Reading
        ||| outcome.is_err()
    }

    /// The connection after one read with the given outcome: `Ok(bytes)` says
    /// that the read received `bytes`, `Err(code)` that it failed with that code.
    pub open spec fn after_read(self, outcome: Result<Seq<u8>, i32>) -> ConnectionView {
        if self.status != ConnectionStatus::Reading {
            self
        } else {
            match outcome {
                Ok(bytes) => {
                    let grown = ConnectionView { accumulator: self.accumulator + bytes, ..self };
                    if bytes.len() == 0 || ends_with(grown.accumulator, terminator()) {
                        grown.with_status(ConnectionStatus::AwaitingResponse)
                    } else {
                        grown
                    }
                },
                Err(code) => if read_code_is_fatal(code) {
                    self.killed()
                } else if code_is_would_block(code) || ends_with(self.accumulator, terminator()) {
                    self.with_status(ConnectionStatus::AwaitingResponse)
                } else {
                    self
                },
            }
        }
    }

    /// What a write with this outcome reports: a refusal while not writing,
    /// the failure of a failed write, success when the response is written
    /// out or nothing was taken, and otherwise nothing yet: the caller
    /// writes once more.
    pub open spec fn write_reply(self, outcome: Result<usize, i32>) -> Option<
        Result<(), ConnectionWriteError>,
    > {
        if self.status != ConnectionStatus::Writing {
            Some(Err(ConnectionWriteError::NotReadyToWrite(self.status)))
        } else {
            match outcome {
                Err(code) => Some(Err(ConnectionWriteError::WriteError(code))),
                Ok(count) => if count == 0 || self.write_cursor + count >= self.accumulator.len() {
                    Some(Ok(()))
                } else {
                    None
                },
            }
        }
    }

    /// The connection after one write of its pending bytes with the given
    /// outcome: `Ok(n)` says that `n` of them were taken, `Err(code)` that the
    /// write failed with that code.
    pub open spec fn after_write(self, outcome: Result<usize, i32>) -> ConnectionView {
        if self.status != ConnectionStatus::Writing {
            self
        } else {
            match outcome {
                Ok(count) => {
                    let moved = ConnectionView { write_cursor: self.write_cursor + count, ..self };
                    if moved.write_cursor >= self.accumulator.len() {
                        moved.killed()
                    } else {
                        moved
                    }
                },
                Err(code) => if write_code_is_fatal(code) || self.write_cursor
                    >= self.accumulator.len() {
                    self.killed()
                } else {
                    self
                },
            }
        }
    }
}

/// Whether `reply` is what reading a request from `bytes` gives.
pub open spec fn is_reading_of(reply: Result<Request, ConnectionReadError>, bytes: Seq<u8>) -> bool {
    match reply {
        Ok(request) => Request::parsed(Ok(request), bytes),
        Err(ConnectionReadError::MalformedRequest(error)) => Request::parsed(Err(error), bytes),
        Err(_) => false,
    }
}

pub struct Connection {
    descriptor: usize,
    state: ConnectionStatus,
    collector: Vec<u8>,
    write_index: usize,
}

impl View for Connection {
    type V = ConnectionView;

    closed spec fn view(&self) -> ConnectionView {
        ConnectionView {
            descriptor: self.descriptor,
            status: self.state,
            accumulator: self.collector@,
            write_cursor: self.write_index as int,
        }
    }
}

impl Connection {
    /// What holds of every connection that this library made: the write
    /// cursor lies within the accumulator.
    pub closed spec fn wf(&self) -> bool {
        self.write_index <= self.collector@.len()
    }

    /// The write cursor of a connection never lies beyond the bytes queued.
    pub proof fn lemma_cursor_in_bounds(&self)
        requires
            self.wf(),
        ensures
            0 <= self@.write_cursor <= self@.accumulator.len(),
    {
    }

    /// A connection on the descriptor `descriptor`, reading, with nothing
    /// accumulated.
    pub fn new(descriptor: usize) -> (connection: Connection)
        ensures
            connection.wf(),
            connection@.descriptor == descriptor,
            connection@.status == ConnectionStatus::Reading,
            connection@.accumulator == Seq::<u8>::empty(),
            connection@.write_cursor == 0,
    {
        Connection {
            descriptor,
            state: ConnectionStatus::Reading,
            collector: Vec::new(),
            write_index: 0,
        }
    }

    pub fn get_file_descriptor(&self) -> (descriptor: usize)
        ensures
            descriptor == self@.descriptor,
    {
        self.descriptor
    }

    pub fn get_status(&self) -> (status: ConnectionStatus)
        ensures
            status == self@.status,
    {
        self.state
    }

    pub fn is_alive(&self) -> (alive: bool)
        ensures
            alive == (self@.status != ConnectionStatus::Dead),
    {
        !matches!(self.state, ConnectionStatus::Dead)
    }

    pub fn is_reading(&self) -> (reading: bool)
        ensures
            reading == (self@.status == ConnectionStatus::Reading),
    {
        matches!(self.state, ConnectionStatus::Reading)
    }

    pub fn is_writing(&self) -> (writing: bool)
        ensures
            writing == (self@.status == ConnectionStatus::Writing),
    {
        matches!(self.state, ConnectionStatus::Writing)
    }

    pub fn is_awaiting_response(&self) -> (awaiting: bool)
        ensures
            awaiting == (self@.status == ConnectionStatus::AwaitingResponse),
    {
        matches!(self.state, ConnectionStatus::AwaitingResponse)
    }

    /// The position in the accumulator up to which the response is written.
    /// It never lies beyond the accumulator's end.
    pub fn get_write_cursor(&self) -> (cursor: usize)
        requires
            self.wf(),
        ensures
            cursor == self@.write_cursor,
            cursor <= self@.accumulator.len(),
    {
        self.write_index
    }

    /// The bytes accumulated: what was received so far while reading, the
    /// queued response while writing.
    pub fn get_accumulated(&self) -> (bytes: &Vec<u8>)
        ensures
            bytes@ == self@.accumulator,
    {
        &self.collector
    }

    /// The bytes of the queued response that the next write is to send.
    pub fn pending(&self) -> (bytes: Vec<u8>)
        requires
            self.wf(),
        ensures
            bytes@ == self@.pending(),
            self@.write_cursor + bytes@.len() == self@.accumulator.len(),
    {
        copy_range(self.collector.as_slice(), self.write_index, self.collector.len())
    }

    /// Declares the connection dead, whatever its status was.
    pub fn kill(&mut self)
        requires
            old(self).wf(),
        ensures
            final(self).wf(),
            final(self)@ == old(self)@.killed(),
            old(self)@.status.may_become(final(self)@.status),
    {
        self.state = ConnectionStatus::Dead;
    }

    /// Empties the accumulator and leaves the status as it is.
    pub fn reset(&mut self)
        requires
            old(self).wf(),
        ensures
            final(self).wf(),
            final(self)@ == old(self)@.cleared(),
            old(self)@.status.may_become(final(self)@.status),
    {
        self.collector.clear();
        self.write_index = 0;
    }

    /// Whether the accumulator ends with the sequence that ends a request head.
    fn at_terminator(&self) -> (at: bool)
        ensures
            at == ends_with(self@.accumulator, terminator()),
    {
        let n = self.collector.len();
        if n < 4 {
            return false;
        }
        let at = self.collector[n - 4] == 13 && self.collector[n - 3] == 10 && self.collector[n
            - 2] == 13 && self.collector[n - 1] == 10;
        proof {
            let tail = self.collector@.subrange(n - 4, n as int);
            if at {
                assert(tail =~= terminator());
            } else {
                assert(tail[0] == self.collector@[n - 4]);
                assert(tail[1] == self.collector@[n - 3]);
                assert(tail[2] == self.collector@[n - 2]);
                assert(tail[3] == self.collector@[n - 1]);
            }
        }
        at
    }

    /// Reads the accumulated bytes as a request.
    pub fn parse_request(&self) -> (reply: Result<Request, ConnectionReadError>)
        ensures
            is_reading_of(reply, self@.accumulator),
    {
        match Request::parse(self.collector.as_slice()) {
            Ok(request) => Ok(request),
            Err(error) => Err(ConnectionReadError::MalformedRequest(error)),
        }
    }

    /// Takes in the outcome of one non-blocking read on the descriptor:
    /// `Ok(bytes)` with what the read received, empty where the peer has
    /// closed, or `Err(code)` with the code it failed with.
    ///
    /// While not reading, the connection refuses with `NotReadyToRead` and
    /// stays as it is. Received bytes are appended to the accumulator. The
    /// reading ends, and the accumulated bytes are read as a request, when the
    /// peer has closed, when the accumulator ends with the terminator, or when
    /// the read would block. A fatal code kills the connection. `None` asks
    /// the caller for one more read.
    pub fn read(&mut self, outcome: Result<&[u8], i32>) -> (step: Option<
        Result<Request, ConnectionReadError>,
    >)
        requires
            old(self).wf(),
        ensures
            final(self).wf(),
            final(self)@ == old(self)@.after_read(read_view(outcome)),
            old(self)@.status.may_become(final(self)@.status),
            step.is_some() == old(self)@.read_settles(read_view(outcome)),
            match step {
                None => true,
                Some(Err(ConnectionReadError::NotReadyToRead(status))) => status == old(self)@.status
                    && status != ConnectionStatus::Reading,
                Some(Err(ConnectionReadError::ReadError(code))) => outcome == Err::<&[u8], i32>(code)
                    && old(self)@.status == ConnectionStatus::Reading && final(self)@.status
                    != ConnectionStatus::AwaitingResponse,
                Some(reply) => old(self)@.status == ConnectionStatus::Reading && final(self)@.status
                    == ConnectionStatus::AwaitingResponse && is_reading_of(
                    reply,
                    final(self)@.accumulator,
                ),
            },
    {
        if !self.is_reading() {
            return Some(Err(ConnectionReadError::NotReadyToRead(self.state)));
        }
        match outcome {
            Ok(bytes) => {
                append(&mut self.collector, bytes);
                if bytes.len() == 0 || self.at_terminator() {
                    self.state = ConnectionStatus::AwaitingResponse;
                    Some(self.parse_request())
                } else {
                    None
                }
            },
            Err(code) => {
                let error = ConnectionReadError::ReadError(code);
                if error.is_fatal() {
                    self.kill();
                    Some(Err(error))
                } else if is_would_block_code(code) || self.at_terminator() {
                    self.state = ConnectionStatus::AwaitingResponse;
                    Some(self.parse_request())
                } else {
                    Some(Err(error))
                }
            },
        }
    }

    /// Queues the response `data` for writing: the accumulator then holds
    /// its bytes and nothing of them is written yet. A connection that is
    /// not awaiting a response refuses and stays as it is.
    pub fn begin_response(&mut self, data: &str) -> (result: Result<(), ConnectionResponseError>)
        requires
            old(self).wf(),
        ensures
            final(self).wf(),
            old(self)@.status.may_become(final(self)@.status),
            match result {
                Ok(_) => old(self)@.status == ConnectionStatus::AwaitingResponse && final(self)@
                    == old(self)@.responding(data.spec_bytes()),
                Err(ConnectionResponseError::NotReadyToRespond(status)) => status == old(
                    self,
                )@.status && status != ConnectionStatus::AwaitingResponse && final(self)@ == old(
                    self,
                )@,
            },
    {
        self.begin_response_bytes(data.as_bytes())
    }

    /// Queues the response bytes `data` for writing, as `begin_response` does
    /// for a text.
    pub fn begin_response_bytes(&mut self, data: &[u8]) -> (result: Result<
        (),
        ConnectionResponseError,
    >)
        requires
            old(self).wf(),
        ensures
            final(self).wf(),
            old(self)@.status.may_become(final(self)@.status),
            match result {
                Ok(_) => old(self)@.status == ConnectionStatus::AwaitingResponse && final(self)@
                    == old(self)@.responding(data@),
                Err(ConnectionResponseError::NotReadyToRespond(status)) => status == old(
                    self,
                )@.status && status != ConnectionStatus::AwaitingResponse && final(self)@ == old(
                    self,
                )@,
            },
    {
        if !self.is_awaiting_response() {
            return Err(ConnectionResponseError::NotReadyToRespond(self.state));
        }
        self.write_index = 0;
        self.collector.clear();
        append(&mut self.collector, data);
        self.state = ConnectionStatus::Writing;
        proof {
            assert(self.collector@ =~= data@);
        }
        Ok(())
    }

    /// Takes in the outcome of one non-blocking write of the pending bytes:
    /// `Ok(count)` with the number of bytes the write took, or `Err(code)`
    /// with the code it failed with.
    ///
    /// While not writing, the connection refuses with `NotReadyToWrite` and
    /// stays as it is. The cursor moves on by the bytes taken. The connection
    /// dies when the cursor has reached the end of the response, and on a
    /// fatal code. `None` asks the caller for one more write.
    pub fn write(&mut self, outcome: Result<usize, i32>) -> (step: Option<
        Result<(), ConnectionWriteError>,
    >)
        requires
            old(self).wf(),
            old(self)@.status == ConnectionStatus::Writing ==> match outcome {
                Ok(count) => count <= old(self)@.pending().len(),
                Err(_) => true,
            },
        ensures
            final(self).wf(),
            final(self)@ == old(self)@.after_write(outcome),
            old(self)@.status.may_become(final(self)@.status),
            old(self)@.write_cursor <= final(self)@.write_cursor <= final(self)@.accumulator.len(),
            step == old(self)@.write_reply(outcome),
    {
        if !self.is_writing() {
            return Some(Err(ConnectionWriteError::NotReadyToWrite(self.state)));
        }
        match outcome {
            Ok(count) => {
                let length: usize = self.collector.len();
                proof {
                    assert(self@.pending().len() == length - self.write_index);
                }
                self.write_index = self.write_index + count;
                if self.write_index >= length {
                    self.state = ConnectionStatus::Dead;
                    Some(Ok(()))
                } else if count == 0 {
                    Some(Ok(()))
                } else {
                    None
                }
            },
            Err(code) => {
                let error = ConnectionWriteError::WriteError(code);
                if error.is_fatal() || self.write_index >= self.collector.len() {
                    self.state = ConnectionStatus::Dead;
                }
                Some(Err(error))
            },
        }
    }
}

/// The outcome of a read with the received bytes as a mathematical value.
pub open spec fn read_view(outcome: Result<&[u8], i32>) -> Result<Seq<u8>, i32> {
    match outcome {
        Ok(bytes) => Ok(bytes@),
        Err(code) => Err(code),
    }
}

/// Resetting a connection twice in a row leaves it as resetting it once does.
pub proof fn lemma_reset_is_idempotent(connection: ConnectionView)
    ensures
        connection.cleared().cleared() == connection.cleared(),
{
}

/// A read, whatever its outcome, moves the status only along the allowed
/// moves, and a connection that is not reading is left as it is.
pub proof fn lemma_read_moves_forward(connection: ConnectionView, outcome: Result<Seq<u8>, i32>)
    ensures
        connection.status.may_become(connection.after_read(outcome).status),
        connection.status != ConnectionStatus::Reading ==> connection.after_read(outcome)
            == connection,
        connection.after_read(outcome).status != ConnectionStatus::Writing || connection.status
            == ConnectionStatus::Writing,
{
}

/// A peer that closes ends the reading, whether or not the terminator was
/// received: the bytes accumulated so far are what is read as the request.
pub proof fn lemma_peer_close_ends_reading(connection: ConnectionView)
    requires
        connection.status == ConnectionStatus::Reading,
    ensures
        connection.after_read(Ok(Seq::empty())).status == ConnectionStatus::AwaitingResponse,
        connection.after_read(Ok(Seq::empty())).accumulator == connection.accumulator,
        connection.read_settles(Ok(Seq::empty())),
{
    assert(connection.accumulator + Seq::<u8>::empty() =~= connection.accumulator);
}

/// A write, whatever its outcome, moves the status only along the allowed
/// moves, never moves the cursor back, and keeps it within the response.
pub proof fn lemma_write_makes_progress(connection: ConnectionView, outcome: Result<usize, i32>)
    requires
        0 <= connection.write_cursor <= connection.accumulator.len(),
        outcome matches Ok(count) ==> count <= connection.pending().len(),
    ensures
        connection.status.may_become(connection.after_write(outcome).status),
        connection.write_cursor <= connection.after_write(outcome).write_cursor
            <= connection.accumulator.len(),
        connection.after_write(outcome).accumulator == connection.accumulator,
        outcome.is_err() ==> connection.after_write(outcome).write_cursor
            == connection.write_cursor,
{
}

/// Queuing a response is the one move from awaiting a response to writing,
/// and it starts the cursor at the beginning of the response.
pub proof fn lemma_response_starts_writing(connection: ConnectionView, data: Seq<u8>)
    requires
        connection.status == ConnectionStatus::AwaitingResponse,
    ensures
        connection.status.may_become(connection.responding(data).status),
        connection.responding(data).pending() == data,
{
    assert(data.skip(0) =~= data);
}

} // verus!
