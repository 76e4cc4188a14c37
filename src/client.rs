//! The client side of the protocol: a resumable state machine that sends one
//! request and receives the one response to it.
//!
//! It performs no I/O. Each call of `resume` either asks for an I/O
//! operation (`Io`), which the caller performs and hands back on the next
//! call, or ends with the payload of the response (`Done`) or an error
//! (`Failed`). The payload is the message without its newline; what follows
//! the newline in the last chunk read is dropped.

use vstd::prelude::*;

use io_stream::coroutines::read::{ReadStream, ReadStreamError, ReadStreamResult};
use io_stream::coroutines::write::{WriteStream, WriteStreamError, WriteStreamResult};
use io_stream::io::{StreamIo, StreamOutput};

use crate::codec::{receive_chunk, request_json, take_chunk, Request};
use crate::stream::{pending_bytes, NEWLINE};

verus! {

/// The bytes a read or write outcome reports.
pub open spec fn chunk_of(output: StreamOutput) -> Seq<u8> {
    output.buffer@.take(output.bytes_count as int)
}

/// An I/O outcome reports no more bytes than its buffer holds.
pub open spec fn valid_input(arg: Option<StreamIo>) -> bool {
    match arg {
        Some(StreamIo::Read(Ok(output))) => output.bytes_count <= output.buffer@.len(),
        Some(StreamIo::Write(Ok(output))) => output.bytes_count <= output.buffer@.len(),
        _ => true,
    }
}

/// The phase of a request exchange.
pub enum State {
    SendRequest(WriteStream),
    ReceiveResponse(ReadStream),
}

/// Why an exchange failed.
pub enum SendRequestError {
    /// The stream ended before the message was complete.
    Eof,
    /// The read step refused its argument.
    Read(ReadStreamError),
    /// The write step refused its argument.
    Write(WriteStreamError),
}

/// What one call of `resume` ends with.
pub enum SendRequestResult {
    /// The response payload, without its newline.
    Done(Vec<u8>),
    /// An I/O operation to perform before the next call.
    Io(StreamIo),
    /// The exchange failed.
    Failed(SendRequestError),
}

/// Sends one request and receives its response.
pub struct SendRequest {
    state: State,
    response: Vec<u8>,
}

impl SendRequest {
    /// Whether the request is still being sent.
    pub closed spec fn sending(&self) -> bool {
        self.state is SendRequest
    }

    /// The request bytes not yet handed out for writing.
    pub closed spec fn to_send(&self) -> Seq<u8> {
        match self.state {
            State::SendRequest(w) => pending_bytes(w),
            State::ReceiveResponse(_) => Seq::empty(),
        }
    }

    /// The response bytes received so far.
    pub closed spec fn received(&self) -> Seq<u8> {
        self.response@
    }

    /// What one call of `resume` does, from `prev` to `next`, given the
    /// outcome `arg` of the last I/O operation, ending with `r`.
    pub open spec fn resume_post(
        prev: SendRequest,
        next: SendRequest,
        arg: Option<StreamIo>,
        r: SendRequestResult,
    ) -> bool {
        &&& prev.sending() ==> match arg {
            None => {
                &&& r matches SendRequestResult::Io(StreamIo::Write(Err(bytes))) && bytes@
                    == prev.to_send()
                &&& next.sending()
                &&& next.to_send() == Seq::<u8>::empty()
            },
            Some(StreamIo::Write(Err(bytes))) => {
                &&& r == SendRequestResult::Io(StreamIo::Write(Err(bytes)))
                &&& next.sending()
            },
            Some(StreamIo::Write(Ok(output))) => if output.bytes_count == 0 {
                r matches SendRequestResult::Failed(SendRequestError::Eof)
            } else {
                &&& r matches SendRequestResult::Io(StreamIo::Read(Err(_)))
                &&& !next.sending()
                &&& next.received() == prev.received()
            },
            Some(StreamIo::Read(_)) => r matches SendRequestResult::Failed(
                SendRequestError::Write(_),
            ),
        }
        &&& !prev.sending() ==> !next.sending() && match arg {
            None => r matches SendRequestResult::Io(StreamIo::Read(Err(_))),
            Some(StreamIo::Read(Err(buffer))) => r == SendRequestResult::Io(
                StreamIo::Read(Err(buffer)),
            ),
            Some(StreamIo::Read(Ok(output))) => if output.bytes_count == 0 {
                r matches SendRequestResult::Failed(SendRequestError::Eof)
            } else if receive_chunk(prev.received(), chunk_of(output)).0 {
                r matches SendRequestResult::Done(payload) && payload@ == receive_chunk(
                    prev.received(),
                    chunk_of(output),
                ).1
            } else {
                &&& r matches SendRequestResult::Io(StreamIo::Read(Err(_)))
                &&& next.received() == receive_chunk(
                    prev.received(),
                    chunk_of(output),
                ).1
            },
            Some(StreamIo::Write(_)) => r matches SendRequestResult::Failed(
                SendRequestError::Read(_),
            ),
        }
    }

    pub fn new(request: Request) -> (r: SendRequest)
        ensures
            r.sending(),
            r.to_send() == request_json(request).push(NEWLINE),
            r.received() == Seq::<u8>::empty(),
    {
        let write = WriteStream::new(request.to_vec());
        SendRequest { state: State::SendRequest(write), response: Vec::new() }
    }

    /// Makes the exchange progress with the outcome of the I/O operation
    /// asked for last (`None` on the first call).
    pub fn resume(&mut self, arg: Option<StreamIo>) -> (r: SendRequestResult)
        requires
            valid_input(arg),
        ensures
            SendRequest::resume_post(*old(self), *final(self), arg, r),
    {
        match &mut self.state {
            State::SendRequest(write) => {
                match write.resume(arg) {
                    WriteStreamResult::Ok(_) => {},
                    WriteStreamResult::Io(io) => return SendRequestResult::Io(io),
                    WriteStreamResult::Eof => return SendRequestResult::Failed(
                        SendRequestError::Eof,
                    ),
                    WriteStreamResult::Err(err) => return SendRequestResult::Failed(
                        SendRequestError::Write(err),
                    ),
                }
                let mut read = ReadStream::new();
                let next = read.resume(None);
                self.state = State::ReceiveResponse(read);
                match next {
                    ReadStreamResult::Io(io) => SendRequestResult::Io(io),
                    // A read step without an argument always asks for a read.
                    _ => SendRequestResult::Failed(SendRequestError::Eof),
                }
            },
            State::ReceiveResponse(read) => {
                let output = match read.resume(arg) {
                    ReadStreamResult::Ok(output) => output,
                    ReadStreamResult::Io(io) => return SendRequestResult::Io(io),
                    ReadStreamResult::Eof => return SendRequestResult::Failed(
                        SendRequestError::Eof,
                    ),
                    ReadStreamResult::Err(err) => return SendRequestResult::Failed(
                        SendRequestError::Read(err),
                    ),
                };
                let count = output.bytes_count;
                let done = take_chunk(&mut self.response, &output.buffer.as_slice()[0..count]);
                if done {
                    let mut payload: Vec<u8> = Vec::new();
                    std::mem::swap(&mut payload, &mut self.response);
                    return SendRequestResult::Done(payload);
                }
                read.replace(output.buffer);
                match read.resume(None) {
                    ReadStreamResult::Io(io) => SendRequestResult::Io(io),
                    // A read step without an argument always asks for a read.
                    _ => SendRequestResult::Failed(SendRequestError::Eof),
                }
            },
        }
    }
}

/// Starts the timer. An exchange of `Request::Start`.
pub struct StartTimer {
    send: SendRequest,
}

impl StartTimer {
    /// The underlying exchange.
    pub closed spec fn exchange(&self) -> SendRequest {
        self.send
    }

    pub fn new() -> (r: StartTimer)
        ensures
            r.exchange().sending(),
            r.exchange().to_send() == request_json(Request::Start).push(NEWLINE),
            r.exchange().received() == Seq::<u8>::empty(),
    {
        StartTimer { send: SendRequest::new(Request::Start) }
    }

    pub fn resume(&mut self, arg: Option<StreamIo>) -> (r: SendRequestResult)
        requires
            valid_input(arg),
        ensures
            SendRequest::resume_post(old(self).exchange(), final(self).exchange(), arg, r),
    {
        self.send.resume(arg)
    }
}

/// Fetches a snapshot of the timer. An exchange of `Request::Get`.
pub struct GetTimer {
    send: SendRequest,
}

impl GetTimer {
    /// The underlying exchange.
    pub closed spec fn exchange(&self) -> SendRequest {
        self.send
    }

    pub fn new() -> (r: GetTimer)
        ensures
            r.exchange().sending(),
            r.exchange().to_send() == request_json(Request::Get).push(NEWLINE),
            r.exchange().received() == Seq::<u8>::empty(),
    {
        GetTimer { send: SendRequest::new(Request::Get) }
    }

    pub fn resume(&mut self, arg: Option<StreamIo>) -> (r: SendRequestResult)
        requires
            valid_input(arg),
        ensures
            SendRequest::resume_post(old(self).exchange(), final(self).exchange(), arg, r),
    {
        self.send.resume(arg)
    }
}

/// Pauses the timer. An exchange of `Request::Pause`.
pub struct PauseTimer {
    send: SendRequest,
}

impl PauseTimer {
    /// The underlying exchange.
    pub closed spec fn exchange(&self) -> SendRequest {
        self.send
    }

    pub fn new() -> (r: PauseTimer)
        ensures
            r.exchange().sending(),
            r.exchange().to_send() == request_json(Request::Pause).push(NEWLINE),
            r.exchange().received() == Seq::<u8>::empty(),
    {
        PauseTimer { send: SendRequest::new(Request::Pause) }
    }

    pub fn resume(&mut self, arg: Option<StreamIo>) -> (r: SendRequestResult)
        requires
            valid_input(arg),
        ensures
            SendRequest::resume_post(old(self).exchange(), final(self).exchange(), arg, r),
    {
        self.send.resume(arg)
    }
}

/// Resumes the paused timer. An exchange of `Request::Resume`.
pub struct ResumeTimer {
    send: SendRequest,
}

impl ResumeTimer {
    /// The underlying exchange.
    pub closed spec fn exchange(&self) -> SendRequest {
        self.send
    }

    pub fn new() -> (r: ResumeTimer)
        ensures
            r.exchange().sending(),
            r.exchange().to_send() == request_json(Request::Resume).push(NEWLINE),
            r.exchange().received() == Seq::<u8>::empty(),
    {
        ResumeTimer { send: SendRequest::new(Request::Resume) }
    }

    pub fn resume(&mut self, arg: Option<StreamIo>) -> (r: SendRequestResult)
        requires
            valid_input(arg),
        ensures
            SendRequest::resume_post(old(self).exchange(), final(self).exchange(), arg, r),
    {
        self.send.resume(arg)
    }
}

/// Stops the timer. An exchange of `Request::Stop`.
pub struct StopTimer {
    send: SendRequest,
}

impl StopTimer {
    /// The underlying exchange.
    pub closed spec fn exchange(&self) -> SendRequest {
        self.send
    }

    pub fn new() -> (r: StopTimer)
        ensures
            r.exchange().sending(),
            r.exchange().to_send() == request_json(Request::Stop).push(NEWLINE),
            r.exchange().received() == Seq::<u8>::empty(),
    {
        StopTimer { send: SendRequest::new(Request::Stop) }
    }

    pub fn resume(&mut self, arg: Option<StreamIo>) -> (r: SendRequestResult)
        requires
            valid_input(arg),
        ensures
            SendRequest::resume_post(old(self).exchange(), final(self).exchange(), arg, r),
    {
        self.send.resume(arg)
    }
}

} // verus!
