//! The server side of the protocol: a resumable state machine that receives
//! one request, carries it out on the timer, and sends the response.
//!
//! It performs no I/O. The timer is touched exactly once, during the call of
//! `resume` in which the request becomes complete; the events that this
//! produced are handed out when the response has been written.

use vstd::prelude::*;

use io_stream::coroutines::read::{ReadStream, ReadStreamError, ReadStreamResult};
use io_stream::coroutines::write::{WriteStream, WriteStreamError, WriteStreamResult};
use io_stream::io::StreamIo;

use crate::client::{chunk_of, valid_input};
use crate::codec::{receive_chunk, request_from_json, response_json, take_chunk, Request, Response};
use crate::stream::{pending_bytes, NEWLINE};
use crate::timer::{Timer, TimerEvent};

verus! {

/// The timer, the events and the response bytes after carrying out
/// `request` at clock reading `now`.
pub open spec fn dispatched(t: Timer, request: Request, now: usize) -> (
    Timer,
    Seq<TimerEvent>,
    Seq<u8>,
) {
    let done = response_json(Response::Done);
    match request {
        Request::Start => (t.started(now).0, t.started(now).1, done),
        Request::Get => (t, Seq::empty(), response_json(Response::Timer(t))),
        Request::SetDuration(d) => (t.set_to(d).0, t.set_to(d).1, done),
        Request::Pause => (t.paused(now).0, t.paused(now).1, done),
        Request::Resume => (t.resumed(now).0, t.resumed(now).1, done),
        Request::Stop => (t.stopped().0, t.stopped().1, done),
    }
}

/// Carries out one request on the timer: exactly one timer operation,
/// chosen by the request.
pub fn dispatch(timer: &mut Timer, request: Request, now: usize) -> (r: (
    Vec<TimerEvent>,
    Response,
))
    requires
        old(timer).wf(),
    ensures
        final(timer).wf(),
        *final(timer) == dispatched(*old(timer), request, now).0,
        r.0@ == dispatched(*old(timer), request, now).1,
        response_json(r.1) == dispatched(*old(timer), request, now).2,
{
    match request {
        Request::Start => (timer.start(now), Response::Done),
        Request::Get => {
            let snapshot = timer.copy();
            (Vec::new(), Response::Timer(snapshot))
        },
        Request::SetDuration(d) => (timer.set(d), Response::Done),
        Request::Pause => (timer.pause(now), Response::Done),
        Request::Resume => (timer.resume(now), Response::Done),
        Request::Stop => (timer.stop(), Response::Done),
    }
}

/// The phase of a request exchange.
pub enum State {
    ReceiveRequest(ReadStream),
    SendResponse(WriteStream),
}

/// Why an exchange failed.
pub enum HandleRequestError {
    /// The stream ended before the message was complete.
    Eof,
    /// The bytes before the newline are not a request.
    Decode,
    /// The read step refused its argument.
    Read(ReadStreamError),
    /// The write step refused its argument.
    Write(WriteStreamError),
}

/// What one call of `resume` ends with.
pub enum HandleRequestResult {
    /// The response was written; these are the events the request produced.
    Done(Vec<TimerEvent>),
    /// An I/O operation to perform before the next call.
    Io(StreamIo),
    /// The exchange failed.
    Failed(HandleRequestError),
}

/// Receives one request, carries it out, and sends the response.
pub struct HandleRequest {
    state: State,
    request: Vec<u8>,
    events: Vec<TimerEvent>,
}

impl HandleRequest {
    /// Whether the request is still being received.
    pub closed spec fn receiving(&self) -> bool {
        self.state is ReceiveRequest
    }

    /// The request bytes received so far.
    pub closed spec fn received(&self) -> Seq<u8> {
        self.request@
    }

    /// The events produced by the request.
    pub closed spec fn collected(&self) -> Seq<TimerEvent> {
        self.events@
    }

    /// The response bytes not yet handed out for writing.
    pub closed spec fn to_send(&self) -> Seq<u8> {
        match self.state {
            State::SendResponse(w) => pending_bytes(w),
            State::ReceiveRequest(_) => Seq::empty(),
        }
    }

    /// What one call of `resume` does, from `prev` to `next` and from timer
    /// `t` to `t2`, given the clock reading `now` and the outcome `arg` of
    /// the last I/O operation, ending with `r`.
    pub open spec fn resume_post(
        prev: HandleRequest,
        next: HandleRequest,
        t: Timer,
        t2: Timer,
        now: usize,
        arg: Option<StreamIo>,
        r: HandleRequestResult,
    ) -> bool {
        &&& prev.receiving() ==> match arg {
            None => {
                &&& r matches HandleRequestResult::Io(StreamIo::Read(Err(_)))
                &&& next.receiving()
                &&& next.received() == prev.received()
                &&& t2 == t
            },
            Some(StreamIo::Read(Err(buffer))) => {
                &&& r == HandleRequestResult::Io(StreamIo::Read(Err(buffer)))
                &&& next.receiving()
                &&& next.received() == prev.received()
                &&& t2 == t
            },
            Some(StreamIo::Read(Ok(output))) => {
                let (complete, bytes) = receive_chunk(prev.received(), chunk_of(output));
                if output.bytes_count == 0 {
                    r matches HandleRequestResult::Failed(HandleRequestError::Eof) && t2 == t
                } else if !complete {
                    &&& r matches HandleRequestResult::Io(StreamIo::Read(Err(_)))
                    &&& next.receiving()
                    &&& next.received() == bytes
                    &&& t2 == t
                } else {
                    match request_from_json(bytes) {
                        None => r matches HandleRequestResult::Failed(HandleRequestError::Decode)
                            && t2 == t,
                        Some(request) => {
                            let (t3, events, response) = dispatched(t, request, now);
                            &&& t2 == t3
                            &&& next.collected() == prev.collected() + events
                            &&& r matches HandleRequestResult::Io(StreamIo::Write(Err(bytes)))
                                && bytes@ == response.push(NEWLINE)
                            &&& !next.receiving()
                            &&& next.to_send() == Seq::<u8>::empty()
                        },
                    }
                }
            },
            Some(StreamIo::Write(_)) => r matches HandleRequestResult::Failed(
                HandleRequestError::Read(_),
            ) && t2 == t,
        }
        &&& !prev.receiving() ==> t2 == t && !next.receiving() && match arg {
            None => {
                &&& r matches HandleRequestResult::Io(StreamIo::Write(Err(bytes))) && bytes@
                    == prev.to_send()
                &&& next.to_send() == Seq::<u8>::empty()
                &&& next.collected() == prev.collected()
            },
            Some(StreamIo::Write(Err(bytes))) => {
                &&& r == HandleRequestResult::Io(StreamIo::Write(Err(bytes)))
                &&& next.collected() == prev.collected()
            },
            Some(StreamIo::Write(Ok(output))) => if output.bytes_count == 0 {
                r matches HandleRequestResult::Failed(HandleRequestError::Eof)
            } else {
                r matches HandleRequestResult::Done(events) && events@ == prev.collected()
            },
            Some(StreamIo::Read(_)) => r matches HandleRequestResult::Failed(
                HandleRequestError::Write(_),
            ),
        }
    }

    pub fn new() -> (r: HandleRequest)
        ensures
            r.receiving(),
            r.received() == Seq::<u8>::empty(),
            r.collected() == Seq::<TimerEvent>::empty(),
    {
        HandleRequest {
            state: State::ReceiveRequest(ReadStream::new()),
            request: Vec::new(),
            events: Vec::new(),
        }
    }

    /// Makes the exchange progress with the outcome of the I/O operation
    /// asked for last (`None` on the first call). `now` is the clock reading
    /// used if the request is carried out during this call.
    pub fn resume(&mut self, timer: &mut Timer, now: usize, arg: Option<StreamIo>) -> (r:
        HandleRequestResult)
        requires
            valid_input(arg),
            old(timer).wf(),
        ensures
            final(timer).wf(),
            HandleRequest::resume_post(
                *old(self),
                *final(self),
                *old(timer),
                *final(timer),
                now,
                arg,
                r,
            ),
    {
        match &mut self.state {
            State::ReceiveRequest(read) => {
                let output = match read.resume(arg) {
                    ReadStreamResult::Ok(output) => output,
                    ReadStreamResult::Io(io) => return HandleRequestResult::Io(io),
                    ReadStreamResult::Eof => return HandleRequestResult::Failed(
                        HandleRequestError::Eof,
                    ),
                    ReadStreamResult::Err(err) => return HandleRequestResult::Failed(
                        HandleRequestError::Read(err),
                    ),
                };
                let count = output.bytes_count;
                let done = take_chunk(&mut self.request, &output.buffer.as_slice()[0..count]);
                if !done {
                    read.replace(output.buffer);
                    return match read.resume(None) {
                        ReadStreamResult::Io(io) => HandleRequestResult::Io(io),
                        // A read step without an argument always asks for a read.
                        _ => HandleRequestResult::Failed(HandleRequestError::Eof),
                    };
                }
                let request = match Request::from_json(self.request.as_slice()) {
                    Some(request) => request,
                    None => return HandleRequestResult::Failed(HandleRequestError::Decode),
                };
                let (mut events, response) = dispatch(timer, request, now);
                self.events.append(&mut events);
                let mut write = WriteStream::new(response.to_vec());
                let next = write.resume(None);
                self.state = State::SendResponse(write);
                match next {
                    WriteStreamResult::Io(io) => HandleRequestResult::Io(io),
                    // A write step without an argument always asks for a write.
                    _ => HandleRequestResult::Failed(HandleRequestError::Eof),
                }
            },
            State::SendResponse(write) => {
                match write.resume(arg) {
                    WriteStreamResult::Ok(_) => {},
                    WriteStreamResult::Io(io) => return HandleRequestResult::Io(io),
                    WriteStreamResult::Eof => return HandleRequestResult::Failed(
                        HandleRequestError::Eof,
                    ),
                    WriteStreamResult::Err(err) => return HandleRequestResult::Failed(
                        HandleRequestError::Write(err),
                    ),
                }
                let mut events: Vec<TimerEvent> = Vec::new();
                std::mem::swap(&mut events, &mut self.events);
                HandleRequestResult::Done(events)
            },
        }
    }
}

/// When the stream ends while a request is still being received, the
/// exchange fails with `Eof` and the timer is left as it was.
pub proof fn lemma_eof_leaves_timer_alone(
    prev: HandleRequest,
    next: HandleRequest,
    t: Timer,
    t2: Timer,
    now: usize,
    output: io_stream::io::StreamOutput,
    r: HandleRequestResult,
)
    requires
        prev.receiving(),
        output.bytes_count == 0,
        HandleRequest::resume_post(prev, next, t, t2, now, Some(StreamIo::Read(Ok(output))), r),
    ensures
        r matches HandleRequestResult::Failed(HandleRequestError::Eof),
        t2 == t,
{
}

} // verus!
