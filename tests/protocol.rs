use io_stream::io::{StreamIo, StreamOutput};
use io_timer::client::{GetTimer, SendRequest, SendRequestError, SendRequestResult, StartTimer};
use io_timer::server::{HandleRequest, HandleRequestError, HandleRequestResult};
use io_timer::timer::{TimerConfig, TimerCycle, TimerCycles, TimerEvent, TimerLoop, TimerState};
use io_timer::{Request, Response, Timer};

fn testing_timer() -> Timer {
    Timer::new(TimerConfig {
        cycles: TimerCycles::from(vec![TimerCycle::new("work", 120), TimerCycle::new("rest", 30)]),
        cycles_count: TimerLoop::Infinite,
    })
}

fn read_outcome(buffer: Vec<u8>, chunk: &[u8]) -> StreamIo {
    let mut buffer = buffer;
    buffer[..chunk.len()].copy_from_slice(chunk);
    StreamIo::Read(Ok(StreamOutput { buffer, bytes_count: chunk.len() }))
}

fn write_outcome(bytes: Vec<u8>) -> StreamIo {
    let bytes_count = bytes.len();
    StreamIo::Write(Ok(StreamOutput { buffer: bytes, bytes_count }))
}

/// Feeds `chunks` to a server exchange, one read per chunk, and returns what
/// it ended with and the response bytes it asked to write.
fn serve(timer: &mut Timer, now: usize, chunks: &[&[u8]]) -> (HandleRequestResult, Vec<u8>) {
    let mut handler = HandleRequest::new();
    let mut arg = None;
    let mut chunks = chunks.iter();
    let mut written = Vec::new();
    loop {
        match handler.resume(timer, now, arg.take()) {
            HandleRequestResult::Io(StreamIo::Read(Err(buffer))) => match chunks.next() {
                Some(chunk) => arg = Some(read_outcome(buffer, chunk)),
                None => arg = Some(read_outcome(buffer, b"")),
            },
            HandleRequestResult::Io(StreamIo::Write(Err(bytes))) => {
                written = bytes.clone();
                arg = Some(write_outcome(bytes));
            }
            other => return (other, written),
        }
    }
}

/// Drives a client exchange: the request it writes is returned, and the
/// `chunks` are handed back as reads.
fn exchange(
    mut step: impl FnMut(Option<StreamIo>) -> SendRequestResult,
    chunks: &[&[u8]],
) -> (SendRequestResult, Vec<u8>) {
    let mut arg = None;
    let mut chunks = chunks.iter();
    let mut written = Vec::new();
    loop {
        match step(arg.take()) {
            SendRequestResult::Io(StreamIo::Write(Err(bytes))) => {
                written = bytes.clone();
                arg = Some(write_outcome(bytes));
            }
            SendRequestResult::Io(StreamIo::Read(Err(buffer))) => match chunks.next() {
                Some(chunk) => arg = Some(read_outcome(buffer, chunk)),
                None => arg = Some(read_outcome(buffer, b"")),
            },
            other => return (other, written),
        }
    }
}

#[test]
fn request_wire_forms() {
    assert_eq!(Request::Start.to_vec(), b"\"start\"\n".to_vec());
    assert_eq!(Request::Get.to_vec(), b"\"get\"\n".to_vec());
    assert_eq!(Request::SetDuration(21).to_vec(), b"{\"set\":21}\n".to_vec());
    assert_eq!(Request::SetDuration(0).to_vec(), b"{\"set\":0}\n".to_vec());
    assert_eq!(Request::Pause.to_vec(), b"\"pause\"\n".to_vec());
    assert_eq!(Request::Resume.to_vec(), b"\"resume\"\n".to_vec());
    assert_eq!(Request::Stop.to_vec(), b"\"stop\"\n".to_vec());
}

#[test]
fn request_decoding() {
    assert_eq!(Request::from_json(b"\"start\""), Some(Request::Start));
    assert_eq!(Request::from_json(b"\"stop\""), Some(Request::Stop));
    assert_eq!(Request::from_json(b"{\"set\":1234}"), Some(Request::SetDuration(1234)));
    assert_eq!(
        Request::from_json(b"{\"set\":18446744073709551615}"),
        Some(Request::SetDuration(18446744073709551615))
    );
    assert_eq!(Request::from_json(b"{\"set\":18446744073709551616}"), None);
    assert_eq!(Request::from_json(b"{\"set\":012}"), None);
    assert_eq!(Request::from_json(b"{\"set\":}"), None);
    assert_eq!(Request::from_json(b"{\"set\":1a}"), None);
    assert_eq!(Request::from_json(b"\"begin\""), None);
    assert_eq!(Request::from_json(b""), None);
}

#[test]
fn request_round_trip() {
    for request in [
        Request::Start,
        Request::Get,
        Request::SetDuration(7),
        Request::SetDuration(usize::MAX),
        Request::Pause,
        Request::Resume,
        Request::Stop,
    ] {
        let bytes = request.to_vec();
        assert_eq!(Request::from_json(&bytes[..bytes.len() - 1]), Some(request));
    }
}

#[test]
fn response_wire_forms() {
    assert_eq!(Response::Done.to_vec(), b"\"ok\"\n".to_vec());
    let mut timer = testing_timer();
    timer.start(10);
    timer.set(118);
    timer.pause(12);
    let bytes = Response::Timer(timer).to_vec();
    let expected = [
        "{\"timer\":{\"config\":{\"cycles\":[{\"name\":\"work\",\"duration\":120},",
        "{\"name\":\"rest\",\"duration\":30}],\"cycles-count\":\"infinite\"},",
        "\"state\":\"paused\",\"cycle\":{\"name\":\"work\",\"duration\":118},",
        "\"cycles-count\":\"infinite\",\"elapsed\":2}}\n",
    ]
    .join("");
    assert_eq!(String::from_utf8(bytes).unwrap(), expected);
}

#[test]
fn response_escapes_names() {
    let timer = Timer::new(TimerConfig {
        cycles: TimerCycles::from(vec![TimerCycle::new("a \"b\"\n", 5)]),
        cycles_count: TimerLoop::Fixed(4),
    });
    let bytes = Response::Timer(timer).to_vec();
    let text = String::from_utf8(bytes).unwrap();
    assert!(text.contains("{\"name\":\"a \\\"b\\\"\\n\",\"duration\":5}"));
    assert!(text.contains("\"cycles-count\":{\"fixed\":4}"));
    assert_eq!(text.matches('\n').count(), 1);
}

#[test]
fn server_starts_timer_from_split_request() {
    let mut timer = testing_timer();
    let (result, written) = serve(&mut timer, 7, &[b"\"st", b"a", b"rt\"\n"]);
    match result {
        HandleRequestResult::Done(events) => assert_eq!(
            events,
            vec![TimerEvent::Started, TimerEvent::Began(TimerCycle::new("work", 120))]
        ),
        _ => panic!("the exchange did not complete"),
    }
    assert_eq!(written, b"\"ok\"\n".to_vec());
    assert_eq!(timer.state, TimerState::Running);
    assert_eq!(timer.started_at, Some(7));
}

#[test]
fn server_split_and_whole_requests_agree() {
    let bytes = Request::SetDuration(4321).to_vec();
    for split in 1..bytes.len() {
        let mut whole = testing_timer();
        let (_, whole_written) = serve(&mut whole, 0, &[&bytes]);
        let mut parts = testing_timer();
        let (result, parts_written) = serve(&mut parts, 0, &[&bytes[..split], &bytes[split..]]);
        assert!(matches!(result, HandleRequestResult::Done(_)));
        assert_eq!(whole_written, parts_written);
        assert_eq!(whole.cycle, parts.cycle);
        assert_eq!(parts.cycle, TimerCycle::new("work", 4321));
    }
}

#[test]
fn server_collects_pause_events() {
    let mut timer = testing_timer();
    timer.start(0);
    let (result, _) = serve(&mut timer, 3, &[b"\"pause\"\n"]);
    match result {
        HandleRequestResult::Done(events) => {
            assert_eq!(events, vec![TimerEvent::Paused(TimerCycle::new("work", 120))])
        }
        _ => panic!("the exchange did not complete"),
    }
    assert_eq!(timer.state, TimerState::Paused);
    assert_eq!(timer.elapsed, 3);
}

#[test]
fn server_get_sends_snapshot() {
    let mut timer = testing_timer();
    let (result, written) = serve(&mut timer, 0, &[b"\"get\"\n"]);
    assert!(matches!(result, HandleRequestResult::Done(ref events) if events.is_empty()));
    assert_eq!(written, Response::Timer(testing_timer()).to_vec());
}

#[test]
fn server_eof_before_newline_leaves_timer() {
    let mut timer = testing_timer();
    let (result, written) = serve(&mut timer, 0, &[b"\"sta"]);
    assert!(matches!(result, HandleRequestResult::Failed(HandleRequestError::Eof)));
    assert!(written.is_empty());
    assert_eq!(timer.state, TimerState::Stopped);
    assert_eq!(timer.started_at, None);
}

#[test]
fn server_rejects_malformed_request() {
    let mut timer = testing_timer();
    let (result, written) = serve(&mut timer, 0, &[b"\"launch\"\n"]);
    assert!(matches!(result, HandleRequestResult::Failed(HandleRequestError::Decode)));
    assert!(written.is_empty());
    assert_eq!(timer.state, TimerState::Stopped);
}

#[test]
fn server_refuses_write_outcome_while_receiving() {
    let mut timer = testing_timer();
    let mut handler = HandleRequest::new();
    assert!(matches!(
        handler.resume(&mut timer, 0, None),
        HandleRequestResult::Io(StreamIo::Read(Err(_)))
    ));
    let result = handler.resume(&mut timer, 0, Some(write_outcome(b"x".to_vec())));
    assert!(matches!(result, HandleRequestResult::Failed(HandleRequestError::Read(_))));
}

#[test]
fn client_sends_request_and_returns_payload() {
    let mut start = StartTimer::new();
    let (result, written) = exchange(|arg| start.resume(arg), &[b"\"o", b"k\"\n"]);
    assert_eq!(written, b"\"start\"\n".to_vec());
    match result {
        SendRequestResult::Done(payload) => assert_eq!(payload, b"\"ok\"".to_vec()),
        _ => panic!("the exchange did not complete"),
    }
}

#[test]
fn client_drops_bytes_after_newline() {
    let mut get = GetTimer::new();
    let (result, written) = exchange(|arg| get.resume(arg), &[b"\"ok\"\ntrailing"]);
    assert_eq!(written, b"\"get\"\n".to_vec());
    assert!(matches!(result, SendRequestResult::Done(ref p) if p == b"\"ok\""));
}

#[test]
fn client_eof_while_receiving() {
    let mut send = SendRequest::new(Request::Stop);
    let (result, _) = exchange(|arg| send.resume(arg), &[b"\"o"]);
    assert!(matches!(result, SendRequestResult::Failed(SendRequestError::Eof)));
}

#[test]
fn client_eof_while_sending() {
    let mut send = SendRequest::new(Request::Resume);
    assert!(matches!(send.resume(None), SendRequestResult::Io(StreamIo::Write(Err(_)))));
    let result = send.resume(Some(StreamIo::Write(Ok(StreamOutput {
        buffer: Vec::new(),
        bytes_count: 0,
    }))));
    assert!(matches!(result, SendRequestResult::Failed(SendRequestError::Eof)));
}

#[test]
fn client_and_server_talk() {
    let mut timer = testing_timer();
    let mut start = StartTimer::new();
    let mut request = Vec::new();
    let (_, sent) = exchange(|arg| start.resume(arg), &[b"\"ok\"\n"]);
    request.extend(sent);
    let (result, response) = serve(&mut timer, 1, &[&request]);
    assert!(matches!(result, HandleRequestResult::Done(_)));
    assert_eq!(response, b"\"ok\"\n".to_vec());
    assert_eq!(timer.state, TimerState::Running);
}
