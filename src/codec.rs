//! The wire format: every message is one JSON value followed by a single
//! newline byte.
//!
//! Requests are `"start"`, `"get"`, `{"set":<n>}`, `"pause"`, `"resume"` and
//! `"stop"`, written compactly. Responses are `"ok"` and
//! `{"timer":<snapshot>}`.

use vstd::prelude::*;
use vstd::string::StringSliceAdditionalSpecFns;

use crate::stream::{lemma_newline_free_concat, newline_free, NEWLINE};
use crate::timer::{Timer, TimerConfig, TimerCycle, TimerLoop, TimerState};

verus! {

broadcast use vstd::string::is_ascii_spec_bytes;

/// A client request.
#[derive(Clone, Copy, Debug, PartialEq, Eq, Structural)]
pub enum Request {
    /// Start the timer on its first cycle.
    Start,
    /// Ask for a snapshot of the timer.
    Get,
    /// Overwrite the remaining time of the current cycle.
    SetDuration(usize),
    /// Freeze the timer.
    Pause,
    /// Set a paused timer running again.
    Resume,
    /// Stop the timer and reset it.
    Stop,
}

/// A server response.
#[derive(Clone, Debug)]
pub enum Response {
    /// The request was carried out.
    Done,
    /// A snapshot of the timer.
    Timer(Timer),
}

/// The decimal digits of `n`, most significant first, without leading
/// zeros.
pub open spec fn decimal(n: nat) -> Seq<u8>
    decreases n,
{
    if n < 10 {
        seq![(48 + n) as u8]
    } else {
        decimal(n / 10).push((48 + n % 10) as u8)
    }
}

/// The number that the digits `d` continue from `acc`, if every byte is a
/// digit and every step stays within `usize`.
pub open spec fn parse_digits(d: Seq<u8>, acc: int) -> Option<usize>
    decreases d.len(),
{
    if d.len() == 0 {
        Some(acc as usize)
    } else if !(48 <= d[0] <= 57) {
        None
    } else if acc * 10 + (d[0] - 48) > usize::MAX {
        None
    } else {
        parse_digits(d.drop_first(), acc * 10 + (d[0] - 48))
    }
}

/// The number written by `d`: a non-empty run of digits without a leading
/// zero whose value fits in a `usize`.
pub open spec fn number_of(d: Seq<u8>) -> Option<usize> {
    if d.len() == 0 || (d.len() > 1 && d[0] == 48) {
        None
    } else {
        parse_digits(d, 0)
    }
}

/// The bytes of a request on the wire, without the newline.
pub open spec fn request_json(r: Request) -> Seq<u8> {
    match r {
        Request::Start => "\"start\"".spec_bytes(),
        Request::Get => "\"get\"".spec_bytes(),
        Request::SetDuration(n) => "{\"set\":".spec_bytes() + decimal(n as nat) + "}".spec_bytes(),
        Request::Pause => "\"pause\"".spec_bytes(),
        Request::Resume => "\"resume\"".spec_bytes(),
        Request::Stop => "\"stop\"".spec_bytes(),
    }
}

/// The request that `b` writes, if any.
pub open spec fn request_from_json(b: Seq<u8>) -> Option<Request> {
    if b == "\"start\"".spec_bytes() {
        Some(Request::Start)
    } else if b == "\"get\"".spec_bytes() {
        Some(Request::Get)
    } else if b == "\"pause\"".spec_bytes() {
        Some(Request::Pause)
    } else if b == "\"resume\"".spec_bytes() {
        Some(Request::Resume)
    } else if b == "\"stop\"".spec_bytes() {
        Some(Request::Stop)
    } else if b.len() >= 8 && b.take(7) == "{\"set\":".spec_bytes() && b.last() == 125 {
        match number_of(b.subrange(7, b.len() - 1)) {
            Some(n) => Some(Request::SetDuration(n)),
            None => None,
        }
    } else {
        None
    }
}

/// Appends the bytes of `text`.
fn push_text(out: &mut Vec<u8>, text: &str)
    ensures
        final(out)@ == old(out)@ + text.spec_bytes(),
{
    out.extend_from_slice(text.as_bytes());
}

/// Appends the decimal digits of `n`.
fn push_decimal(out: &mut Vec<u8>, n: usize)
    ensures
        final(out)@ == old(out)@ + decimal(n as nat),
    decreases n,
{
    if n >= 10 {
        push_decimal(out, n / 10);
    }
    out.push(48 + (n % 10) as u8);
    proof {
        if n >= 10 {
            assert(final(out)@ =~= old(out)@ + decimal(n as nat));
        } else {
            assert(final(out)@ =~= old(out)@ + decimal(n as nat));
        }
    }
}

/// Whether `b[from..to]` holds exactly the bytes of `text`.
fn bytes_equal(b: &[u8], from: usize, to: usize, text: &str) -> (r: bool)
    requires
        from <= to <= b@.len(),
    ensures
        r == (b@.subrange(from as int, to as int) == text.spec_bytes()),
{
    let t = text.as_bytes();
    if to - from != t.len() {
        proof {
            assert(b@.subrange(from as int, to as int).len() != text.spec_bytes().len());
        }
        return false;
    }
    let mut i: usize = 0;
    while i < t.len()
        invariant
            to - from == t@.len(),
            from <= to <= b@.len(),
            t@ == text.spec_bytes(),
            i <= t@.len(),
            forall|j: int| 0 <= j < i ==> b@[from + j] == t@[j],
        decreases t@.len() - i,
    {
        if b[from + i] != t[i] {
            proof {
                assert(b@.subrange(from as int, to as int)[i as int] != t@[i as int]);
            }
            return false;
        }
        i = i + 1;
    }
    proof {
        assert(b@.subrange(from as int, to as int) =~= t@);
    }
    true
}

/// The number written by `b[from..to]`, if it writes one.
fn parse_number(b: &[u8], from: usize, to: usize) -> (r: Option<usize>)
    requires
        from <= to <= b@.len(),
    ensures
        r == number_of(b@.subrange(from as int, to as int)),
{
    let ghost d = b@.subrange(from as int, to as int);
    if from == to || (to - from > 1 && b[from] == 48) {
        return None;
    }
    let mut v: usize = 0;
    let mut i: usize = from;
    while i < to
        invariant
            from <= i <= to <= b@.len(),
            d == b@.subrange(from as int, to as int),
            parse_digits(d, 0) == parse_digits(b@.subrange(i as int, to as int), v as int),
        decreases to - i,
    {
        let ghost rest = b@.subrange(i as int, to as int);
        assert(rest.drop_first() =~= b@.subrange(i + 1, to as int));
        let c = b[i];
        if c < 48 || c > 57 {
            return None;
        }
        let digit = (c - 48) as usize;
        if v > (usize::MAX - digit) / 10 {
            assert(v * 10 + digit > usize::MAX) by (nonlinear_arith)
                requires
                    v > (usize::MAX - digit) / 10,
                    digit <= 9,
            ;
            return None;
        }
        assert(v * 10 + digit <= usize::MAX) by (nonlinear_arith)
            requires
                v <= (usize::MAX - digit) / 10,
                digit <= 9,
        ;
        v = v * 10 + digit;
        i = i + 1;
    }
    Some(v)
}

impl Request {
    /// The bytes of the request on the wire, newline included.
    pub fn to_vec(&self) -> (r: Vec<u8>)
        ensures
            r@ == request_json(*self).push(NEWLINE),
    {
        let mut out: Vec<u8> = Vec::new();
        match self {
            Request::Start => push_text(&mut out, "\"start\""),
            Request::Get => push_text(&mut out, "\"get\""),
            Request::SetDuration(n) => {
                push_text(&mut out, "{\"set\":");
                push_decimal(&mut out, *n);
                push_text(&mut out, "}");
            },
            Request::Pause => push_text(&mut out, "\"pause\""),
            Request::Resume => push_text(&mut out, "\"resume\""),
            Request::Stop => push_text(&mut out, "\"stop\""),
        }
        out.push(NEWLINE);
        proof {
            assert(out@ =~= request_json(*self).push(NEWLINE));
        }
        out
    }

    /// The request written by `bytes` (a message without its newline), if
    /// any.
    pub fn from_json(bytes: &[u8]) -> (r: Option<Request>)
        ensures
            r == request_from_json(bytes@),
    {
        let n = bytes.len();
        proof {
            assert(bytes@.subrange(0, n as int) =~= bytes@);
        }
        if bytes_equal(bytes, 0, n, "\"start\"") {
            Some(Request::Start)
        } else if bytes_equal(bytes, 0, n, "\"get\"") {
            Some(Request::Get)
        } else if bytes_equal(bytes, 0, n, "\"pause\"") {
            Some(Request::Pause)
        } else if bytes_equal(bytes, 0, n, "\"resume\"") {
            Some(Request::Resume)
        } else if bytes_equal(bytes, 0, n, "\"stop\"") {
            Some(Request::Stop)
        } else if n >= 8 && bytes_equal(bytes, 0, 7, "{\"set\":") && bytes[n - 1] == 125 {
            proof {
                assert(bytes@.take(7) =~= bytes@.subrange(0, 7));
            }
            match parse_number(bytes, 7, n - 1) {
                Some(v) => Some(Request::SetDuration(v)),
                None => None,
            }
        } else {
            proof {
                if n >= 8 {
                    assert(bytes@.take(7) =~= bytes@.subrange(0, 7));
                }
            }
            None
        }
    }
}

/// A digit appended to a run of digits continues the number parsed so far.
proof fn lemma_parse_push(d: Seq<u8>, acc: int, x: u8)
    requires
        0 <= acc <= usize::MAX,
    ensures
        parse_digits(d.push(x), acc) == match parse_digits(d, acc) {
            Some(v) => if 48 <= x <= 57 && v * 10 + (x - 48) <= usize::MAX {
                Some((v * 10 + (x - 48)) as usize)
            } else {
                None
            },
            None => None,
        },
    decreases d.len(),
{
    if d.len() == 0 {
        assert(d.push(x)[0] == x);
        assert(d.push(x).drop_first() =~= Seq::<u8>::empty());
        assert(parse_digits(d, acc) == Some(acc as usize));
        if 48 <= x <= 57 && acc * 10 + (x - 48) <= usize::MAX {
            assert(parse_digits(Seq::<u8>::empty(), acc * 10 + (x - 48)) == Some(
                (acc * 10 + (x - 48)) as usize,
            ));
        }
    } else {
        assert(d.push(x)[0] == d[0]);
        assert(d.push(x).drop_first() =~= d.drop_first().push(x));
        if 48 <= d[0] <= 57 && acc * 10 + (d[0] - 48) <= usize::MAX {
            lemma_parse_push(d.drop_first(), acc * 10 + (d[0] - 48), x);
        }
    }
}

/// The decimal digits of a number parse back to it and have no leading
/// zero.
proof fn lemma_decimal_parses(n: usize)
    ensures
        number_of(decimal(n as nat)) == Some(n),
        forall|i: int| 0 <= i < decimal(n as nat).len() ==> 48 <= #[trigger] decimal(
            n as nat,
        )[i] <= 57,
        n >= 1 ==> decimal(n as nat)[0] != 48,
    decreases n,
{
    if n >= 10 {
        let m = (n / 10) as usize;
        lemma_decimal_parses(m);
        let d = decimal(m as nat);
        let x = (48 + n % 10) as u8;
        lemma_parse_push(d, 0, x);
        assert(m * 10 + (n % 10) == n);
        assert(decimal(n as nat) == d.push(x));
        assert(d.push(x)[0] == d[0]);
        assert(parse_digits(d, 0) == Some(m));
        assert(parse_digits(d.push(x), 0) == Some(n));
        assert forall|i: int| 0 <= i < d.push(x).len() implies 48 <= #[trigger] d.push(x)[i]
            <= 57 by {
            if i < d.len() {
                assert(d.push(x)[i] == d[i]);
            }
        }
    } else {
        let d = seq![(48 + n) as u8];
        assert(d.drop_first() =~= Seq::<u8>::empty());
        assert(parse_digits(d.drop_first(), n as int) == Some(n));
        assert(parse_digits(d, 0) == Some(n));
    }
}

/// The bytes of the fixed words of the request grammar.
proof fn lemma_request_words()
    ensures
        "\"start\"".spec_bytes() =~= seq![34u8, 115, 116, 97, 114, 116, 34],
        "\"get\"".spec_bytes() =~= seq![34u8, 103, 101, 116, 34],
        "\"pause\"".spec_bytes() =~= seq![34u8, 112, 97, 117, 115, 101, 34],
        "\"resume\"".spec_bytes() =~= seq![34u8, 114, 101, 115, 117, 109, 101, 34],
        "\"stop\"".spec_bytes() =~= seq![34u8, 115, 116, 111, 112, 34],
        "{\"set\":".spec_bytes() =~= seq![123u8, 34, 115, 101, 116, 34, 58],
        "}".spec_bytes() =~= seq![125u8],
{
    reveal_strlit("\"start\"");
    reveal_strlit("\"get\"");
    reveal_strlit("\"pause\"");
    reveal_strlit("\"resume\"");
    reveal_strlit("\"stop\"");
    reveal_strlit("{\"set\":");
    reveal_strlit("}");
    assert(vstd::string::is_ascii("\"start\""));
    assert(vstd::string::is_ascii("\"get\""));
    assert(vstd::string::is_ascii("\"pause\""));
    assert(vstd::string::is_ascii("\"resume\""));
    assert(vstd::string::is_ascii("\"stop\""));
    assert(vstd::string::is_ascii("{\"set\":"));
    assert(vstd::string::is_ascii("}"));
}

/// Decoding the wire form of a request gives the request back, and the
/// wire form holds no newline.
pub proof fn lemma_request_round_trip(r: Request)
    ensures
        request_from_json(request_json(r)) == Some(r),
        forall|i: int| 0 <= i < request_json(r).len() ==> #[trigger] request_json(r)[i] != NEWLINE,
{
    lemma_request_words();
    if let Request::SetDuration(n) = r {
        lemma_decimal_parses(n);
        let b = request_json(r);
        let d = decimal(n as nat);
        assert(b.take(7) =~= "{\"set\":".spec_bytes());
        assert(b.subrange(7, b.len() - 1) =~= d);
        assert(b[0] == 123u8);
        assert forall|i: int| 0 <= i < b.len() implies #[trigger] b[i] != NEWLINE by {
            if 7 <= i < b.len() - 1 {
                assert(b[i] == d[i - 7]);
            }
        }
    }
}

/// The index of the last newline in `c`, or -1 when it holds none.
pub open spec fn last_newline(c: Seq<u8>) -> int
    decreases c.len(),
{
    if c.len() == 0 {
        -1
    } else if c.last() == NEWLINE {
        c.len() - 1
    } else {
        last_newline(c.drop_last())
    }
}

/// Receiving chunk `c` after the bytes `acc`: whether the message is now
/// complete, and the bytes held afterwards. A chunk with a newline completes
/// the message with what stands before its last newline; what follows that
/// newline is dropped. A chunk without one is added in full.
pub open spec fn receive_chunk(acc: Seq<u8>, c: Seq<u8>) -> (bool, Seq<u8>) {
    if last_newline(c) >= 0 {
        (true, acc + c.take(last_newline(c)))
    } else {
        (false, acc + c)
    }
}

/// The message received when `chunks` arrive one after another after the
/// bytes `acc`, if one completes.
pub open spec fn feed(acc: Seq<u8>, chunks: Seq<Seq<u8>>) -> Option<Seq<u8>>
    decreases chunks.len(),
{
    if chunks.len() == 0 {
        None
    } else if receive_chunk(acc, chunks[0]).0 {
        Some(receive_chunk(acc, chunks[0]).1)
    } else {
        feed(receive_chunk(acc, chunks[0]).1, chunks.drop_first())
    }
}

/// The chunks put back together.
pub open spec fn joined(chunks: Seq<Seq<u8>>) -> Seq<u8>
    decreases chunks.len(),
{
    if chunks.len() == 0 {
        Seq::empty()
    } else {
        chunks[0] + joined(chunks.drop_first())
    }
}

/// Bytes without a newline have no last newline.
proof fn lemma_no_newline(c: Seq<u8>)
    requires
        forall|j: int| 0 <= j < c.len() ==> c[j] != NEWLINE,
    ensures
        last_newline(c) == -1,
    decreases c.len(),
{
    if c.len() > 0 {
        lemma_no_newline(c.drop_last());
    }
}

/// The last newline found by a search from the end is `last_newline`.
pub proof fn lemma_last_newline_found(c: Seq<u8>, found: Option<usize>)
    requires
        match found {
            Some(i) => {
                &&& i < c.len()
                &&& c[i as int] == NEWLINE
                &&& forall|j: int| i < j < c.len() ==> c[j] != NEWLINE
            },
            None => forall|j: int| 0 <= j < c.len() ==> c[j] != NEWLINE,
        },
    ensures
        match found {
            Some(i) => last_newline(c) == i,
            None => last_newline(c) == -1,
        },
    decreases c.len(),
{
    match found {
        Some(i) => {
            if c.last() != NEWLINE {
                lemma_last_newline_found(c.drop_last(), found);
            }
        },
        None => lemma_no_newline(c),
    }
}

proof fn lemma_feed(acc: Seq<u8>, chunks: Seq<Seq<u8>>, msg: Seq<u8>)
    requires
        forall|j: int| 0 <= j < msg.len() ==> msg[j] != NEWLINE,
        acc + joined(chunks) == msg.push(NEWLINE),
        acc.len() <= msg.len(),
    ensures
        feed(acc, chunks) == Some(msg),
    decreases chunks.len(),
{
    let whole = msg.push(NEWLINE);
    if chunks.len() == 0 {
        assert((acc + joined(chunks)).len() == acc.len());
    } else {
        let c = chunks[0];
        let rest = chunks.drop_first();
        assert(acc + joined(chunks) =~= (acc + c) + joined(rest));
        if acc.len() + c.len() <= msg.len() {
            assert forall|j: int| 0 <= j < c.len() implies c[j] != NEWLINE by {
                assert(c[j] == whole[acc.len() + j]);
            }
            lemma_no_newline(c);
            lemma_feed(acc + c, rest, msg);
        } else {
            assert(c.len() == msg.len() + 1 - acc.len());
            assert(c.last() == whole[msg.len() as int]);
            let all = (acc + c) + joined(rest);
            assert forall|j: int| 0 <= j < msg.len() implies (acc + c.take(c.len() - 1))[j]
                == msg[j] by {
                assert(all[j] == whole[j]);
                if j >= acc.len() {
                    assert(all[j] == c[j - acc.len()]);
                }
            }
            assert(acc + c.take(c.len() - 1) =~= msg);
        }
    }
}

/// A message without a newline, sent with its newline, is received whole
/// however the bytes are split into chunks, and the same as when they come
/// in one chunk.
pub proof fn lemma_framing_any_split(msg: Seq<u8>, chunks: Seq<Seq<u8>>)
    requires
        forall|j: int| 0 <= j < msg.len() ==> msg[j] != NEWLINE,
        joined(chunks) == msg.push(NEWLINE),
    ensures
        feed(Seq::empty(), chunks) == Some(msg),
        feed(Seq::empty(), seq![msg.push(NEWLINE)]) == Some(msg),
{
    assert(Seq::<u8>::empty() + joined(chunks) =~= joined(chunks));
    lemma_feed(Seq::empty(), chunks, msg);
    let one = seq![msg.push(NEWLINE)];
    assert(one.drop_first() =~= Seq::<Seq<u8>>::empty());
    assert(joined(one.drop_first()) =~= Seq::<u8>::empty());
    assert(joined(one) =~= msg.push(NEWLINE));
    assert(Seq::<u8>::empty() + joined(one) =~= joined(one));
    lemma_feed(Seq::empty(), one, msg);
}

/// The bytes of a request, split into chunks in any way and received one
/// chunk after another, decode to that request.
pub proof fn lemma_request_any_split(r: Request, chunks: Seq<Seq<u8>>)
    requires
        joined(chunks) == request_json(r).push(NEWLINE),
    ensures
        feed(Seq::empty(), chunks) == Some(request_json(r)),
        request_from_json(request_json(r)) == Some(r),
{
    lemma_request_round_trip(r);
    lemma_framing_any_split(request_json(r), chunks);
}

/// The JSON string literal of a text: quotes, escapes and UTF-8 bytes.
pub uninterp spec fn json_string_of(text: Seq<char>) -> Seq<u8>;

/// Relies on `serde_json::to_vec` on a `str`: the JSON string literal of the
/// text, in which control bytes, the newline among them, are escaped.
/// Serialising a string into a vector cannot fail.
#[verifier::external_body]
fn json_string(text: &str) -> (r: Vec<u8>)
    ensures
        r@ == json_string_of(text@),
        newline_free(r@),
{
    serde_json::to_vec(text).unwrap_or_default()
}

/// The wire form of a loop setting.
pub open spec fn loop_json(l: TimerLoop) -> Seq<u8> {
    match l {
        TimerLoop::Infinite => "\"infinite\"".spec_bytes(),
        TimerLoop::Fixed(n) => "{\"fixed\":".spec_bytes() + decimal(n as nat) + "}".spec_bytes(),
    }
}

/// The wire form of a timer state.
pub open spec fn state_json(s: TimerState) -> Seq<u8> {
    match s {
        TimerState::Running => "\"running\"".spec_bytes(),
        TimerState::Paused => "\"paused\"".spec_bytes(),
        TimerState::Stopped => "\"stopped\"".spec_bytes(),
    }
}

/// The wire form of a cycle.
pub open spec fn cycle_json(c: TimerCycle) -> Seq<u8> {
    "{\"name\":".spec_bytes() + json_string_of(c.name@) + ",\"duration\":".spec_bytes() + decimal(
        c.duration as nat,
    ) + "}".spec_bytes()
}

/// The wire forms of cycles, separated by commas.
pub open spec fn cycles_json(cycles: Seq<TimerCycle>) -> Seq<u8>
    decreases cycles.len(),
{
    if cycles.len() == 0 {
        Seq::empty()
    } else if cycles.len() == 1 {
        cycle_json(cycles[0])
    } else {
        cycles_json(cycles.drop_last()) + ",".spec_bytes() + cycle_json(cycles.last())
    }
}

/// The wire form of a configuration.
pub open spec fn config_json(c: TimerConfig) -> Seq<u8> {
    "{\"cycles\":[".spec_bytes() + cycles_json(c.cycles.view()) + "],\"cycles-count\":".spec_bytes()
        + loop_json(c.cycles_count) + "}".spec_bytes()
}

/// The wire form of a timer snapshot. The clock anchor is not part of it.
pub open spec fn timer_json(t: Timer) -> Seq<u8> {
    "{\"config\":".spec_bytes() + config_json(t.config) + ",\"state\":".spec_bytes() + state_json(
        t.state,
    ) + ",\"cycle\":".spec_bytes() + cycle_json(t.cycle) + ",\"cycles-count\":".spec_bytes()
        + loop_json(t.cycles_count) + ",\"elapsed\":".spec_bytes() + decimal(t.elapsed as nat)
        + "}".spec_bytes()
}

/// The bytes of a response on the wire, without the newline.
pub open spec fn response_json(r: Response) -> Seq<u8> {
    match r {
        Response::Done => "\"ok\"".spec_bytes(),
        Response::Timer(t) => "{\"timer\":".spec_bytes() + timer_json(t) + "}".spec_bytes(),
    }
}

fn push_loop(out: &mut Vec<u8>, l: TimerLoop)
    ensures
        final(out)@ == old(out)@ + loop_json(l),
{
    match l {
        TimerLoop::Infinite => push_text(out, "\"infinite\""),
        TimerLoop::Fixed(n) => {
            push_text(out, "{\"fixed\":");
            push_decimal(out, n);
            push_text(out, "}");
        },
    }
    proof {
        assert(final(out)@ =~= old(out)@ + loop_json(l));
    }
}

fn push_state(out: &mut Vec<u8>, s: TimerState)
    ensures
        final(out)@ == old(out)@ + state_json(s),
{
    match s {
        TimerState::Running => push_text(out, "\"running\""),
        TimerState::Paused => push_text(out, "\"paused\""),
        TimerState::Stopped => push_text(out, "\"stopped\""),
    }
}

fn push_cycle(out: &mut Vec<u8>, c: &TimerCycle)
    ensures
        final(out)@ == old(out)@ + cycle_json(*c),
        newline_free(cycle_json(*c)),
{
    push_text(out, "{\"name\":");
    let mut name = json_string(c.name.as_str());
    out.append(&mut name);
    push_text(out, ",\"duration\":");
    push_decimal(out, c.duration);
    push_text(out, "}");
    proof {
        assert(final(out)@ =~= old(out)@ + cycle_json(*c));
        lemma_cycle_json_newline_free(*c);
    }
}

fn push_cycles(out: &mut Vec<u8>, cycles: &Vec<TimerCycle>)
    ensures
        final(out)@ == old(out)@ + cycles_json(cycles@),
        newline_free(cycles_json(cycles@)),
{
    proof {
        lemma_response_words();
    }
    let ghost start = out@;
    let mut i: usize = 0;
    proof {
        assert(cycles@.take(0) =~= Seq::<TimerCycle>::empty());
        reveal(newline_free);
    }
    while i < cycles.len()
        invariant
            i <= cycles@.len(),
            out@ == start + cycles_json(cycles@.take(i as int)),
            newline_free(cycles_json(cycles@.take(i as int))),
            newline_free(",".spec_bytes()),
        decreases cycles@.len() - i,
    {
        if i > 0 {
            push_text(out, ",");
        }
        push_cycle(out, &cycles[i]);
        proof {
            let next = cycles@.take(i + 1);
            assert(next.drop_last() =~= cycles@.take(i as int));
            if i == 0 {
                assert(cycles@.take(0) =~= Seq::<TimerCycle>::empty());
                assert(start + Seq::<u8>::empty() =~= start);
            }
            assert(next.last() == cycles@[i as int]);
            if i > 0 {
                lemma_newline_free_concat(cycles_json(cycles@.take(i as int)), ",".spec_bytes());
                lemma_newline_free_concat(
                    cycles_json(cycles@.take(i as int)) + ",".spec_bytes(),
                    cycle_json(cycles@[i as int]),
                );
            }
            assert(out@ =~= start + cycles_json(next));
        }
        i = i + 1;
    }
    proof {
        assert(cycles@.take(i as int) =~= cycles@);
    }
}

fn push_config(out: &mut Vec<u8>, c: &TimerConfig)
    ensures
        final(out)@ == old(out)@ + config_json(*c),
        newline_free(cycles_json(c.cycles.view())),
{
    let ghost s0 = out@;
    let ghost mut written = Seq::<u8>::empty();
    push_text(out, "{\"cycles\":[");
    proof {
        assert(out@ =~= s0 + (written + "{\"cycles\":[".spec_bytes()));
        written = written + "{\"cycles\":[".spec_bytes();
    }
    push_cycles(out, &c.cycles.0);
    proof {
        assert(out@ =~= s0 + (written + cycles_json(c.cycles.view())));
        written = written + cycles_json(c.cycles.view());
    }
    push_text(out, "],\"cycles-count\":");
    proof {
        assert(out@ =~= s0 + (written + "],\"cycles-count\":".spec_bytes()));
        written = written + "],\"cycles-count\":".spec_bytes();
    }
    push_loop(out, c.cycles_count);
    proof {
        assert(out@ =~= s0 + (written + loop_json(c.cycles_count)));
        written = written + loop_json(c.cycles_count);
    }
    push_text(out, "}");
    proof {
        assert(out@ =~= s0 + (written + "}".spec_bytes()));
        written = written + "}".spec_bytes();
    }
    proof {
        assert(written =~= config_json(*c));
    }
}

#[verifier::rlimit(40)]
fn push_timer(out: &mut Vec<u8>, t: &Timer)
    ensures
        final(out)@ == old(out)@ + timer_json(*t),
        newline_free(cycles_json(t.cycles())),
        newline_free(cycle_json(t.cycle)),
{
    let ghost s0 = out@;
    let ghost mut written = Seq::<u8>::empty();
    push_text(out, "{\"config\":");
    proof {
        assert(out@ =~= s0 + (written + "{\"config\":".spec_bytes()));
        written = written + "{\"config\":".spec_bytes();
    }
    push_config(out, &t.config);
    let ghost cycles_free = newline_free(cycles_json(t.cycles()));
    proof {
        assert(out@ =~= s0 + (written + config_json(t.config)));
        written = written + config_json(t.config);
    }
    push_text(out, ",\"state\":");
    proof {
        assert(out@ =~= s0 + (written + ",\"state\":".spec_bytes()));
        written = written + ",\"state\":".spec_bytes();
    }
    push_state(out, t.state);
    proof {
        assert(out@ =~= s0 + (written + state_json(t.state)));
        written = written + state_json(t.state);
    }
    push_text(out, ",\"cycle\":");
    proof {
        assert(out@ =~= s0 + (written + ",\"cycle\":".spec_bytes()));
        written = written + ",\"cycle\":".spec_bytes();
    }
    push_cycle(out, &t.cycle);
    let ghost cycle_free = newline_free(cycle_json(t.cycle));
    proof {
        assert(out@ =~= s0 + (written + cycle_json(t.cycle)));
        written = written + cycle_json(t.cycle);
    }
    push_text(out, ",\"cycles-count\":");
    proof {
        assert(out@ =~= s0 + (written + ",\"cycles-count\":".spec_bytes()));
        written = written + ",\"cycles-count\":".spec_bytes();
    }
    push_loop(out, t.cycles_count);
    proof {
        assert(out@ =~= s0 + (written + loop_json(t.cycles_count)));
        written = written + loop_json(t.cycles_count);
    }
    push_text(out, ",\"elapsed\":");
    proof {
        assert(out@ =~= s0 + (written + ",\"elapsed\":".spec_bytes()));
        written = written + ",\"elapsed\":".spec_bytes();
    }
    push_decimal(out, t.elapsed);
    proof {
        assert(out@ =~= s0 + (written + decimal(t.elapsed as nat)));
        written = written + decimal(t.elapsed as nat);
    }
    push_text(out, "}");
    proof {
        assert(out@ =~= s0 + (written + "}".spec_bytes()));
        written = written + "}".spec_bytes();
    }
    proof {
        assert(written =~= timer_json(*t));
        assert(cycles_free && cycle_free);
    }
}

impl Response {
    /// The bytes of the response on the wire, newline included.
    pub fn to_vec(&self) -> (r: Vec<u8>)
        ensures
            r@ == response_json(*self).push(NEWLINE),
            newline_free(response_json(*self)),
    {
        let mut out: Vec<u8> = Vec::new();
        match self {
            Response::Done => push_text(&mut out, "\"ok\""),
            Response::Timer(t) => {
                push_text(&mut out, "{\"timer\":");
                push_timer(&mut out, t);
                push_text(&mut out, "}");
            },
        }
        out.push(NEWLINE);
        proof {
            assert(out@ =~= response_json(*self).push(NEWLINE));
            lemma_response_words();
            if let Response::Timer(t) = self {
                lemma_timer_json_newline_free(*t);
            }
        }
        out
    }
}

/// Adds a received chunk to the bytes held so far, as `receive_chunk` says,
/// and tells whether the message is complete.
pub(crate) fn take_chunk(acc: &mut Vec<u8>, chunk: &[u8]) -> (done: bool)
    ensures
        (done, final(acc)@) == receive_chunk(old(acc)@, chunk@),
{
    let found = memchr::memrchr(NEWLINE, chunk);
    proof {
        lemma_last_newline_found(chunk@, found);
    }
    match found {
        Some(n) => {
            acc.extend_from_slice(&chunk[0..n]);
            proof {
                assert(chunk@.subrange(0, n as int) =~= chunk@.take(n as int));
            }
            true
        },
        None => {
            acc.extend_from_slice(chunk);
            false
        },
    }
}

/// The fixed words of the response grammar hold no newline.
proof fn lemma_response_words()
    ensures
        newline_free("\"infinite\"".spec_bytes()),
        newline_free("{\"fixed\":".spec_bytes()),
        newline_free("}".spec_bytes()),
        newline_free("\"running\"".spec_bytes()),
        newline_free("\"paused\"".spec_bytes()),
        newline_free("\"stopped\"".spec_bytes()),
        newline_free("{\"name\":".spec_bytes()),
        newline_free(",\"duration\":".spec_bytes()),
        newline_free(",".spec_bytes()),
        newline_free("{\"cycles\":[".spec_bytes()),
        newline_free("],\"cycles-count\":".spec_bytes()),
        newline_free("{\"config\":".spec_bytes()),
        newline_free(",\"state\":".spec_bytes()),
        newline_free(",\"cycle\":".spec_bytes()),
        newline_free(",\"cycles-count\":".spec_bytes()),
        newline_free(",\"elapsed\":".spec_bytes()),
        newline_free("\"ok\"".spec_bytes()),
        newline_free("{\"timer\":".spec_bytes()),
{
    reveal(newline_free);
    reveal_strlit("\"infinite\"");
    assert(vstd::string::is_ascii("\"infinite\""));
    reveal_strlit("{\"fixed\":");
    assert(vstd::string::is_ascii("{\"fixed\":"));
    reveal_strlit("}");
    assert(vstd::string::is_ascii("}"));
    reveal_strlit("\"running\"");
    assert(vstd::string::is_ascii("\"running\""));
    reveal_strlit("\"paused\"");
    assert(vstd::string::is_ascii("\"paused\""));
    reveal_strlit("\"stopped\"");
    assert(vstd::string::is_ascii("\"stopped\""));
    reveal_strlit("{\"name\":");
    assert(vstd::string::is_ascii("{\"name\":"));
    reveal_strlit(",\"duration\":");
    assert(vstd::string::is_ascii(",\"duration\":"));
    reveal_strlit(",");
    assert(vstd::string::is_ascii(","));
    reveal_strlit("{\"cycles\":[");
    assert(vstd::string::is_ascii("{\"cycles\":["));
    reveal_strlit("],\"cycles-count\":");
    assert(vstd::string::is_ascii("],\"cycles-count\":"));
    reveal_strlit("{\"config\":");
    assert(vstd::string::is_ascii("{\"config\":"));
    reveal_strlit(",\"state\":");
    assert(vstd::string::is_ascii(",\"state\":"));
    reveal_strlit(",\"cycle\":");
    assert(vstd::string::is_ascii(",\"cycle\":"));
    reveal_strlit(",\"cycles-count\":");
    assert(vstd::string::is_ascii(",\"cycles-count\":"));
    reveal_strlit(",\"elapsed\":");
    assert(vstd::string::is_ascii(",\"elapsed\":"));
    reveal_strlit("\"ok\"");
    assert(vstd::string::is_ascii("\"ok\""));
    reveal_strlit("{\"timer\":");
    assert(vstd::string::is_ascii("{\"timer\":"));
}

/// A cycle whose name is written without a newline is written without one.
proof fn lemma_cycle_json_newline_free(c: TimerCycle)
    requires
        newline_free(json_string_of(c.name@)),
    ensures
        newline_free(cycle_json(c)),
{
    broadcast use lemma_newline_free_concat;

    lemma_response_words();
    lemma_decimal_parses(c.duration);
    reveal(newline_free);
}

/// The wire form of a loop setting holds no newline.
proof fn lemma_loop_json_newline_free(l: TimerLoop)
    ensures
        newline_free(loop_json(l)),
{
    broadcast use lemma_newline_free_concat;

    lemma_response_words();
    if let TimerLoop::Fixed(n) = l {
        lemma_decimal_parses(n);
    }
    reveal(newline_free);
}

/// A timer snapshot whose cycles are written without a newline is written
/// without one.
proof fn lemma_timer_json_newline_free(t: Timer)
    requires
        newline_free(cycles_json(t.cycles())),
        newline_free(cycle_json(t.cycle)),
    ensures
        newline_free(timer_json(t)),
        newline_free(response_json(Response::Timer(t))),
{
    broadcast use lemma_newline_free_concat;

    lemma_response_words();
    lemma_loop_json_newline_free(t.config.cycles_count);
    lemma_loop_json_newline_free(t.cycles_count);
    lemma_decimal_parses(t.elapsed);
    reveal(newline_free);
    assert(newline_free(config_json(t.config)));
    assert(newline_free(state_json(t.state)));
}

/// The bytes of a response, split into chunks in any way and received one
/// chunk after another, give the same payload as when received at once.
/// `Response::to_vec` guarantees that the payload holds no newline.
pub proof fn lemma_response_any_split(r: Response, chunks: Seq<Seq<u8>>)
    requires
        newline_free(response_json(r)),
        joined(chunks) == response_json(r).push(NEWLINE),
    ensures
        feed(Seq::empty(), chunks) == Some(response_json(r)),
        feed(Seq::empty(), seq![response_json(r).push(NEWLINE)]) == Some(response_json(r)),
{
    reveal(newline_free);
    lemma_framing_any_split(response_json(r), chunks);
}

} // verus!
