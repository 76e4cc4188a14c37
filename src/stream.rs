//! The byte-stream building blocks the request state machines are made of:
//! the I/O descriptors, read and write steps of `io_stream`, and the search
//! for the message delimiter.

use vstd::prelude::*;

use io_stream::coroutines::read::{ReadStream, ReadStreamError, ReadStreamResult};
use io_stream::coroutines::write::{WriteStream, WriteStreamError, WriteStreamResult};
use io_stream::io::{StreamIo, StreamOutput};

verus! {

/// What a read or write reported: the buffer and how many bytes of it were
/// read or written.
#[verifier::external_type_specification]
pub struct ExStreamOutput(StreamOutput);

/// An I/O descriptor: `Err` holds a request (a buffer to read into, bytes to
/// write), `Ok` the outcome reported by the stream driver.
#[verifier::external_type_specification]
pub struct ExStreamIo(StreamIo);

#[verifier::external_type_specification]
#[verifier::external_body]
pub struct ExReadStream(ReadStream);

#[verifier::external_type_specification]
#[verifier::external_body]
pub struct ExReadStreamError(ReadStreamError);

#[verifier::external_type_specification]
pub struct ExReadStreamResult(ReadStreamResult);

#[verifier::external_type_specification]
#[verifier::external_body]
pub struct ExWriteStream(WriteStream);

#[verifier::external_type_specification]
#[verifier::external_body]
pub struct ExWriteStreamError(WriteStreamError);

#[verifier::external_type_specification]
pub struct ExWriteStreamResult(WriteStreamResult);

/// The bytes a write step still has to hand out.
pub uninterp spec fn pending_bytes(w: WriteStream) -> Seq<u8>;

/// Relies on `ReadStream::new`: a read step with a default-sized buffer.
pub assume_specification[ ReadStream::new ]() -> ReadStream;

/// Relies on `ReadStream::replace`: the buffer is handed back for the next
/// read; nothing observable changes.
pub assume_specification[ ReadStream::replace ](read: &mut ReadStream, buffer: Vec<u8>);

/// Relies on `ReadStream::resume`: without an argument it asks for a read;
/// a read request is passed back as it is; a read outcome of zero bytes is
/// the end of the stream, any other is the result; a write descriptor is
/// refused.
pub assume_specification[ ReadStream::resume ](
    read: &mut ReadStream,
    arg: Option<StreamIo>,
) -> (r: ReadStreamResult)
    ensures
        match arg {
            None => r matches ReadStreamResult::Io(StreamIo::Read(Err(_))),
            Some(StreamIo::Read(Err(buffer))) => r == ReadStreamResult::Io(
                StreamIo::Read(Err(buffer)),
            ),
            Some(StreamIo::Read(Ok(output))) => if output.bytes_count == 0 {
                r is Eof
            } else {
                r == ReadStreamResult::Ok(output)
            },
            Some(StreamIo::Write(_)) => r is Err,
        },
;

/// Relies on `WriteStream::new`: a write step that will hand out `bytes`.
pub assume_specification[ WriteStream::new ](bytes: Vec<u8>) -> (w: WriteStream)
    ensures
        pending_bytes(w) == bytes@,
;

/// Relies on `WriteStream::resume`: without an argument it asks for its
/// bytes to be written and keeps none; a write request is passed back as it
/// is; a write outcome of zero bytes is the end of the stream, any other is
/// the result; a read descriptor is refused.
pub assume_specification[ WriteStream::resume ](
    write: &mut WriteStream,
    arg: Option<StreamIo>,
) -> (r: WriteStreamResult)
    ensures
        match arg {
            None => {
                &&& r matches WriteStreamResult::Io(StreamIo::Write(Err(bytes)))
                    && bytes@ == pending_bytes(*old(write))
                &&& pending_bytes(*final(write)) == Seq::<u8>::empty()
            },
            Some(StreamIo::Write(Err(bytes))) => r == WriteStreamResult::Io(
                StreamIo::Write(Err(bytes)),
            ),
            Some(StreamIo::Write(Ok(output))) => if output.bytes_count == 0 {
                r is Eof
            } else {
                r == WriteStreamResult::Ok(output)
            },
            Some(StreamIo::Read(_)) => r is Err,
        },
;

/// The delimiter that ends every message.
pub const NEWLINE: u8 = 10;

/// Relies on `memchr::memrchr`: the index of the last occurrence of the
/// byte, or `None` when it does not occur.
pub assume_specification[ memchr::memrchr ](needle: u8, haystack: &[u8]) -> (r: Option<usize>)
    ensures
        match r {
            Some(i) => {
                &&& i < haystack@.len()
                &&& haystack@[i as int] == needle
                &&& forall|j: int| i < j < haystack@.len() ==> haystack@[j] != needle
            },
            None => forall|j: int| 0 <= j < haystack@.len() ==> haystack@[j] != needle,
        },
;

/// No byte is a newline.
#[verifier::opaque]
pub open spec fn newline_free(b: Seq<u8>) -> bool {
    forall|i: int| 0 <= i < b.len() ==> b[i] != NEWLINE
}

/// Bytes without a newline joined together hold no newline.
pub broadcast proof fn lemma_newline_free_concat(a: Seq<u8>, b: Seq<u8>)
    requires
        newline_free(a),
        newline_free(b),
    ensures
        #[trigger] newline_free(a + b),
{
    reveal(newline_free);
    assert forall|i: int| 0 <= i < (a + b).len() implies (a + b)[i] != NEWLINE by {
        if i >= a.len() {
            assert((a + b)[i] == b[i - a.len()]);
        }
    }
}

} // verus!
