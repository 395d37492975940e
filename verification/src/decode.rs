//! The server's reading of the client's byte stream: one message at a time,
//! path up to a zero byte, a kind byte, then the fields of that kind. The
//! server handles full files (kind 1) and deltas (kind 2); any other kind
//! ends the connection.
use vstd::prelude::*;
use vstd::utf8::{decode_utf8, encode_utf8, valid_utf8};
use crate::byte_util::{copy_range, le_bytes, le_value, lemma_le_roundtrip, read_u64_le};
use crate::wire::{delta_frame, full_file_frame, head, DELTA_FLAG, FULL_FILE_FLAG};

verus! {

/// A message the server acts on.
pub enum ServerMessage {
    /// Replace the file at `path` with `data`.
    FullFile { path: String, data: Vec<u8> },
    /// Apply a delta to the file at `path`.
    Delta { path: String, start: u64, end: u64, hash: u64, data: Vec<u8> },
}

/// The mathematical content of a `ServerMessage`.
pub enum MessageView {
    FullFile { path: Seq<char>, data: Seq<u8> },
    Delta { path: Seq<char>, start: u64, end: u64, hash: u64, data: Seq<u8> },
}

impl View for ServerMessage {
    type V = MessageView;

    open spec fn view(&self) -> MessageView {
        match self {
            ServerMessage::FullFile { path, data } => MessageView::FullFile {
                path: path@,
                data: data@,
            },
            ServerMessage::Delta { path, start, end, hash, data } => MessageView::Delta {
                path: path@,
                start: *start,
                end: *end,
                hash: *hash,
                data: data@,
            },
        }
    }
}

/// Why a message could not be read.
pub enum DecodeError {
    /// The path is not valid UTF-8.
    InvalidPath,
    /// The bytes end before the message does.
    UnexpectedEnd,
    /// The kind byte is not one the server handles.
    UnknownFlag(u8),
}

/// The index of the first zero byte, or the length when there is none.
pub open spec fn first_zero(b: Seq<u8>) -> int
    decreases b.len(),
{
    if b.len() == 0 {
        0
    } else if b[0] == 0 {
        0
    } else {
        1 + first_zero(b.drop_first())
    }
}

/// No byte of `b` is zero.
pub open spec fn zero_free(b: Seq<u8>) -> bool {
    forall|i: int| 0 <= i < b.len() ==> b[i] != 0
}

/// What the server reads from the start of `buf`: the message and the
/// number of bytes it takes, or why it cannot. Until a zero byte has
/// arrived the path is incomplete, so the bytes end too early.
pub open spec fn decode_spec(buf: Seq<u8>) -> Result<(MessageView, int), DecodeError> {
    let t = first_zero(buf);
    let path = buf.take(t);
    let at = t + 2;
    if t >= buf.len() {
        Err(DecodeError::UnexpectedEnd)
    } else if !valid_utf8(path) {
        Err(DecodeError::InvalidPath)
    } else if t + 1 >= buf.len() {
        Err(DecodeError::UnexpectedEnd)
    } else if buf[t + 1] == FULL_FILE_FLAG {
        if at + 8 > buf.len() {
            Err(DecodeError::UnexpectedEnd)
        } else {
            let n = le_value(buf.subrange(at, at + 8));
            if at + 8 + n > buf.len() {
                Err(DecodeError::UnexpectedEnd)
            } else {
                Ok(
                    (
                        MessageView::FullFile {
                            path: decode_utf8(path),
                            data: buf.subrange(at + 8, at + 8 + n),
                        },
                        at + 8 + n,
                    ),
                )
            }
        }
    } else if buf[t + 1] == DELTA_FLAG {
        if at + 32 > buf.len() {
            Err(DecodeError::UnexpectedEnd)
        } else {
            let n = le_value(buf.subrange(at + 16, at + 24));
            if at + 32 + n > buf.len() {
                Err(DecodeError::UnexpectedEnd)
            } else {
                Ok(
                    (
                        MessageView::Delta {
                            path: decode_utf8(path),
                            start: le_value(buf.subrange(at, at + 8)),
                            end: le_value(buf.subrange(at + 8, at + 16)),
                            hash: le_value(buf.subrange(at + 24, at + 32)),
                            data: buf.subrange(at + 32, at + 32 + n),
                        },
                        at + 32 + n,
                    ),
                )
            }
        }
    } else {
        Err(DecodeError::UnknownFlag(buf[t + 1]))
    }
}

/// The view of a decoding result.
pub open spec fn decode_result_view(r: Result<(ServerMessage, usize), DecodeError>) -> Result<
    (MessageView, int),
    DecodeError,
> {
    match r {
        Ok((m, n)) => Ok((m@, n as int)),
        Err(e) => Err(e),
    }
}

/// Calls `String::from_utf8`, which per its documentation returns the
/// string made of the given bytes when they are valid UTF-8 and an error
/// otherwise; the error is mapped to `None`.
#[verifier::external_body]
fn string_from_utf8(bytes: Vec<u8>) -> (r: Option<String>)
    ensures
        r is Some <==> valid_utf8(bytes@),
        r matches Some(s) ==> s@ == decode_utf8(bytes@),
{
    String::from_utf8(bytes).ok()
}

pub proof fn lemma_first_zero_props(b: Seq<u8>)
    ensures
        0 <= first_zero(b) <= b.len(),
        forall|i: int| 0 <= i < first_zero(b) ==> b[i] != 0,
        first_zero(b) < b.len() ==> b[first_zero(b)] == 0,
    decreases b.len(),
{
    if b.len() > 0 && b[0] != 0 {
        lemma_first_zero_props(b.drop_first());
        assert forall|i: int| 0 <= i < first_zero(b) implies b[i] != 0 by {
            if i > 0 {
                assert(b[i] == b.drop_first()[i - 1]);
            }
        }
    }
}

/// The first zero byte after a zero-free prefix is the one that ends it.
pub proof fn lemma_first_zero_after(p: Seq<u8>, rest: Seq<u8>)
    requires
        zero_free(p),
    ensures
        first_zero(p + seq![0u8] + rest) == p.len(),
    decreases p.len(),
{
    let b = p + seq![0u8] + rest;
    if p.len() > 0 {
        assert(b.drop_first() == p.drop_first() + seq![0u8] + rest);
        lemma_first_zero_after(p.drop_first(), rest);
    } else {
        assert(b[0] == 0);
    }
}

/// Reads one message from the start of `buf`.
pub fn decode_message(buf: &[u8]) -> (r: Result<(ServerMessage, usize), DecodeError>)
    ensures
        decode_result_view(r) == decode_spec(buf@),
{
    proof {
        lemma_first_zero_props(buf@);
    }
    let mut t: usize = 0;
    while t < buf.len() && buf[t] != 0
        invariant
            t <= buf@.len(),
            forall|i: int| 0 <= i < t ==> buf@[i] != 0,
            first_zero(buf@) <= buf@.len(),
            forall|i: int| 0 <= i < first_zero(buf@) ==> buf@[i] != 0,
            first_zero(buf@) < buf@.len() ==> buf@[first_zero(buf@)] == 0,
        decreases buf@.len() - t,
    {
        t += 1;
    }
    assert(t == first_zero(buf@));
    if t == buf.len() {
        return Err(DecodeError::UnexpectedEnd);
    }
    let path_bytes = copy_range(buf, 0, t);
    assert(path_bytes@ == buf@.take(t as int));
    let path = match string_from_utf8(path_bytes) {
        Some(s) => s,
        None => {
            return Err(DecodeError::InvalidPath);
        },
    };
    if buf.len() - t <= 1 {
        return Err(DecodeError::UnexpectedEnd);
    }
    let flag = buf[t + 1];
    let at = t + 2;
    if flag == FULL_FILE_FLAG {
        if buf.len() - at < 8 {
            return Err(DecodeError::UnexpectedEnd);
        }
        let n = read_u64_le(buf, at);
        if n > (buf.len() - (at + 8)) as u64 {
            return Err(DecodeError::UnexpectedEnd);
        }
        let end = at + 8 + n as usize;
        let data = copy_range(buf, at + 8, end);
        Ok((ServerMessage::FullFile { path, data }, end))
    } else if flag == DELTA_FLAG {
        if buf.len() - at < 32 {
            return Err(DecodeError::UnexpectedEnd);
        }
        let start = read_u64_le(buf, at);
        let end_index = read_u64_le(buf, at + 8);
        let n = read_u64_le(buf, at + 16);
        let hash = read_u64_le(buf, at + 24);
        if n > (buf.len() - (at + 32)) as u64 {
            return Err(DecodeError::UnexpectedEnd);
        }
        let end = at + 32 + n as usize;
        let data = copy_range(buf, at + 32, end);
        Ok((ServerMessage::Delta { path, start, end: end_index, hash, data }, end))
    } else {
        Err(DecodeError::UnknownFlag(flag))
    }
}

/// The server reads back a full-file message exactly as the client framed
/// it: the same path (as text whose UTF-8 bytes are the framed bytes) and
/// the same contents, and the message takes exactly its own bytes, so what
/// follows it is left for the next message.
pub proof fn lemma_full_file_roundtrip(p: Seq<u8>, contents: Seq<u8>, rest: Seq<u8>)
    requires
        valid_utf8(p),
        zero_free(p),
        contents.len() <= u64::MAX,
    ensures
        decode_spec(full_file_frame(p, contents) + rest) == Ok::<(MessageView, int), DecodeError>(
            (
                MessageView::FullFile { path: decode_utf8(p), data: contents },
                full_file_frame(p, contents).len() as int,
            ),
        ),
        encode_utf8(decode_utf8(p)) == p,
{
    let frame = full_file_frame(p, contents);
    let buf = frame + rest;
    let lb = le_bytes(contents.len() as u64);
    lemma_le_roundtrip(contents.len() as u64);
    assert(buf == p + seq![0u8] + (seq![FULL_FILE_FLAG] + lb + contents + rest));
    lemma_first_zero_after(p, seq![FULL_FILE_FLAG] + lb + contents + rest);
    let t = p.len() as int;
    assert(buf.take(t) == p);
    assert(buf[t + 1] == FULL_FILE_FLAG);
    assert(buf.subrange(t + 2, t + 10) == lb);
    assert(buf.subrange(t + 10, t + 10 + contents.len()) == contents);
    vstd::utf8::decode_utf8_encode_utf8(p);
}

/// The server reads back a delta message exactly as the client framed it.
pub proof fn lemma_delta_roundtrip(
    p: Seq<u8>,
    start: u64,
    end: u64,
    data: Seq<u8>,
    hash: u64,
    rest: Seq<u8>,
)
    requires
        valid_utf8(p),
        zero_free(p),
        data.len() <= u64::MAX,
    ensures
        decode_spec(delta_frame(p, start, end, data, hash) + rest) == Ok::<
            (MessageView, int),
            DecodeError,
        >(
            (
                MessageView::Delta { path: decode_utf8(p), start, end, hash, data },
                delta_frame(p, start, end, data, hash).len() as int,
            ),
        ),
        encode_utf8(decode_utf8(p)) == p,
{
    let frame = delta_frame(p, start, end, data, hash);
    let buf = frame + rest;
    let ln = le_bytes(data.len() as u64);
    lemma_le_roundtrip(start);
    lemma_le_roundtrip(end);
    lemma_le_roundtrip(data.len() as u64);
    lemma_le_roundtrip(hash);
    let tail = seq![DELTA_FLAG] + le_bytes(start) + le_bytes(end) + ln + le_bytes(hash) + data
        + rest;
    assert(buf == p + seq![0u8] + tail);
    lemma_first_zero_after(p, tail);
    let t = p.len() as int;
    assert(buf.take(t) == p);
    assert(buf[t + 1] == DELTA_FLAG);
    assert(buf.subrange(t + 2, t + 10) == le_bytes(start));
    assert(buf.subrange(t + 10, t + 18) == le_bytes(end));
    assert(buf.subrange(t + 18, t + 26) == ln);
    assert(buf.subrange(t + 26, t + 34) == le_bytes(hash));
    assert(buf.subrange(t + 34, t + 34 + data.len()) == data);
    vstd::utf8::decode_utf8_encode_utf8(p);
}

/// Bytes without a zero byte are all path: their first zero is at their
/// end.
proof fn lemma_first_zero_of_zero_free(b: Seq<u8>)
    requires
        zero_free(b),
    ensures
        first_zero(b) == b.len(),
{
    lemma_first_zero_props(b);
}

/// Until a delta message has arrived in full, the server waits for more
/// bytes: every strict prefix of a delta message for a path that is valid
/// UTF-8 without zero bytes reads as bytes that end too early, so no part
/// of the message is taken for a message of its own.
pub proof fn law_delta_prefix_incomplete(
    p: Seq<u8>,
    start: u64,
    end: u64,
    data: Seq<u8>,
    hash: u64,
    k: int,
)
    requires
        valid_utf8(p),
        zero_free(p),
        data.len() <= u64::MAX,
        0 <= k < delta_frame(p, start, end, data, hash).len(),
    ensures
        decode_spec(delta_frame(p, start, end, data, hash).take(k)) == Err::<
            (MessageView, int),
            DecodeError,
        >(DecodeError::UnexpectedEnd),
{
    let f = delta_frame(p, start, end, data, hash);
    let buf = f.take(k);
    let t = p.len() as int;
    let ln = le_bytes(data.len() as u64);
    lemma_le_roundtrip(start);
    lemma_le_roundtrip(end);
    lemma_le_roundtrip(data.len() as u64);
    lemma_le_roundtrip(hash);
    assert(f == p + seq![0u8, DELTA_FLAG] + le_bytes(start) + le_bytes(end) + ln + le_bytes(hash)
        + data);
    assert(f.len() == t + 34 + data.len());
    if k <= t {
        assert(buf =~= p.take(k));
        assert(zero_free(buf)) by {
            assert forall|i: int| 0 <= i < buf.len() implies buf[i] != 0 by {
                assert(buf[i] == p[i]);
            }
        }
        lemma_first_zero_of_zero_free(buf);
    } else {
        let rest = f.subrange(t + 1, k);
        assert(buf =~= p + seq![0u8] + rest);
        lemma_first_zero_after(p, rest);
        assert(buf.take(t) =~= p);
        if t + 1 < k {
            assert(buf[t + 1] == DELTA_FLAG);
            if t + 34 <= k {
                assert(buf.subrange(t + 18, t + 26) =~= ln);
            }
        }
    }
}

/// Until a full-file message has arrived in full, the server waits for
/// more bytes: every strict prefix of a full-file message for a path that
/// is valid UTF-8 without zero bytes reads as bytes that end too early.
pub proof fn law_full_file_prefix_incomplete(p: Seq<u8>, contents: Seq<u8>, k: int)
    requires
        valid_utf8(p),
        zero_free(p),
        contents.len() <= u64::MAX,
        0 <= k < full_file_frame(p, contents).len(),
    ensures
        decode_spec(full_file_frame(p, contents).take(k)) == Err::<(MessageView, int), DecodeError>(
            DecodeError::UnexpectedEnd,
        ),
{
    let f = full_file_frame(p, contents);
    let buf = f.take(k);
    let t = p.len() as int;
    let lb = le_bytes(contents.len() as u64);
    lemma_le_roundtrip(contents.len() as u64);
    assert(f == p + seq![0u8, FULL_FILE_FLAG] + lb + contents);
    assert(f.len() == t + 10 + contents.len());
    if k <= t {
        assert(buf =~= p.take(k));
        assert(zero_free(buf)) by {
            assert forall|i: int| 0 <= i < buf.len() implies buf[i] != 0 by {
                assert(buf[i] == p[i]);
            }
        }
        lemma_first_zero_of_zero_free(buf);
    } else {
        let rest = f.subrange(t + 1, k);
        assert(buf =~= p + seq![0u8] + rest);
        lemma_first_zero_after(p, rest);
        assert(buf.take(t) =~= p);
        if t + 1 < k {
            assert(buf[t + 1] == FULL_FILE_FLAG);
            if t + 10 <= k {
                assert(buf.subrange(t + 2, t + 10) =~= lb);
            }
        }
    }
}

} // verus!
