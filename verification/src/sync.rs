//! The end-to-end promise of the service: a change computed on the client
//! reaches the server intact and turns the server's copy into the
//! client's file.
use vstd::prelude::*;
use vstd::utf8::{encode_utf8, valid_utf8};
use crate::decode::{decode_spec, lemma_delta_roundtrip, lemma_full_file_roundtrip, zero_free, MessageView};
use crate::delta::{is_delta_of, lemma_delta_reconstructs, spliced, Delta, DeltaError};
use crate::server_update::{message_outcome, message_path};
use crate::hashing::xxh3_64_of;
use crate::wire::{
    delta_frame, full_file_frame, lemma_relative_bytes_valid_utf8, lemma_relative_bytes_zero_free,
    relative_bytes,
};

verus! {

/// When the server holds `old` and the client's file has become `new`,
/// the delta the client computes, framed under a path without zero bytes
/// that is valid UTF-8, is read by the server as a delta message for that
/// path whose hash is the hash of `old`, whose start lies inside `old`, and
/// whose splicing into `old` gives `new`; the message ends where its frame
/// ends, so the bytes after it start the next message.
pub proof fn law_delta_sync(d: Delta, old: Seq<u8>, new: Seq<u8>, path: Seq<u8>, rest: Seq<u8>)
    requires
        is_delta_of(d, old, new),
        valid_utf8(path),
        zero_free(path),
        d.data@.len() <= u64::MAX,
    ensures
        ({
            let frame = delta_frame(path, d.start_index, d.end_index, d.data@, d.old_hash);
            decode_spec(frame + rest) matches Ok((MessageView::Delta { path: p, start, end, hash, data }, n))
                && encode_utf8(p) == path && hash == xxh3_64_of(old) && 1 <= start && start - 1
                <= old.len() && spliced(old, start as int, end as int, data) == new && n
                == frame.len()
        }),
{
    lemma_delta_roundtrip(path, d.start_index, d.end_index, d.data@, d.old_hash, rest);
    lemma_delta_reconstructs(d, old, new);
}

/// A full file sent by the client is read by the server as exactly that
/// file under that path.
pub proof fn law_full_file_sync(contents: Seq<u8>, path: Seq<u8>, rest: Seq<u8>)
    requires
        valid_utf8(path),
        zero_free(path),
        contents.len() <= u64::MAX,
    ensures
        decode_spec(full_file_frame(path, contents) + rest) matches Ok((MessageView::FullFile { path: p, data }, n))
            && encode_utf8(p) == path && data == contents && n == full_file_frame(
            path,
            contents,
        ).len(),
{
    lemma_full_file_roundtrip(path, contents, rest);
}

/// The server's copy keeps up with the client's file: when the server
/// holds the version of a file that the client's store holds for it (any
/// copy when the store holds none), the message the sender writes for the
/// file's new contents (see `change_message`), read by the server, names
/// the file's path relative to the watched directory, takes exactly its
/// own bytes, and turns the server's copy into the new contents. File
/// paths never hold the character 0.
pub proof fn law_server_follows_client(
    stored: Option<Seq<u8>>,
    server_copy: Seq<u8>,
    base: Seq<char>,
    file: Seq<char>,
    contents: Seq<u8>,
    msg: Seq<u8>,
    rest: Seq<u8>,
)
    requires
        forall|i: int| 0 <= i < file.len() ==> file[i] != '\0',
        contents.len() < u64::MAX,
        stored matches Some(v) ==> server_copy == v,
        stored is None ==> msg == full_file_frame(relative_bytes(file, base), contents),
        stored matches Some(v) ==> exists|d: Delta|
            is_delta_of(d, v, contents) && msg == delta_frame(
                relative_bytes(file, base),
                d.start_index,
                d.end_index,
                d.data@,
                d.old_hash,
            ),
    ensures
        decode_spec(msg + rest) matches Ok((m, n)) && encode_utf8(message_path(m))
            == relative_bytes(file, base) && n == msg.len() && message_outcome(m, server_copy)
            == Ok::<Option<Seq<u8>>, DeltaError>(Some(contents)),
{
    let rel = relative_bytes(file, base);
    lemma_relative_bytes_valid_utf8(file, base);
    lemma_relative_bytes_zero_free(file, base);
    assert(zero_free(rel));
    match stored {
        None => {
            lemma_full_file_roundtrip(rel, contents, rest);
        },
        Some(v) => {
            let d = choose|d: Delta|
                is_delta_of(d, v, contents) && msg == delta_frame(
                    rel,
                    d.start_index,
                    d.end_index,
                    d.data@,
                    d.old_hash,
                );
            lemma_delta_reconstructs(d, v, contents);
            lemma_delta_roundtrip(rel, d.start_index, d.end_index, d.data@, d.old_hash, rest);
        },
    }
}

} // verus!
