//! What the server does with one message from a client: a full file
//! replaces its copy of the file, a delta is applied to its copy.
use vstd::prelude::*;
use crate::byte_util::extend_bytes;
use crate::decode::{MessageView, ServerMessage};
use crate::delta::{apply_delta, delta_outcome, outcome_view, DeltaError};
use crate::hashing::xxh3_64_of;

verus! {

/// The path a message is about.
pub open spec fn message_path(m: MessageView) -> Seq<char> {
    match m {
        MessageView::FullFile { path, .. } => path,
        MessageView::Delta { path, .. } => path,
    }
}

/// The server's copy of the message's file after the message, given its
/// copy `current` before it (see `delta_outcome` for a delta).
pub open spec fn message_outcome(m: MessageView, current: Seq<u8>) -> Result<
    Option<Seq<u8>>,
    DeltaError,
> {
    match m {
        MessageView::FullFile { data, .. } => Ok(Some(data)),
        MessageView::Delta { start, end, hash, data, .. } => delta_outcome(
            current,
            start,
            end,
            data,
            hash,
            xxh3_64_of(current),
        ),
    }
}

/// Applies one message to the server's copy `current` of its file.
pub fn apply_message(msg: &ServerMessage, current: &[u8]) -> (r: Result<
    Option<Vec<u8>>,
    DeltaError,
>)
    ensures
        outcome_view(r) == message_outcome(msg@, current@),
{
    match msg {
        ServerMessage::FullFile { data, .. } => {
            let mut v: Vec<u8> = Vec::new();
            extend_bytes(&mut v, data.as_slice());
            Ok(Some(v))
        },
        ServerMessage::Delta { start, end, hash, data, .. } => apply_delta(
            current,
            *start,
            *end,
            data.as_slice(),
            *hash,
        ),
    }
}

} // verus!
