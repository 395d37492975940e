//! The client's sender: what it writes to the server for each reported
//! change, and which reported changes replace one still waiting.
use vstd::prelude::*;
use vstd::string::StringExecFns;
use crate::delta::{is_delta_of, Delta};
use crate::events::{ChangeType, TcpData};
use crate::file_store::{FileData, FileView};
use crate::wire::{
    create_dir_message, create_file_message, delta_frame, delta_message, deletion_message,
    full_file_frame, full_file_message, head, move_frame, move_message, relative_bytes,
    CREATE_DIR_FLAG, CREATE_FILE_FLAG, DELETE_FLAG,
};

verus! {

/// The full path of a reported path: the watched directory's path
/// followed by the reported one.
pub fn full_path(base_dir: &str, path: &String) -> (r: String)
    ensures
        r@ == base_dir@ + path@,
{
    let mut s = String::from_str(base_dir);
    s.append(path.as_str());
    s
}

/// What the sender writes for one change. A written file is recorded in
/// the store with its current `contents` and sent whole the first time,
/// as a delta against the stored version afterwards; the other kinds do
/// not touch the store and are sent as bare notices (a move under the
/// notice's `old_filename` first, then its `filename`).
pub fn change_message(store: &mut FileData, data: &TcpData, base_dir: &str, contents: Vec<u8>) -> (r:
    Vec<u8>)
    requires
        old(store).wf(),
        contents@.len() < u64::MAX,
    ensures
        final(store).wf(),
        ({
            let full = base_dir@ + data.filename@;
            let rel = relative_bytes(full, base_dir@);
            match data.change_type {
                ChangeType::create_dir => r@ == head(rel, CREATE_DIR_FLAG) && *final(store)
                    == *old(store),
                ChangeType::create_file => r@ == head(rel, CREATE_FILE_FLAG) && *final(store)
                    == *old(store),
                ChangeType::delete => r@ == head(rel, DELETE_FLAG) && *final(store) == *old(store),
                ChangeType::move_fdir => r@ == move_frame(
                    relative_bytes(base_dir@ + data.old_filename@, base_dir@),
                    rel,
                ) && *final(store) == *old(store),
                ChangeType::write => {
                    &&& final(store).files() == old(store).files().insert(
                        full,
                        FileView { data: contents@, time_remaining: old(store).store_time() },
                    )
                    &&& final(store).store_time() == old(store).store_time()
                    &&& !old(store).files().contains_key(full) ==> r@ == full_file_frame(
                        rel,
                        contents@,
                    )
                    &&& old(store).files().contains_key(full) ==> exists|d: Delta|
                        is_delta_of(d, old(store).files()[full].data, contents@) && r@
                            == delta_frame(rel, d.start_index, d.end_index, d.data@, d.old_hash)
                },
            }
        }),
{
    let file = full_path(base_dir, &data.filename);
    match data.change_type {
        ChangeType::create_dir => create_dir_message(file.as_str(), base_dir),
        ChangeType::delete => deletion_message(file.as_str(), base_dir),
        ChangeType::create_file => create_file_message(file.as_str(), base_dir),
        ChangeType::move_fdir => {
            let old_file = full_path(base_dir, &data.old_filename);
            move_message(old_file.as_str(), file.as_str(), base_dir)
        },
        ChangeType::write => {
            let ghost before = store.files();
            let delta = store.get_file_delta(file.as_str(), contents);
            if delta.start_index == 0 {
                full_file_message(file.as_str(), base_dir, delta.data.as_slice())
            } else {
                delta_message(&delta, file.as_str(), base_dir)
            }
        },
    }
}

/// Whether two reported changes are the same change (same kind and
/// paths); a change that repeats the one still waiting replaces it.
pub fn same_change(a: &TcpData, b: &TcpData) -> (r: bool)
    ensures
        r == (a@ == b@),
{
    a.change_type == b.change_type && a.filename == b.filename && a.old_filename
        == b.old_filename
}

} // verus!
