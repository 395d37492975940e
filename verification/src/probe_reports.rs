//! What the kernel probes report about a file-system call: the event
//! record they emit, if any, and the writes of the affected paths into the
//! two path buffers.
use vstd::prelude::*;
use crate::events::{
    after_event, immediate_notice, notice, reported_path, BatchView, ChangeType, EventRecord,
    MODE_MOVED, MODE_RENAMED, PROBE_INODE_RENAME, PROBE_VFS_WRITE,
};
use crate::probes::{
    apply_writes, chain_view, count_to, in_dir, law_probe_path_roundtrip, lemma_count_to_skip,
    lemma_parent_of_path_below, lemma_reversed_text_is_path, name_bytes, path_below, path_to_map, path_walk, rename_state,
    reported_length, short_name, writes_view, DentryRead, DentryView, SlotWrite, MAX_DEPTH,
};

verus! {

/// How many entries a probe walks up at most.
pub const WALK_DEPTH: u8 = 50;

/// What a probe reports: the event it emits, if any, and its writes to the
/// first and second path buffers.
pub struct ProbeReport {
    pub event: Option<EventRecord>,
    pub writes: Vec<SlotWrite>,
    pub second_writes: Vec<SlotWrite>,
}

/// The watched directory's inode is among the first `MAX_DEPTH` entries of
/// the walk up.
pub open spec fn chain_in_dir(chain: Seq<DentryView>, dir_inode: u64) -> bool {
    exists|i: int| 0 <= i < chain.len() && i < MAX_DEPTH && chain[i].inode == dir_inode
}

/// The write that marks slot 0 of a buffer as empty.
pub open spec fn empty_slot_write() -> Seq<(int, Seq<u8>)> {
    seq![(0int, Seq::new(64, |i: int| 0u8))]
}

/// The writes of a path into a buffer and the length reported for it: the
/// walk's writes when the entry lies in the watched directory, otherwise
/// the empty mark and length 0.
pub open spec fn path_report(chain: Seq<DentryView>, dir_inode: u64) -> (
    Seq<(int, Seq<u8>)>,
    u16,
) {
    if chain_in_dir(chain, dir_inode) {
        let (w, f) = path_walk(chain, dir_inode, WALK_DEPTH as int, 0, 1, 1);
        (w, reported_length(f) as u16)
    } else {
        (empty_slot_write(), 0u16)
    }
}

/// The report of a probe on one entry, `chain` being the walk up from
/// it: outside the watched directory only the empty mark, otherwise the
/// entry's path and an event with its inode and path length.
pub open spec fn entry_report(chain: Seq<DentryView>, dir_inode: u64, call_type: u8) -> (
    Option<EventRecord>,
    Seq<(int, Seq<u8>)>,
    Seq<(int, Seq<u8>)>,
) {
    let (w, len) = path_report(chain, dir_inode);
    if chain_in_dir(chain, dir_inode) {
        (
            Some(
                EventRecord {
                    inode: chain[0].inode,
                    second_inode: 0,
                    total_len: len,
                    second_total_len: 0,
                    event_type: call_type,
                    rename_state: 0,
                },
            ),
            w,
            Seq::<(int, Seq<u8>)>::empty(),
        )
    } else {
        (None, w, Seq::<(int, Seq<u8>)>::empty())
    }
}

/// The report of the rename probe, `from` being the walk up from the
/// renamed entry and `to` the walk up from its new directory: the source
/// path goes to the first buffer, the target directory's path to the
/// second (unless the rename lies entirely outside, when nothing more is
/// written and no event is emitted), and the event carries both inodes,
/// both lengths and how the rename is reported (see `rename_state`).
pub open spec fn rename_report(
    from: Seq<DentryView>,
    to: Seq<DentryView>,
    dir_inode: u64,
    call_type: u8,
) -> (Option<EventRecord>, Seq<(int, Seq<u8>)>, Seq<(int, Seq<u8>)>) {
    let from_in = chain_in_dir(from, dir_inode);
    let to_in = chain_in_dir(to, dir_inode);
    let (w, len) = path_report(from, dir_inode);
    if !from_in && !to_in {
        (None, w, Seq::<(int, Seq<u8>)>::empty())
    } else {
        let (w2, len2) = path_report(to, dir_inode);
        (
            Some(
                EventRecord {
                    inode: from[0].inode,
                    second_inode: to[0].inode,
                    total_len: len,
                    second_total_len: len2,
                    event_type: call_type,
                    rename_state: if from_in && to_in {
                        1u8
                    } else if to_in {
                        2u8
                    } else {
                        3u8
                    },
                },
            ),
            w,
            w2,
        )
    }
}

/// The view of a report.
pub open spec fn report_view(r: ProbeReport) -> (
    Option<EventRecord>,
    Seq<(int, Seq<u8>)>,
    Seq<(int, Seq<u8>)>,
) {
    (r.event, writes_view(r.writes@), writes_view(r.second_writes@))
}

fn inodes_of(chain: &Vec<DentryRead>) -> (r: Vec<u64>)
    ensures
        r@.len() == chain@.len(),
        forall|i: int| 0 <= i < chain@.len() ==> r@[i] == chain@[i].inode,
{
    let mut r: Vec<u64> = Vec::new();
    let n = chain.len();
    for i in 0..n
        invariant
            n == chain@.len(),
            r@.len() == i,
            forall|j: int| 0 <= j < i ==> r@[j] == chain@[j].inode,
    {
        r.push(chain[i].inode);
    }
    r
}

fn chain_inside(chain: &Vec<DentryRead>, dir_inode: u64) -> (r: bool)
    ensures
        r == chain_in_dir(chain_view(chain@), dir_inode),
{
    let inodes = inodes_of(chain);
    let r = in_dir(&inodes, dir_inode);
    proof {
        let cv = chain_view(chain@);
        if r {
            let i = choose|i: int| 0 <= i < inodes@.len() && i < MAX_DEPTH && inodes@[i] == dir_inode;
            assert(cv[i].inode == dir_inode);
        }
        if chain_in_dir(cv, dir_inode) {
            let i = choose|i: int| 0 <= i < cv.len() && i < MAX_DEPTH && cv[i].inode == dir_inode;
            assert(inodes@[i] == dir_inode);
        }
    }
    r
}

fn write_path(chain: &Vec<DentryRead>, dir_inode: u64, inside: bool) -> (r: (Vec<SlotWrite>, u16))
    requires
        inside == chain_in_dir(chain_view(chain@), dir_inode),
    ensures
        (writes_view(r.0@), r.1) == path_report(chain_view(chain@), dir_inode),
{
    if inside {
        let (w, len) = path_to_map(chain, dir_inode, WALK_DEPTH);
        (w, len as u16)
    } else {
        let mut w: Vec<SlotWrite> = Vec::new();
        let zero: [u8; 64] = [0u8; 64];
        w.push(SlotWrite { index: 0, chunk: zero });
        assert(zero@ == Seq::new(64, |i: int| 0u8));
        assert(writes_view(w@) == empty_slot_write());
        (w, 0)
    }
}

/// What a probe on one entry reports (see `entry_report`).
pub fn entry_event(chain: &Vec<DentryRead>, dir_inode: u64, call_type: u8) -> (r: ProbeReport)
    ensures
        report_view(r) == entry_report(chain_view(chain@), dir_inode, call_type),
{
    let inside = chain_inside(chain, dir_inode);
    let (writes, len) = write_path(chain, dir_inode, inside);
    let second_writes: Vec<SlotWrite> = Vec::new();
    assert(writes_view(second_writes@) == Seq::<(int, Seq<u8>)>::empty());
    if inside {
        let event = EventRecord {
            inode: chain[0].inode,
            second_inode: 0,
            total_len: len,
            second_total_len: 0,
            event_type: call_type,
            rename_state: 0,
        };
        ProbeReport { event: Some(event), writes, second_writes }
    } else {
        ProbeReport { event: None, writes, second_writes }
    }
}

/// What the rename probe reports (see `rename_report`); both walks start
/// at an entry.
pub fn rename_event(
    from: &Vec<DentryRead>,
    to: &Vec<DentryRead>,
    dir_inode: u64,
    call_type: u8,
) -> (r: ProbeReport)
    requires
        from@.len() >= 1,
        to@.len() >= 1,
    ensures
        report_view(r) == rename_report(chain_view(from@), chain_view(to@), dir_inode, call_type),
{
    let from_in = chain_inside(from, dir_inode);
    let to_in = chain_inside(to, dir_inode);
    let (writes, len) = write_path(from, dir_inode, from_in);
    match rename_state(from_in, to_in) {
        None => {
            let second_writes: Vec<SlotWrite> = Vec::new();
            assert(writes_view(second_writes@) == Seq::<(int, Seq<u8>)>::empty());
            ProbeReport { event: None, writes, second_writes }
        },
        Some(state) => {
            let (second_writes, len2) = write_path(to, dir_inode, to_in);
            let event = EventRecord {
                inode: from[0].inode,
                second_inode: to[0].inode,
                total_len: len,
                second_total_len: len2,
                event_type: call_type,
                rename_state: state,
            };
            ProbeReport { event: Some(event), writes, second_writes }
        },
    }
}

/// The path the listener reports for an entry the probes saw is the
/// entry's path below the watched directory. This holds when the walk up
/// from the entry reaches the watched directory within the walk's depth
/// through names shorter than a slot and free of `/`, with fewer than 254
/// characters in all: the probe's event names the entry's inode, and its
/// slot writes, read back by the listener from slots in any earlier state
/// for the event's length, give a `/` before each name from the outermost
/// directory down to the entry; for a write, the listener reports at once
/// a write of that path.
pub proof fn law_reported_path(
    slots: Seq<Seq<u8>>,
    chain: Seq<DentryView>,
    dir_inode: u64,
    k: int,
    call_type: u8,
)
    requires
        0 <= k < chain.len(),
        k < WALK_DEPTH,
        chain[k].inode == dir_inode,
        forall|m: int|
            0 <= m < k ==> short_name(#[trigger] chain[m]) && chain[m].inode != dir_inode
                && !name_bytes(chain[m]).contains(47u8),
        1 + count_to(chain, k) < 255,
        2 * k <= slots.len(),
    ensures
        entry_report(chain, dir_inode, call_type) matches (Some(ev), ws, _) && ev.inode
            == chain[0].inode && ev.event_type == call_type && reported_path(
            ev.total_len as int,
            apply_writes(slots, ws),
        ) == path_below(chain, k) && (call_type == PROBE_VFS_WRITE ==> immediate_notice(
            ev,
            path_below(chain, k),
        ) == Some(notice(path_below(chain, k), ChangeType::write))),
{
    assert(chain_in_dir(chain, dir_inode));
    law_probe_path_roundtrip(slots, chain, dir_inode, WALK_DEPTH as int, k);
    lemma_reversed_text_is_path(chain, k);
    let (ws, f) = path_walk(chain, dir_inode, WALK_DEPTH as int, 0, 1, 1);
    assert(reported_length(f) as u16 == reported_length(f));
}

/// A rename inside the watched directory is reported with both paths
/// and taken as a rename or a move. When the renamed entry's walk up
/// (`from`) and the walk up from its new directory (`to`) both reach the
/// watched directory as in `law_reported_path`, the rename probe reports
/// both ends as inside, the listener reads back the entry's old path from
/// the first buffer and the new directory's path from the second, and then
/// looks up the entry's inode in the new directory, remembering the old
/// path: as a rename when the new directory's path is the old one's, as a
/// move otherwise.
pub proof fn law_rename_reported(
    slots: Seq<Seq<u8>>,
    second_slots: Seq<Seq<u8>>,
    from: Seq<DentryView>,
    k: int,
    to: Seq<DentryView>,
    k2: int,
    dir_inode: u64,
    s: BatchView,
    block_addr: u64,
)
    requires
        1 <= k < from.len(),
        k < WALK_DEPTH,
        from[k].inode == dir_inode,
        forall|m: int|
            0 <= m < k ==> short_name(#[trigger] from[m]) && from[m].inode != dir_inode
                && !name_bytes(from[m]).contains(47u8),
        1 + count_to(from, k) < 255,
        2 * k <= slots.len(),
        0 <= k2 < to.len(),
        k2 < WALK_DEPTH,
        to[k2].inode == dir_inode,
        forall|m: int|
            0 <= m < k2 ==> short_name(#[trigger] to[m]) && to[m].inode != dir_inode
                && !name_bytes(to[m]).contains(47u8),
        1 + count_to(to, k2) < 255,
        2 * k2 <= second_slots.len(),
    ensures
        ({
            let old_path = path_below(from, k);
            let dir_path = path_below(to, k2);
            &&& rename_report(from, to, dir_inode, PROBE_INODE_RENAME) matches (Some(ev), w, w2)
            &&& ev.rename_state == 1
            &&& reported_path(ev.total_len as int, apply_writes(slots, w)) == old_path
            &&& reported_path(ev.second_total_len as int, apply_writes(second_slots, w2))
                == dir_path
            &&& {
                let t = after_event(s, block_addr, ev, old_path, dir_path);
                &&& t.check_inode
                &&& t.mode == (if dir_path == path_below(from.skip(1), k - 1) {
                    MODE_RENAMED
                } else {
                    MODE_MOVED
                })
                &&& t.temp_path == old_path
                &&& t.base_path == dir_path
            }
        }),
{
    assert(chain_in_dir(from, dir_inode));
    assert(chain_in_dir(to, dir_inode));
    law_reported_path(slots, from, dir_inode, k, PROBE_INODE_RENAME);
    law_reported_path(second_slots, to, dir_inode, k2, PROBE_INODE_RENAME);
    assert forall|m: int| 0 <= m < k implies (#[trigger] name_bytes(from[m])).len() > 0
        && !name_bytes(from[m]).contains(47u8) by {
        assert(short_name(from[m]));
    }
    lemma_parent_of_path_below(from, k);
}

/// A rename within one directory is taken as a rename (see
/// `law_rename_reported`), the walk up from the new directory being the
/// walk up from the entry without the entry itself.
pub proof fn law_rename_in_place(
    slots: Seq<Seq<u8>>,
    second_slots: Seq<Seq<u8>>,
    chain: Seq<DentryView>,
    dir_inode: u64,
    k: int,
    s: BatchView,
    block_addr: u64,
)
    requires
        1 <= k < chain.len(),
        k < WALK_DEPTH,
        chain[k].inode == dir_inode,
        forall|m: int|
            0 <= m < k ==> short_name(#[trigger] chain[m]) && chain[m].inode != dir_inode
                && !name_bytes(chain[m]).contains(47u8),
        1 + count_to(chain, k) < 255,
        2 * k <= slots.len(),
        2 * k <= second_slots.len(),
    ensures
        ({
            let old_path = path_below(chain, k);
            let dir_path = path_below(chain.skip(1), k - 1);
            &&& rename_report(
                chain,
                chain.skip(1),
                dir_inode,
                PROBE_INODE_RENAME,
            ) matches (Some(ev), w, w2)
            &&& ev.rename_state == 1
            &&& reported_path(ev.total_len as int, apply_writes(slots, w)) == old_path
            &&& reported_path(ev.second_total_len as int, apply_writes(second_slots, w2))
                == dir_path
            &&& {
                let t = after_event(s, block_addr, ev, old_path, dir_path);
                &&& t.check_inode
                &&& t.mode == MODE_RENAMED
                &&& t.temp_path == old_path
                &&& t.base_path == dir_path
            }
        }),
{
    let tail = chain.skip(1);
    assert(tail[k - 1] == chain[k]);
    lemma_count_to_skip(chain, k);
    assert(short_name(chain[0]));
    assert forall|m: int| 0 <= m < k - 1 implies short_name(#[trigger] tail[m]) && tail[m].inode
        != dir_inode && !name_bytes(tail[m]).contains(47u8) by {
        assert(tail[m] == chain[m + 1]);
    }
    law_rename_reported(
        slots,
        second_slots,
        chain,
        k,
        tail,
        k - 1,
        dir_inode,
        s,
        block_addr,
    );
}

/// Whenever the rename probe emits an event, the event names the renamed
/// entry's inode first and the inode of its new directory second, with
/// the probe's call type, whichever ends lie in the watched directory; the
/// event of any other probe names the entry's inode. A rename is reported
/// with state 1 when both ends lie in the watched directory, 2 when only
/// the new directory does, 3 when only the entry does, and not at all when
/// neither does.
pub proof fn law_rename_event_inodes(
    from: Seq<DentryView>,
    to: Seq<DentryView>,
    dir_inode: u64,
    call_type: u8,
)
    ensures
        rename_report(from, to, dir_inode, call_type).0 matches Some(ev) ==> ev.inode
            == from[0].inode && ev.second_inode == to[0].inode && ev.event_type == call_type,
        entry_report(from, dir_inode, call_type).0 matches Some(ev) ==> ev.inode
            == from[0].inode && ev.event_type == call_type && ev.rename_state == 0,
        !chain_in_dir(from, dir_inode) && !chain_in_dir(to, dir_inode) ==> rename_report(
            from,
            to,
            dir_inode,
            call_type,
        ).0 is None,
        chain_in_dir(from, dir_inode) && chain_in_dir(to, dir_inode) ==> (rename_report(
            from,
            to,
            dir_inode,
            call_type,
        ).0 matches Some(ev) && ev.rename_state == 1),
        !chain_in_dir(from, dir_inode) && chain_in_dir(to, dir_inode) ==> (rename_report(
            from,
            to,
            dir_inode,
            call_type,
        ).0 matches Some(ev) && ev.rename_state == 2),
        chain_in_dir(from, dir_inode) && !chain_in_dir(to, dir_inode) ==> (rename_report(
            from,
            to,
            dir_inode,
            call_type,
        ).0 matches Some(ev) && ev.rename_state == 3),
{
}

} // verus!
