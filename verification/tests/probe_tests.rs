use ullfs::events::{extract_filename, EventBatch, MODE_MOVED, MODE_RENAMED, PROBE_INODE_RENAME};
use ullfs::probe_reports::{entry_event, rename_event};
use ullfs::probes::{dname_to_map, in_dir, path_to_map, rename_state, DentryRead, SlotWrite, MAX_DEPTH};

fn window(name: &str) -> [u8; 256] {
    let mut w = [0u8; 256];
    w[..name.len()].copy_from_slice(name.as_bytes());
    w
}

fn entry(inode: u64, name: &str) -> DentryRead {
    DentryRead { inode, name: Some((name.len() as u32, window(name))) }
}

fn slots_after(writes: &[SlotWrite], n: usize) -> Vec<[u8; 64]> {
    let mut slots = vec![[0xffu8; 64]; n];
    for w in writes {
        let j = w.index as usize;
        if j >= 1 && j <= n {
            slots[j - 1] = w.chunk;
        }
    }
    slots
}

#[test]
fn rename_reporting() {
    assert_eq!(rename_state(true, true), Some(1));
    assert_eq!(rename_state(false, true), Some(2));
    assert_eq!(rename_state(true, false), Some(3));
    assert_eq!(rename_state(false, false), None);
}

#[test]
fn inside_watched_directory() {
    assert!(in_dir(&vec![5, 6, 7], 7));
    assert!(!in_dir(&vec![5, 6, 7], 8));
    assert!(!in_dir(&Vec::new(), 1));
    let mut far = vec![0u64; MAX_DEPTH];
    far.push(9);
    assert!(!in_dir(&far, 9));
    far[MAX_DEPTH - 1] = 9;
    assert!(in_dir(&far, 9));
}

#[test]
fn name_slots() {
    let mut out = Vec::new();
    let len = dname_to_map(3, &Some((70, window(&"n".repeat(70)))), &mut out);
    assert_eq!(len, 70);
    assert_eq!(out.len(), 2);
    assert_eq!(out[0].index, 3);
    assert_eq!(out[1].index, 4);
    assert_eq!(out[1].chunk[5], b'n');
    assert_eq!(out[1].chunk[6], 0);
    let mut out2 = Vec::new();
    assert_eq!(dname_to_map(1, &Some((300, [1u8; 256])), &mut out2), 0);
    assert_eq!(out2.len(), 4);
    let mut out3 = Vec::new();
    assert_eq!(dname_to_map(1, &None, &mut out3), 0);
    assert!(out3.is_empty());
}

#[test]
fn path_slots_and_length() {
    let chain = vec![entry(10, "file.txt"), entry(11, "dir"), entry(1, "watch"), entry(0, "home")];
    let (writes, len) = path_to_map(&chain, 1, 50);
    assert_eq!(len, 13);
    let idx: Vec<u32> = writes.iter().map(|w| w.index).collect();
    assert_eq!(idx, vec![1, 2, 3, 4]);
    assert_eq!(writes[1].chunk[0], b'/');
}

#[test]
fn listener_reads_back_what_the_probe_wrote() {
    let chain = vec![entry(10, "report.pdf"), entry(11, "docs"), entry(12, "a"), entry(1, "w")];
    let (writes, len) = path_to_map(&chain, 1, 50);
    let slots = slots_after(&writes, 8);
    let name: String = extract_filename(len as usize, &slots).into_iter().collect();
    assert_eq!(name, "/a/docs/report.pdf");
}

#[test]
fn depth_limits_the_walk() {
    let chain = vec![entry(10, "f"), entry(11, "d"), entry(1, "w")];
    let (writes, len) = path_to_map(&chain, 1, 1);
    assert_eq!(writes.len(), 2);
    assert_eq!(len, 2);
}

#[test]
fn entry_inside_is_reported() {
    let chain = vec![entry(10, "file.txt"), entry(11, "dir"), entry(1, "w")];
    let r = entry_event(&chain, 1, 29);
    let e = r.event.expect("an event");
    assert_eq!(e.inode, 10);
    assert_eq!(e.second_inode, 0);
    assert_eq!(e.total_len, 13);
    assert_eq!(e.event_type, 29);
    assert_eq!(e.rename_state, 0);
    assert!(r.second_writes.is_empty());
    let slots = slots_after(&r.writes, 6);
    let name: String = extract_filename(e.total_len as usize, &slots).into_iter().collect();
    assert_eq!(name, "/dir/file.txt");
}

#[test]
fn entry_outside_is_not_reported() {
    let chain = vec![entry(10, "file.txt"), entry(12, "elsewhere"), entry(0, "root")];
    let r = entry_event(&chain, 1, 29);
    assert!(r.event.is_none());
    assert_eq!(r.writes.len(), 1);
    assert_eq!(r.writes[0].index, 0);
    assert_eq!(r.writes[0].chunk, [0u8; 64]);
}

#[test]
fn rename_reports() {
    let inside = vec![entry(10, "a"), entry(1, "w")];
    let inside_dir = vec![entry(11, "d"), entry(1, "w")];
    let outside = vec![entry(20, "x"), entry(0, "root")];
    let outside_dir = vec![entry(21, "y"), entry(0, "root")];

    let both = rename_event(&inside, &inside_dir, 1, 18);
    let e = both.event.expect("an event");
    assert_eq!((e.inode, e.second_inode, e.rename_state), (10, 11, 1));
    assert_eq!((e.total_len, e.second_total_len), (2, 2));

    let moved_in = rename_event(&outside, &inside_dir, 1, 18).event.expect("an event");
    assert_eq!((moved_in.rename_state, moved_in.total_len), (2, 0));

    let moved_out = rename_event(&inside, &outside_dir, 1, 18);
    let e3 = moved_out.event.expect("an event");
    assert_eq!((e3.rename_state, e3.second_total_len), (3, 0));
    assert_eq!(moved_out.second_writes.len(), 1);
    assert_eq!(moved_out.second_writes[0].index, 0);

    let neither = rename_event(&outside, &outside_dir, 1, 18);
    assert!(neither.event.is_none());
    assert_eq!(neither.writes.len(), 1);
    assert!(neither.second_writes.is_empty());
}

#[test]
fn rename_in_place_is_taken_as_rename() {
    let chain = vec![entry(10, "old.txt"), entry(11, "docs"), entry(1, "w")];
    let parent_chain = vec![entry(11, "docs"), entry(1, "w")];
    let r = rename_event(&chain, &parent_chain, 1, PROBE_INODE_RENAME);
    let e = r.event.expect("an event");
    assert_eq!(e.rename_state, 1);
    let first = extract_filename(e.total_len as usize, &slots_after(&r.writes, 8));
    let second = extract_filename(e.second_total_len as usize, &slots_after(&r.second_writes, 8));
    assert_eq!(first.iter().collect::<String>(), "/docs/old.txt");
    assert_eq!(second.iter().collect::<String>(), "/docs");
    let mut batch = EventBatch::new(1);
    assert!(batch.apply_event(1, &e, &first, &second).is_none());
    assert_eq!(batch.mode, MODE_RENAMED);
    assert!(batch.check_inode);
    assert_eq!(batch.temp_path.iter().collect::<String>(), "/docs/old.txt");
    assert_eq!(batch.base_path.iter().collect::<String>(), "/docs");
}

#[test]
fn rename_into_other_directory_is_taken_as_move() {
    let chain = vec![entry(10, "x.txt"), entry(11, "a"), entry(1, "w")];
    let target = vec![entry(12, "b"), entry(11, "a"), entry(1, "w")];
    let r = rename_event(&chain, &target, 1, PROBE_INODE_RENAME);
    let e = r.event.expect("an event");
    assert_eq!(e.rename_state, 1);
    let first = extract_filename(e.total_len as usize, &slots_after(&r.writes, 8));
    let second = extract_filename(e.second_total_len as usize, &slots_after(&r.second_writes, 8));
    assert_eq!(first.iter().collect::<String>(), "/a/x.txt");
    assert_eq!(second.iter().collect::<String>(), "/a/b");
    let mut batch = EventBatch::new(1);
    batch.apply_event(1, &e, &first, &second);
    assert_eq!(batch.mode, MODE_MOVED);
    assert_eq!(batch.base_path.iter().collect::<String>(), "/a/b");
    assert_eq!(batch.temp_path.iter().collect::<String>(), "/a/x.txt");
}
