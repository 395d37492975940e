use ullfs::events::{
    extract_filename, make_move_notice, make_notice, parse_event, ChangeType, EventBatch,
    EventRecord, EMPTY_SLOT_CHAR, MODE_DIR_CREATED, MODE_DIR_REMOVED, MODE_FILE_CREATED,
    MODE_MOVED, MODE_MOVED_IN, MODE_RENAMED, PROBE_D_INSTANTIATE, PROBE_INODE_CREATE,
    PROBE_INODE_MKDIR, PROBE_INODE_RENAME, PROBE_INODE_RMDIR, PROBE_VFS_WRITE,
};

fn chars(s: &str) -> Vec<char> {
    s.chars().collect()
}

fn text(v: &[char]) -> String {
    v.iter().collect()
}

fn slot(s: &str) -> [u8; 64] {
    let mut a = [0u8; 64];
    a[..s.len()].copy_from_slice(s.as_bytes());
    a
}

fn record(event_type: u8, inode: u64, rename_state: u8) -> EventRecord {
    EventRecord {
        inode,
        second_inode: 0,
        total_len: 0,
        second_total_len: 0,
        event_type,
        rename_state,
    }
}

fn is_kind(a: ChangeType, b: ChangeType) -> bool {
    a == b
}

#[test]
fn filename_from_slots() {
    let chunks = vec![slot("file.txt"), slot("/"), slot("dir"), slot("/")];
    assert_eq!(text(&extract_filename(13, &chunks)), "/dir/file.txt");
    // the length decides how many slots are read
    assert_eq!(text(&extract_filename(8, &chunks)), "file.txt");
}

#[test]
fn empty_slot_reads_as_marker() {
    let chunks = vec![slot("a"), [0u8; 64], slot("b")];
    let s = extract_filename(3, &chunks);
    let expected: String = vec!['a', EMPTY_SLOT_CHAR, 'b'].into_iter().collect();
    assert_eq!(text(&s), expected);
    // past the read slots everything counts as empty
    let t = extract_filename(2, &vec![slot("a")]);
    let expected2: String = vec!['a', EMPTY_SLOT_CHAR].into_iter().collect();
    assert_eq!(text(&t), expected2);
    assert_eq!(text(&extract_filename(0, &chunks)), "");
}

#[test]
fn event_record_parsing() {
    let mut buf = Vec::new();
    buf.extend_from_slice(&0x1122334455667788u64.to_le_bytes());
    buf.extend_from_slice(&42u64.to_le_bytes());
    buf.extend_from_slice(&300u16.to_le_bytes());
    buf.extend_from_slice(&7u16.to_le_bytes());
    buf.push(PROBE_INODE_RENAME);
    buf.push(2);
    buf.push(99); // extra bytes are ignored
    let e = parse_event(&buf).expect("a record");
    assert_eq!(e.inode, 0x1122334455667788);
    assert_eq!(e.second_inode, 42);
    assert_eq!(e.total_len, 300);
    assert_eq!(e.second_total_len, 7);
    assert_eq!(e.event_type, PROBE_INODE_RENAME);
    assert_eq!(e.rename_state, 2);
    assert!(parse_event(&buf[..21]).is_none());
    assert!(parse_event(&[]).is_none());
}

#[test]
fn notices() {
    let n = make_notice(&chars("/a"), ChangeType::delete);
    assert_eq!(n.filename, "/a");
    assert_eq!(n.old_filename, "");
    assert!(is_kind(n.change_type, ChangeType::delete));
    let m = make_move_notice(&chars("/from"), &chars("/to"));
    assert_eq!(m.filename, "/from");
    assert_eq!(m.old_filename, "/to");
    assert!(is_kind(m.change_type, ChangeType::move_fdir));
}

#[test]
fn write_is_reported_at_once() {
    let mut b = EventBatch::new(1);
    let r = b.apply_event(1, &record(PROBE_VFS_WRITE, 5, 0), &chars("/f"), &Vec::new());
    let n = r.expect("a notice");
    assert_eq!(n.filename, "/f");
    assert!(is_kind(n.change_type, ChangeType::write));
    assert_eq!(b.inode_num, 5);
    assert_eq!(text(&b.return_path), "/f");
    assert!(!b.check_inode);
}

#[test]
fn created_file_is_looked_up() {
    let mut b = EventBatch::new(1);
    assert!(b.apply_event(1, &record(PROBE_INODE_CREATE, 7, 0), &chars("/d"), &Vec::new()).is_none());
    assert_eq!(text(&b.base_path), "/d");
    assert!(b.apply_event(1, &record(PROBE_D_INSTANTIATE, 7, 0), &chars("/d/n"), &Vec::new()).is_none());
    assert_eq!(b.mode, MODE_FILE_CREATED);
    assert!(b.check_inode);
    let dir = b.directory_to_scan(1, &chars("/watch")).expect("a directory");
    assert_eq!(text(&dir), "/watch/d");
    let n = b.resolve_lookup(Some(chars("d/n"))).expect("a notice");
    assert_eq!(n.filename, "/d/n");
    assert!(is_kind(n.change_type, ChangeType::create_file));
}

#[test]
fn created_directory_is_looked_up() {
    let mut b = EventBatch::new(1);
    b.apply_event(1, &record(PROBE_INODE_MKDIR, 8, 0), &chars("/p"), &Vec::new());
    b.apply_event(1, &record(PROBE_D_INSTANTIATE, 8, 0), &chars("/p/q"), &Vec::new());
    assert_eq!(b.mode, MODE_DIR_CREATED);
    let n = b.resolve_lookup(Some(chars("/p/q"))).expect("a notice");
    assert!(is_kind(n.change_type, ChangeType::create_dir));
    assert_eq!(n.filename, "/p/q");
}

#[test]
fn watched_directory_itself_is_not_scanned() {
    let mut b = EventBatch::new(1);
    b.apply_event(1, &record(PROBE_INODE_RMDIR, 1, 0), &chars("/gone"), &Vec::new());
    assert_eq!(b.mode, MODE_DIR_REMOVED);
    assert!(b.directory_to_scan(1, &chars("/watch")).is_none());
    let n = b.resolve_lookup(None).expect("a deletion");
    assert_eq!(n.filename, "/gone");
    assert!(is_kind(n.change_type, ChangeType::delete));
}

#[test]
fn renames_and_moves() {
    // a rename in place: the parent of the old path is the second path
    let mut b = EventBatch::new(1);
    let r = b.apply_event(1, &record(PROBE_INODE_RENAME, 9, 1), &chars("/d/old"), &chars("/d"));
    assert!(r.is_none());
    assert_eq!(b.mode, MODE_RENAMED);
    assert_eq!(text(&b.base_path), "/d");
    let n = b.resolve_lookup(Some(chars("d/new"))).expect("a move");
    assert_eq!(n.filename, "/d/old");
    assert_eq!(n.old_filename, "/d/new");
    assert!(is_kind(n.change_type, ChangeType::move_fdir));
    // not found after a rename: the old path is deleted
    let n2 = b.resolve_lookup(None).expect("a deletion");
    assert_eq!(n2.filename, "/d/old");
    assert!(is_kind(n2.change_type, ChangeType::delete));

    // a move to another directory
    let mut m = EventBatch::new(1);
    m.apply_event(1, &record(PROBE_INODE_RENAME, 9, 1), &chars("/d/x"), &chars("/e"));
    assert_eq!(m.mode, MODE_MOVED);
    assert_eq!(text(&m.base_path), "/e");
    assert!(m.resolve_lookup(None).is_none());

    // moved in from outside: reported as a write
    let mut i = EventBatch::new(1);
    i.apply_event(1, &record(PROBE_INODE_RENAME, 9, 2), &chars("/outside/x"), &chars("/in"));
    assert_eq!(i.mode, MODE_MOVED_IN);
    let n3 = i.resolve_lookup(Some(chars("in/x"))).expect("a write");
    assert!(is_kind(n3.change_type, ChangeType::write));
    assert_eq!(n3.filename, "/in/x");

    // moved out: reported at once as a deletion
    let mut o = EventBatch::new(1);
    let n4 = o.apply_event(1, &record(PROBE_INODE_RENAME, 9, 3), &chars("/d/y"), &Vec::new());
    let n4 = n4.expect("a deletion");
    assert!(is_kind(n4.change_type, ChangeType::delete));
    assert_eq!(n4.filename, "/d/y");
}
