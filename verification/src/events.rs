//! Decoding of the file-system events reported by the kernel probes, and
//! the decisions that turn a batch of events into change notifications.
use vstd::prelude::*;
use crate::byte_util::le_value;
use crate::decode::first_zero;
use crate::paths::{reverse_components, reverse_path_components};

verus! {

/// The character that stands for an empty 64-byte slot of a reported path.
pub const EMPTY_SLOT_CHAR: char = '\u{a6}';

/// The slot `j` (counted from 1) of the reported path buffer; slots the
/// reader could not read count as all zero.
pub open spec fn slot_at(chunks: Seq<Seq<u8>>, j: int) -> Seq<u8> {
    if 1 <= j <= chunks.len() {
        chunks[j - 1]
    } else {
        Seq::new(64, |i: int| 0u8)
    }
}

/// Every byte of the slot is zero.
pub open spec fn is_empty_slot(c: Seq<u8>) -> bool {
    forall|i: int| 0 <= i < c.len() ==> c[i] == 0
}

/// Each byte read as the character with that code.
pub open spec fn latin1(b: Seq<u8>) -> Seq<char> {
    b.map_values(|x: u8| x as char)
}

/// The characters read from the path buffer, starting at slot `j` with
/// `iteration` characters counted so far, until more than `total_len`
/// have been counted: an empty slot gives one `EMPTY_SLOT_CHAR`, any other
/// slot its bytes up to the first zero byte.
pub open spec fn read_slots(total_len: int, chunks: Seq<Seq<u8>>, iteration: int, j: int) -> Seq<
    char,
>
    decreases (if iteration <= total_len { total_len + 1 - iteration } else { 0 }), chunks.len()
        + 1 - j,
{
    if iteration > total_len || j < 1 {
        Seq::<char>::empty()
    } else {
        let c = slot_at(chunks, j);
        proof {
            if j > chunks.len() {
                assert(is_empty_slot(c));
            }
        }
        if is_empty_slot(c) {
            seq![EMPTY_SLOT_CHAR] + read_slots(total_len, chunks, iteration + 1, j + 1)
        } else {
            let p = c.take(first_zero(c));
            latin1(p) + read_slots(total_len, chunks, iteration + p.len(), j + 1)
        }
    }
}

/// The path a probe reported: the characters read from its buffer slots,
/// with the order of the components reversed.
pub open spec fn reported_path(total_len: int, chunks: Seq<Seq<u8>>) -> Seq<char> {
    reverse_components(read_slots(total_len, chunks, 1, 1))
}

/// The views of the slots.
pub open spec fn slots_view(chunks: Seq<[u8; 64]>) -> Seq<Seq<u8>> {
    chunks.map_values(|a: [u8; 64]| a@)
}

/// Reassembles the path a probe reported, `total_len` characters long,
/// from the slots `1..` of its buffer (`chunks[j - 1]` is slot `j`).
pub fn extract_filename(total_len: usize, chunks: &Vec<[u8; 64]>) -> (r: Vec<char>)
    requires
        total_len + chunks@.len() + 66 <= usize::MAX,
    ensures
        r@ == reported_path(total_len as int, slots_view(chunks@)),
{
    let ghost cs = slots_view(chunks@);
    let mut filename: Vec<char> = Vec::new();
    let mut array_index: usize = 1;
    let mut iteration: usize = 1;
    while iteration <= total_len
        invariant
            total_len + chunks@.len() + 66 <= usize::MAX,
            cs == slots_view(chunks@),
            1 <= array_index <= iteration + chunks@.len(),
            1 <= iteration <= total_len + 65,
            filename@ + read_slots(total_len as int, cs, iteration as int, array_index as int)
                == read_slots(total_len as int, cs, 1, 1),
        decreases (if iteration <= total_len { total_len + 1 - iteration } else { 0 }),
            chunks@.len() + 1 - array_index,
    {
        let ghost before = filename@;
        let ghost it0 = iteration as int;
        let ghost c = slot_at(cs, array_index as int);
        let zero: [u8; 64] = [0u8; 64];
        let val: &[u8; 64] = if array_index <= chunks.len() {
            &chunks[array_index - 1]
        } else {
            &zero
        };
        assert(val@ == c);
        let mut all_zero = true;
        let mut k: usize = 0;
        while k < 64
            invariant
                k <= 64,
                val@.len() == 64,
                all_zero == (forall|i: int| 0 <= i < k ==> val@[i] == 0),
            decreases 64 - k,
        {
            if val[k] != 0 {
                all_zero = false;
            }
            k += 1;
        }
        if all_zero {
            assert(is_empty_slot(c));
            filename.push(EMPTY_SLOT_CHAR);
            iteration += 1;
        } else {
            assert(!is_empty_slot(c));
            let mut m: usize = 0;
            proof {
                crate::decode::lemma_first_zero_props(c);
            }
            while m < 64 && val[m] != 0
                invariant
                    m <= 64,
                    val@ == c,
                    val@.len() == 64,
                    it0 <= total_len,
                    iteration == it0 + m,
                    total_len + chunks@.len() + 66 <= usize::MAX,
                    forall|i: int| 0 <= i < m ==> c[i] != 0,
                    m <= first_zero(c),
                    first_zero(c) <= 64,
                    forall|i: int| 0 <= i < first_zero(c) ==> c[i] != 0,
                    first_zero(c) < 64 ==> c[first_zero(c)] == 0,
                    filename@ == before + latin1(c.take(m as int)),
                decreases 64 - m,
            {
                filename.push(val[m] as char);
                assert(c.take(m + 1) == c.take(m as int).push(c[m as int]));
                iteration += 1;
                m += 1;
            }
            assert(m == first_zero(c));
            if m == 0 {
                assert(array_index <= chunks@.len());
            }
        }
        array_index += 1;
    }
    reverse_path_components(&filename)
}

/// One event as a probe reports it.
pub struct EventRecord {
    /// Inode of the file the event is about.
    pub inode: u64,
    /// Inode of the second file (the target directory of a rename).
    pub second_inode: u64,
    /// Length of the path in the first path buffer.
    pub total_len: u16,
    /// Length of the path in the second path buffer.
    pub second_total_len: u16,
    /// Which probe fired (see the `PROBE_*` constants).
    pub event_type: u8,
    /// For renames: 1 both ends in the watched directory, 2 moved in from
    /// outside, 3 moved out.
    pub rename_state: u8,
}

/// Bytes of an event record: two 64-bit inodes, two 16-bit lengths and two
/// one-byte fields, little-endian and in that order.
pub const EVENT_RECORD_LEN: usize = 22;

pub const PROBE_PATH_MKDIR: u8 = 1;
pub const PROBE_PATH_RMDIR: u8 = 2;
pub const PROBE_PATH_MKNOD: u8 = 3;
pub const PROBE_INODE_CREATE: u8 = 11;
pub const PROBE_INODE_MKDIR: u8 = 15;
pub const PROBE_INODE_RMDIR: u8 = 16;
pub const PROBE_INODE_RENAME: u8 = 18;
pub const PROBE_D_INSTANTIATE: u8 = 19;
pub const PROBE_VFS_WRITE: u8 = 29;

/// The little-endian value of two bytes.
pub open spec fn le16(b: Seq<u8>) -> u16 {
    (b[0] as int + 256 * (b[1] as int)) as u16
}

/// Reads an event record from the start of `buf`; `None` when `buf` is
/// shorter than a record.
pub fn parse_event(buf: &[u8]) -> (r: Option<EventRecord>)
    ensures
        buf@.len() < EVENT_RECORD_LEN ==> r is None,
        buf@.len() >= EVENT_RECORD_LEN ==> (r matches Some(e) && e.inode == le_value(
            buf@.subrange(0, 8),
        ) && e.second_inode == le_value(buf@.subrange(8, 16)) && e.total_len == le16(
            buf@.subrange(16, 18),
        ) && e.second_total_len == le16(buf@.subrange(18, 20)) && e.event_type == buf@[20]
            && e.rename_state == buf@[21]),
{
    if buf.len() < EVENT_RECORD_LEN {
        return None;
    }
    let inode = crate::byte_util::read_u64_le(buf, 0);
    let second_inode = crate::byte_util::read_u64_le(buf, 8);
    let total_len = (buf[16] as u16) + 256 * (buf[17] as u16);
    let second_total_len = (buf[18] as u16) + 256 * (buf[19] as u16);
    Some(
        EventRecord {
            inode,
            second_inode,
            total_len,
            second_total_len,
            event_type: buf[20],
            rename_state: buf[21],
        },
    )
}

/// The kinds of change the client reports to the server.
#[derive(Clone, Copy, PartialEq, Eq, Structural)]
pub enum ChangeType {
    write,
    create_file,
    create_dir,
    delete,
    move_fdir,
}

/// A change to report: for moves and renames `filename` is where the file
/// was and `old_filename` where it is now.
pub struct TcpData {
    pub filename: String,
    pub old_filename: String,
    pub change_type: ChangeType,
}

/// The content of a `TcpData`.
pub struct NoticeView {
    pub filename: Seq<char>,
    pub old_filename: Seq<char>,
    pub change_type: ChangeType,
}

impl View for TcpData {
    type V = NoticeView;

    open spec fn view(&self) -> NoticeView {
        NoticeView {
            filename: self.filename@,
            old_filename: self.old_filename@,
            change_type: self.change_type,
        }
    }
}

/// A notice about one path.
pub open spec fn notice(path: Seq<char>, kind: ChangeType) -> NoticeView {
    NoticeView { filename: path, old_filename: Seq::<char>::empty(), change_type: kind }
}

/// A notice about a move from `from` to `to`.
pub open spec fn move_notice(from: Seq<char>, to: Seq<char>) -> NoticeView {
    NoticeView { filename: from, old_filename: to, change_type: ChangeType::move_fdir }
}

/// The notice for `path` of the given kind.
pub fn make_notice(path: &Vec<char>, kind: ChangeType) -> (r: TcpData)
    ensures
        r@ == notice(path@, kind),
{
    TcpData {
        filename: crate::text::string_of(path),
        old_filename: String::new(),
        change_type: kind,
    }
}

/// The notice for a move from `from` to `to`.
pub fn make_move_notice(from: &Vec<char>, to: &Vec<char>) -> (r: TcpData)
    ensures
        r@ == move_notice(from@, to@),
{
    TcpData {
        filename: crate::text::string_of(from),
        old_filename: crate::text::string_of(to),
        change_type: ChangeType::move_fdir,
    }
}

/// What is still to be looked up once a batch of events has been read.
pub const MODE_NONE: u8 = 0;
/// A file was renamed within its directory.
pub const MODE_RENAMED: u8 = 1;
/// A file was created.
pub const MODE_FILE_CREATED: u8 = 2;
/// A directory was created.
pub const MODE_DIR_CREATED: u8 = 3;
/// A directory was removed.
pub const MODE_DIR_REMOVED: u8 = 4;
/// A file or directory moved to another directory.
pub const MODE_MOVED: u8 = 5;
/// A file or directory moved in from outside the watched directory.
pub const MODE_MOVED_IN: u8 = 6;

/// What the listener remembers while it reads one batch of events.
pub struct EventBatch {
    pub inode_num: u64,
    pub second_inode_num: u64,
    pub rename_data: u8,
    pub check_inode: bool,
    pub is_dir: bool,
    pub mode: u8,
    pub temp_path: Vec<char>,
    pub base_path: Vec<char>,
    pub return_path: Vec<char>,
}

/// The content of an `EventBatch`.
pub struct BatchView {
    pub inode_num: u64,
    pub second_inode_num: u64,
    pub rename_data: u8,
    pub check_inode: bool,
    pub is_dir: bool,
    pub mode: u8,
    pub temp_path: Seq<char>,
    pub base_path: Seq<char>,
    pub return_path: Seq<char>,
}

impl View for EventBatch {
    type V = BatchView;

    open spec fn view(&self) -> BatchView {
        BatchView {
            inode_num: self.inode_num,
            second_inode_num: self.second_inode_num,
            rename_data: self.rename_data,
            check_inode: self.check_inode,
            is_dir: self.is_dir,
            mode: self.mode,
            temp_path: self.temp_path@,
            base_path: self.base_path@,
            return_path: self.return_path@,
        }
    }
}

/// The batch state with the inodes of an event recorded: an event whose
/// inode is the watched directory's own leaves the inodes as they were.
pub open spec fn with_inodes(s: BatchView, block_addr: u64, ev: EventRecord) -> BatchView {
    BatchView {
        inode_num: if block_addr != ev.inode { ev.inode } else { s.inode_num },
        second_inode_num: if block_addr != ev.inode { ev.second_inode } else { s.second_inode_num },
        rename_data: ev.rename_state,
        ..s
    }
}

/// The pending lookup recorded: look for the inode, with the given mode,
/// remembering `temp` and, when given, a new base path.
pub open spec fn with_lookup(s: BatchView, mode: u8, temp: Seq<char>) -> BatchView {
    BatchView { check_inode: true, mode, temp_path: temp, ..s }
}

/// The batch state after one event whose first path is `c` and second
/// path is `sec`.
pub open spec fn after_event(
    s: BatchView,
    block_addr: u64,
    ev: EventRecord,
    c: Seq<char>,
    sec: Seq<char>,
) -> BatchView {
    let s1 = with_inodes(s, block_addr, ev);
    let t = ev.event_type;
    if t == PROBE_INODE_RENAME {
        if ev.rename_state == 1 {
            let parent = crate::paths::parent_of(c);
            if parent != sec {
                BatchView { base_path: sec, ..with_lookup(s1, MODE_MOVED, c) }
            } else {
                BatchView { base_path: parent, ..with_lookup(s1, MODE_RENAMED, c) }
            }
        } else if ev.rename_state == 2 {
            BatchView { base_path: sec, ..with_lookup(s1, MODE_MOVED_IN, c) }
        } else if ev.rename_state == 3 {
            BatchView { return_path: c, ..s1 }
        } else {
            s1
        }
    } else if t == PROBE_PATH_MKDIR || t == PROBE_INODE_MKDIR {
        BatchView { is_dir: true, base_path: c, ..s1 }
    } else if t == PROBE_PATH_MKNOD || t == PROBE_INODE_CREATE {
        BatchView { base_path: c, ..s1 }
    } else if t == PROBE_D_INSTANTIATE {
        with_lookup(
            s1,
            if s.is_dir {
                MODE_DIR_CREATED
            } else {
                MODE_FILE_CREATED
            },
            c,
        )
    } else if t == PROBE_VFS_WRITE {
        BatchView { return_path: c, ..s1 }
    } else if t == PROBE_PATH_RMDIR || t == PROBE_INODE_RMDIR {
        with_lookup(s1, MODE_DIR_REMOVED, c)
    } else {
        s1
    }
}

/// The notice an event sends at once: a write, or a move out of the
/// watched directory (reported as a deletion).
pub open spec fn immediate_notice(ev: EventRecord, c: Seq<char>) -> Option<NoticeView> {
    if ev.event_type == PROBE_INODE_RENAME && ev.rename_state == 3 {
        Some(notice(c, ChangeType::delete))
    } else if ev.event_type == PROBE_VFS_WRITE {
        Some(notice(c, ChangeType::write))
    } else {
        None
    }
}

/// The view of an optional notice.
pub open spec fn notice_view(r: Option<TcpData>) -> Option<NoticeView> {
    match r {
        Some(d) => Some(d@),
        None => None,
    }
}

fn chars_equal(a: &Vec<char>, b: &Vec<char>) -> (r: bool)
    ensures
        r == (a@ == b@),
{
    if a.len() != b.len() {
        return false;
    }
    let n = a.len();
    for i in 0..n
        invariant
            n == a@.len(),
            n == b@.len(),
            forall|j: int| 0 <= j < i ==> a@[j] == b@[j],
    {
        if a[i] != b[i] {
            return false;
        }
    }
    assert(a@ == b@);
    true
}

fn copy_chars(v: &Vec<char>) -> (r: Vec<char>)
    ensures
        r@ == v@,
{
    let mut r: Vec<char> = Vec::new();
    crate::text::extend_chars(&mut r, v);
    r
}

impl EventBatch {
    /// The state at the start of a batch.
    pub fn new(block_addr: u64) -> (r: Self)
        ensures
            r@ == (BatchView {
                inode_num: block_addr,
                second_inode_num: block_addr,
                rename_data: 0,
                check_inode: false,
                is_dir: false,
                mode: MODE_NONE,
                temp_path: Seq::<char>::empty(),
                base_path: Seq::<char>::empty(),
                return_path: Seq::<char>::empty(),
            }),
    {
        EventBatch {
            inode_num: block_addr,
            second_inode_num: block_addr,
            rename_data: 0,
            check_inode: false,
            is_dir: false,
            mode: MODE_NONE,
            temp_path: Vec::new(),
            base_path: Vec::new(),
            return_path: Vec::new(),
        }
    }

    /// Takes in one event whose reported paths are `corrected` and
    /// `second` and returns the notice to send at once, if any.
    pub fn apply_event(
        &mut self,
        block_addr: u64,
        ev: &EventRecord,
        corrected: &Vec<char>,
        second: &Vec<char>,
    ) -> (r: Option<TcpData>)
        ensures
            final(self)@ == after_event(old(self)@, block_addr, *ev, corrected@, second@),
            notice_view(r) == immediate_notice(*ev, corrected@),
    {
        let was_dir = self.is_dir;
        self.rename_data = ev.rename_state;
        if block_addr != ev.inode {
            self.inode_num = ev.inode;
            self.second_inode_num = ev.second_inode;
        }
        let t = ev.event_type;
        let mut out: Option<TcpData> = None;
        if t == PROBE_INODE_RENAME {
            if ev.rename_state == 1 {
                let parent = crate::paths::parent_path(corrected);
                if !chars_equal(&parent, second) {
                    self.check_inode = true;
                    self.mode = MODE_MOVED;
                    self.temp_path = copy_chars(corrected);
                    self.base_path = copy_chars(second);
                } else {
                    self.check_inode = true;
                    self.mode = MODE_RENAMED;
                    self.temp_path = copy_chars(corrected);
                    self.base_path = parent;
                }
            } else if ev.rename_state == 2 {
                self.check_inode = true;
                self.mode = MODE_MOVED_IN;
                self.temp_path = copy_chars(corrected);
                self.base_path = copy_chars(second);
            } else if ev.rename_state == 3 {
                out = Some(make_notice(corrected, ChangeType::delete));
                self.return_path = copy_chars(corrected);
            }
        } else if t == PROBE_PATH_MKDIR || t == PROBE_INODE_MKDIR {
            self.is_dir = true;
            self.base_path = copy_chars(corrected);
        } else if t == PROBE_PATH_MKNOD || t == PROBE_INODE_CREATE {
            self.base_path = copy_chars(corrected);
        } else if t == PROBE_D_INSTANTIATE {
            self.mode = if was_dir {
                MODE_DIR_CREATED
            } else {
                MODE_FILE_CREATED
            };
            self.check_inode = true;
            self.temp_path = copy_chars(corrected);
        } else if t == PROBE_VFS_WRITE {
            out = Some(make_notice(corrected, ChangeType::write));
            self.return_path = copy_chars(corrected);
        } else if t == PROBE_PATH_RMDIR || t == PROBE_INODE_RMDIR {
            self.check_inode = true;
            self.mode = MODE_DIR_REMOVED;
            self.temp_path = copy_chars(corrected);
        }
        out
    }

    /// The directory to search for the batch's inode once the batch is
    /// read: none when there is nothing to look up or the inode is the
    /// watched directory itself, else the watched directory followed by the
    /// batch's base path.
    pub fn directory_to_scan(&self, block_addr: u64, watch_dir: &Vec<char>) -> (r: Option<
        Vec<char>,
    >)
        ensures
            !self.check_inode || block_addr == self.inode_num ==> r is None,
            self.check_inode && block_addr != self.inode_num ==> (r matches Some(d) && d@
                == watch_dir@ + self.base_path@),
    {
        if !self.check_inode || block_addr == self.inode_num {
            return None;
        }
        let mut d = copy_chars(watch_dir);
        crate::text::extend_chars(&mut d, &self.base_path);
        Some(d)
    }

    /// The notice for the batch once the search for its inode is done:
    /// `found` is the found entry's path relative to the watched directory.
    pub fn resolve_lookup(&self, found: Option<Vec<char>>) -> (r: Option<TcpData>)
        ensures
            notice_view(r) == lookup_notice(self@, opt_chars(found)),
    {
        match found {
            Some(rel) => {
                let rel = crate::paths::ensure_leading_slash(rel);
                if self.mode == MODE_RENAMED || self.mode == MODE_MOVED {
                    Some(make_move_notice(&self.temp_path, &rel))
                } else if self.mode == MODE_FILE_CREATED {
                    Some(make_notice(&rel, ChangeType::create_file))
                } else if self.mode == MODE_DIR_CREATED {
                    Some(make_notice(&rel, ChangeType::create_dir))
                } else if self.mode == MODE_MOVED_IN {
                    Some(make_notice(&rel, ChangeType::write))
                } else {
                    None
                }
            },
            None => {
                if self.mode == MODE_RENAMED || self.mode == MODE_DIR_REMOVED {
                    Some(make_notice(&self.temp_path, ChangeType::delete))
                } else {
                    None
                }
            },
        }
    }
}

/// The view of an optional character vector.
pub open spec fn opt_chars(v: Option<Vec<char>>) -> Option<Seq<char>> {
    match v {
        Some(c) => Some(c@),
        None => None,
    }
}

/// `p` with a `/` in front unless it starts with one.
pub open spec fn with_leading_slash(p: Seq<char>) -> Seq<char> {
    if p.len() > 0 && p[0] == '/' {
        p
    } else {
        seq!['/'] + p
    }
}

/// The notice for a batch after its lookup: when the inode was found at
/// `rel`, a rename or move to it, a creation of it, or (for a move into
/// the watched directory) a write of it; when it was not found, the
/// deletion of the remembered path for a rename or a removed directory.
pub open spec fn lookup_notice(s: BatchView, found: Option<Seq<char>>) -> Option<NoticeView> {
    match found {
        Some(rel) => {
            let r = with_leading_slash(rel);
            if s.mode == MODE_RENAMED || s.mode == MODE_MOVED {
                Some(move_notice(s.temp_path, r))
            } else if s.mode == MODE_FILE_CREATED {
                Some(notice(r, ChangeType::create_file))
            } else if s.mode == MODE_DIR_CREATED {
                Some(notice(r, ChangeType::create_dir))
            } else if s.mode == MODE_MOVED_IN {
                Some(notice(r, ChangeType::write))
            } else {
                None
            }
        },
        None => {
            if s.mode == MODE_RENAMED || s.mode == MODE_DIR_REMOVED {
                Some(notice(s.temp_path, ChangeType::delete))
            } else {
                None
            }
        },
    }
}

/// A renamed or moved entry that the lookup finds is reported as a move
/// from where it was to where it is now: the notice's `filename` is the
/// remembered old path and its `old_filename` the found path, with a `/`
/// in front when it has none, for a rename within a directory and a move
/// between directories alike.
pub proof fn law_found_move_reported_old_to_new(s: BatchView, rel: Seq<char>)
    requires
        s.mode == MODE_RENAMED || s.mode == MODE_MOVED,
    ensures
        lookup_notice(s, Some(rel)) == Some(
            NoticeView {
                filename: s.temp_path,
                old_filename: if rel.len() > 0 && rel[0] == '/' {
                    rel
                } else {
                    seq!['/'] + rel
                },
                change_type: ChangeType::move_fdir,
            },
        ),
{
}

/// A file moved into the watched directory from outside is searched for
/// in the directory it was moved to, the one the second path names, and
/// when found there it is reported as a write of the found path; the path
/// it had outside is remembered but never searched.
pub proof fn law_moved_in_searched_in_target(
    s: BatchView,
    block_addr: u64,
    ev: EventRecord,
    c: Seq<char>,
    sec: Seq<char>,
    rel: Seq<char>,
)
    requires
        ev.event_type == PROBE_INODE_RENAME,
        ev.rename_state == 2,
    ensures
        ({
            let t = after_event(s, block_addr, ev, c, sec);
            &&& t.check_inode
            &&& t.base_path == sec
            &&& t.temp_path == c
            &&& t.mode == MODE_MOVED_IN
            &&& lookup_notice(t, Some(rel)) == Some(
                NoticeView {
                    filename: if rel.len() > 0 && rel[0] == '/' {
                        rel
                    } else {
                        seq!['/'] + rel
                    },
                    old_filename: Seq::<char>::empty(),
                    change_type: ChangeType::write,
                },
            )
            &&& lookup_notice(t, None) is None
        }),
{
}

/// What the lookup reports for the other kinds of pending lookup: a
/// created file or directory found at `rel` is reported as created at its
/// path with a leading `/`; a renamed entry or removed directory that is
/// not found any more is reported as deleted at its remembered path; a
/// moved or moved-in entry that is not found, and a removed directory that
/// is found, are not reported.
pub proof fn law_lookup_outcomes(s: BatchView, rel: Seq<char>)
    ensures
        ({
            let at = if rel.len() > 0 && rel[0] == '/' {
                rel
            } else {
                seq!['/'] + rel
            };
            &&& s.mode == MODE_FILE_CREATED ==> lookup_notice(s, Some(rel)) == Some(
                NoticeView {
                    filename: at,
                    old_filename: Seq::<char>::empty(),
                    change_type: ChangeType::create_file,
                },
            )
            &&& s.mode == MODE_DIR_CREATED ==> lookup_notice(s, Some(rel)) == Some(
                NoticeView {
                    filename: at,
                    old_filename: Seq::<char>::empty(),
                    change_type: ChangeType::create_dir,
                },
            )
            &&& (s.mode == MODE_RENAMED || s.mode == MODE_DIR_REMOVED) ==> lookup_notice(s, None)
                == Some(
                NoticeView {
                    filename: s.temp_path,
                    old_filename: Seq::<char>::empty(),
                    change_type: ChangeType::delete,
                },
            )
            &&& (s.mode == MODE_MOVED || s.mode == MODE_MOVED_IN || s.mode == MODE_FILE_CREATED
                || s.mode == MODE_DIR_CREATED || s.mode == MODE_NONE) ==> lookup_notice(s, None)
                is None
            &&& s.mode == MODE_DIR_REMOVED ==> lookup_notice(s, Some(rel)) is None
        }),
{
}

/// The notices an event sends at once: a write is reported as a write of
/// the event's path, a move out of the watched directory as the deletion
/// of the path it had; no other event sends one at once.
pub proof fn law_immediate_notices(ev: EventRecord, c: Seq<char>)
    ensures
        ev.event_type == PROBE_VFS_WRITE ==> immediate_notice(ev, c) == Some(
            NoticeView {
                filename: c,
                old_filename: Seq::<char>::empty(),
                change_type: ChangeType::write,
            },
        ),
        ev.event_type == PROBE_INODE_RENAME && ev.rename_state == 3 ==> immediate_notice(ev, c)
            == Some(
            NoticeView {
                filename: c,
                old_filename: Seq::<char>::empty(),
                change_type: ChangeType::delete,
            },
        ),
        ev.event_type != PROBE_VFS_WRITE && !(ev.event_type == PROBE_INODE_RENAME
            && ev.rename_state == 3) ==> immediate_notice(ev, c) is None,
{
}

} // verus!
