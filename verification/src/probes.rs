//! The kernel probes' side of path reporting: which renames are reported,
//! whether a file lies inside the watched directory, and how a path is
//! written into the numbered 64-byte slots that the listener reads back.
use vstd::prelude::*;
use crate::decode::first_zero;
use crate::events::{latin1, read_slots};
use crate::paths::{
    join_with, lemma_join_cons, lemma_reverse_joined, lemma_split_join, nonempty_components,
    parent_of, pieces_free_of, reverse_components,
};

verus! {

/// How a rename is reported, from whether its source and its target
/// directory lie inside the watched directory: 1 both inside, 2 moved in,
/// 3 moved out; a rename entirely outside is not reported.
pub fn rename_state(from_in_dir: bool, to_in_dir: bool) -> (r: Option<u8>)
    ensures
        from_in_dir && to_in_dir ==> r == Some(1u8),
        !from_in_dir && to_in_dir ==> r == Some(2u8),
        from_in_dir && !to_in_dir ==> r == Some(3u8),
        !from_in_dir && !to_in_dir ==> r is None,
{
    let mut rn_state: u8 = 1;
    if !from_in_dir {
        rn_state = 2;
    }
    if !to_in_dir {
        if rn_state == 2 {
            return None;
        } else {
            rn_state = 3;
        }
    }
    Some(rn_state)
}

/// How many ancestors the probes look at.
pub const MAX_DEPTH: usize = 50;

/// Whether the watched directory's inode is among the first `MAX_DEPTH`
/// inodes of the chain from a file up through its ancestors (the chain
/// ends where the walk could not go on).
pub fn in_dir(chain: &Vec<u64>, dir_inode: u64) -> (r: bool)
    ensures
        r == exists|i: int| 0 <= i < chain@.len() && i < MAX_DEPTH && chain@[i] == dir_inode,
{
    let mut i: usize = 0;
    while i < MAX_DEPTH && i < chain.len()
        invariant
            i <= MAX_DEPTH,
            i <= chain@.len(),
            forall|j: int| 0 <= j < i ==> chain@[j] != dir_inode,
        decreases MAX_DEPTH - i,
    {
        if chain[i] == dir_inode {
            return true;
        }
        i += 1;
    }
    false
}

/// One step of the walk up from a file: the inode of the entry and, when
/// its name could be read, the name's length and the 256 bytes read from
/// where the name starts.
pub struct DentryRead {
    pub inode: u64,
    pub name: Option<(u32, [u8; 256])>,
}

/// The content of a `DentryRead`.
pub struct DentryView {
    pub inode: u64,
    pub name: Option<(u32, Seq<u8>)>,
}

pub open spec fn dentry_view(d: DentryRead) -> DentryView {
    DentryView {
        inode: d.inode,
        name: match d.name {
            Some((l, w)) => Some((l, w@)),
            None => None,
        },
    }
}

pub open spec fn chain_view(c: Seq<DentryRead>) -> Seq<DentryView> {
    c.map_values(|d: DentryRead| dentry_view(d))
}

/// The 64 bytes of slot `n` of a name window.
pub open spec fn window_chunk(w: Seq<u8>, n: int) -> Seq<u8> {
    w.subrange(64 * n, 64 * n + 64)
}

/// The slot holding a path separator: `/` and zero bytes.
pub open spec fn slash_slot() -> Seq<u8> {
    Seq::new(64, |i: int| if i == 0 { 47u8 } else { 0u8 })
}

/// The slot writes of one name starting at slot `offset`, and the length
/// it adds: a name shorter than 256 bytes fills as many slots as it
/// reaches into and adds its length; a longer one fills four slots and
/// adds nothing; an unreadable name writes and adds nothing.
pub open spec fn dname_writes(offset: int, name: Option<(u32, Seq<u8>)>) -> (
    Seq<(int, Seq<u8>)>,
    int,
) {
    match name {
        None => (Seq::<(int, Seq<u8>)>::empty(), 0),
        Some((l, w)) => {
            let last = if l < 256 { l / 64 } else { 3 };
            (
                Seq::new((last + 1) as nat, |n: int| (offset + n, window_chunk(w, n))),
                if l < 256 { l as int } else { 0 },
            )
        },
    }
}

/// The slot writes of the walk from entry `i` on, writing at `offset`
/// with `full` counted so far, and the final count: each entry below the
/// watched directory writes its name, then a separator slot right after
/// the name's first slot.
pub open spec fn path_walk(
    chain: Seq<DentryView>,
    dir_inode: u64,
    depth: int,
    i: int,
    offset: int,
    full: int,
) -> (Seq<(int, Seq<u8>)>, int)
    decreases depth - i,
{
    if i < 0 || i >= depth || i >= chain.len() || chain[i].inode == dir_inode {
        (Seq::<(int, Seq<u8>)>::empty(), full)
    } else {
        let (w, len) = dname_writes(offset, chain[i].name);
        let (rest, f) = path_walk(chain, dir_inode, depth, i + 1, offset + 2, full + len + 1);
        (w + seq![(offset + 1, slash_slot())] + rest, f)
    }
}

/// The length the probe reports for a path with count `full`.
pub open spec fn reported_length(full: int) -> int {
    full - 1 + full / 255
}

/// A slot write.
pub struct SlotWrite {
    pub index: u32,
    pub chunk: [u8; 64],
}

pub open spec fn writes_view(v: Seq<SlotWrite>) -> Seq<(int, Seq<u8>)> {
    v.map_values(|s: SlotWrite| (s.index as int, s.chunk@))
}

fn chunk_of(w: &[u8; 256], n: usize) -> (r: [u8; 64])
    requires
        n < 4,
    ensures
        r@ == window_chunk(w@, n as int),
{
    let mut r: [u8; 64] = [0u8; 64];
    let mut k: usize = 0;
    while k < 64
        invariant
            n < 4,
            k <= 64,
            r@.len() == 64,
            w@.len() == 256,
            forall|j: int| 0 <= j < k ==> r@[j] == w@[64 * n + j],
        decreases 64 - k,
    {
        r[k] = w[64 * n + k];
        k += 1;
    }
    assert(r@ == window_chunk(w@, n as int));
    r
}

/// The slot writes of one name at slot `offset` and the length it adds
/// (see `dname_writes`).
pub fn dname_to_map(offset: u32, name: &Option<(u32, [u8; 256])>, out: &mut Vec<SlotWrite>) -> (r:
    u32)
    requires
        offset + 3 <= u32::MAX,
    ensures
        ({
            let nv = match *name {
                Some((l, w)) => Some((l, w@)),
                None => None,
            };
            let (w, len) = dname_writes(offset as int, nv);
            writes_view(final(out)@) == writes_view(old(out)@) + w && r == len
        }),
{
    match name {
        None => 0,
        Some((msg_len, window)) => {
            let ghost start = writes_view(out@);
            let mut n: usize = 0;
            let last: usize = if *msg_len < 256 {
                (*msg_len / 64) as usize
            } else {
                3
            };
            while n <= last
                invariant
                    last <= 3,
                    n <= last + 1,
                    offset + 3 <= u32::MAX,
                    writes_view(out@) == start + Seq::new(
                        n as nat,
                        |k: int| (offset + k, window_chunk(window@, k)),
                    ),
                decreases last + 1 - n,
            {
                let c = chunk_of(window, n);
                let ghost prev_out = out@;
                let sw = SlotWrite { index: offset + n as u32, chunk: c };
                out.push(sw);
                assert(out@ == prev_out.push(sw));
                assert(writes_view(out@) == writes_view(prev_out).push(
                    (offset + n, window_chunk(window@, n as int)),
                ));
                assert(writes_view(out@) == start + Seq::new(
                    (n + 1) as nat,
                    |k: int| (offset + k, window_chunk(window@, k)),
                ));
                n += 1;
            }
            if *msg_len < 256 {
                *msg_len
            } else {
                0
            }
        },
    }
}

/// The slot writes of a whole path, written from the reported file up to
/// the watched directory (at most `depth` entries), and the length the
/// probe reports (see `path_walk` and `reported_length`).
pub fn path_to_map(chain: &Vec<DentryRead>, dir_inode: u64, depth: u8) -> (r: (Vec<SlotWrite>, u32))
    ensures
        ({
            let (w, f) = path_walk(chain_view(chain@), dir_inode, depth as int, 0, 1, 1);
            writes_view(r.0@) == w && r.1 == reported_length(f)
        }),
{
    let mut out: Vec<SlotWrite> = Vec::new();
    let mut full_length: u32 = 1;
    let mut array_offset: u32 = 1;
    let mut i: usize = 0;
    let ghost cv = chain_view(chain@);
    while i < depth as usize
        invariant
            cv == chain_view(chain@),
            i <= depth,
            array_offset == 1 + 2 * i,
            1 <= full_length <= 1 + 257 * i,
            ({
                let (w, f) = path_walk(cv, dir_inode, depth as int, 0, 1, 1);
                let (w2, f2) = path_walk(
                    cv,
                    dir_inode,
                    depth as int,
                    i as int,
                    array_offset as int,
                    full_length as int,
                );
                w == writes_view(out@) + w2 && f == f2
            }),
        ensures
            ({
                let (w, f) = path_walk(cv, dir_inode, depth as int, 0, 1, 1);
                w == writes_view(out@) && f == full_length
            }),
        decreases depth - i,
    {
        if i >= chain.len() || chain[i].inode == dir_inode {
            break;
        }
        let ghost before = writes_view(out@);
        let ghost off0 = array_offset as int;
        let ghost full0 = full_length as int;
        let len = dname_to_map(array_offset, &chain[i].name, &mut out);
        assert(cv[i as int] == dentry_view(chain@[i as int]));
        let ghost dw = dname_writes(off0, cv[i as int].name);
        assert(writes_view(out@) == before + dw.0);
        array_offset += 1;
        full_length += len;
        let ghost mid = out@;
        let sw = SlotWrite { index: array_offset, chunk: slash_chunk() };
        out.push(sw);
        assert(out@ == mid.push(sw));
        assert(writes_view(out@) == writes_view(mid).push((off0 + 1, slash_slot())));
        array_offset += 1;
        full_length += 1;
        let ghost step = path_walk(cv, dir_inode, depth as int, i as int, off0, full0);
        let ghost rest = path_walk(
            cv,
            dir_inode,
            depth as int,
            i + 1,
            off0 + 2,
            full0 + dw.1 + 1,
        );
        assert(step == (dw.0 + seq![(off0 + 1, slash_slot())] + rest.0, rest.1));
        assert(writes_view(out@) + rest.0 == before + step.0);
        i += 1;
    }
    (out, full_length - 1 + full_length / 255)
}

fn slash_chunk() -> (r: [u8; 64])
    ensures
        r@ == slash_slot(),
{
    let mut r: [u8; 64] = [0u8; 64];
    r[0] = 47u8;
    assert(r@ == slash_slot());
    r
}

/// The slots after the writes are made in order, starting from `slots`
/// (slot `j` is `slots[j - 1]`); writes outside the slots are lost.
pub open spec fn apply_writes(slots: Seq<Seq<u8>>, ws: Seq<(int, Seq<u8>)>) -> Seq<Seq<u8>>
    decreases ws.len(),
{
    if ws.len() == 0 {
        slots
    } else {
        let (j, c) = ws[0];
        let s1 = if 1 <= j <= slots.len() {
            slots.update(j - 1, c)
        } else {
            slots
        };
        apply_writes(s1, ws.drop_first())
    }
}

/// A name the probe writes whole: readable, not empty, shorter than one
/// slot, and read up to the zero byte that ends it.
pub open spec fn short_name(d: DentryView) -> bool {
    &&& d.name is Some
    &&& {
        let (l, w) = d.name->Some_0;
        &&& 1 <= l < 64
        &&& w.len() == 256
        &&& forall|i: int| 0 <= i < l ==> w[i] != 0
        &&& w[l as int] == 0
    }
}

/// The length of an entry's name.
pub open spec fn name_len(d: DentryView) -> int {
    d.name->Some_0.0 as int
}

/// The bytes of an entry's name.
pub open spec fn name_bytes(d: DentryView) -> Seq<u8> {
    d.name->Some_0.1.take(name_len(d))
}

/// The characters the first `m` entries of the walk add up to.
pub open spec fn count_to(chain: Seq<DentryView>, m: int) -> int
    decreases m,
{
    if m <= 0 {
        0
    } else {
        count_to(chain, m - 1) + name_len(chain[m - 1]) + 1
    }
}

/// The text the walk writes for entries `m..k`: each name followed by `/`.
pub open spec fn text_from(chain: Seq<DentryView>, m: int, k: int) -> Seq<char>
    decreases k - m,
{
    if m >= k {
        Seq::<char>::empty()
    } else {
        latin1(name_bytes(chain[m])) + seq!['/'] + text_from(chain, m + 1, k)
    }
}

/// The writes of the walk over short names `i..k`.
pub open spec fn short_walk(chain: Seq<DentryView>, i: int, k: int) -> Seq<(int, Seq<u8>)>
    decreases k - i,
{
    if i >= k {
        Seq::<(int, Seq<u8>)>::empty()
    } else {
        seq![(1 + 2 * i, window_chunk(chain[i].name->Some_0.1, 0)), (2 + 2 * i, slash_slot())]
            + short_walk(chain, i + 1, k)
    }
}

proof fn lemma_walk_short(chain: Seq<DentryView>, dir_inode: u64, depth: int, i: int, k: int)
    requires
        0 <= i <= k <= depth,
        k <= chain.len(),
        forall|m: int| 0 <= m < k ==> short_name(#[trigger] chain[m]) && chain[m].inode != dir_inode,
        k == chain.len() || k == depth || chain[k].inode == dir_inode,
    ensures
        path_walk(chain, dir_inode, depth, i, 1 + 2 * i, 1 + count_to(chain, i)) == (
            short_walk(chain, i, k),
            1 + count_to(chain, k),
        ),
    decreases k - i,
{
    if i < k {
        assert(short_name(chain[i]));
        let (l, w) = chain[i].name->Some_0;
        let dw = dname_writes(1 + 2 * i, chain[i].name);
        assert(dw.0 =~= seq![(1 + 2 * i, window_chunk(w, 0))]);
        lemma_walk_short(chain, dir_inode, depth, i + 1, k);
        assert(count_to(chain, i + 1) == count_to(chain, i) + name_len(chain[i]) + 1);
        assert(seq![(1 + 2 * i, window_chunk(w, 0))] + seq![(1 + 2 * i + 1, slash_slot())]
            + short_walk(chain, i + 1, k) =~= short_walk(chain, i, k));
    }
}

proof fn lemma_apply_untouched(slots: Seq<Seq<u8>>, ws: Seq<(int, Seq<u8>)>, lo: int, x: int)
    requires
        forall|t: int| 0 <= t < ws.len() ==> (#[trigger] ws[t]).0 >= lo,
        0 <= x < lo - 1,
        x < slots.len(),
    ensures
        apply_writes(slots, ws).len() == slots.len(),
        apply_writes(slots, ws)[x] == slots[x],
    decreases ws.len(),
{
    if ws.len() > 0 {
        let (j, c) = ws[0];
        let s1 = if 1 <= j <= slots.len() {
            slots.update(j - 1, c)
        } else {
            slots
        };
        assert forall|t: int| 0 <= t < ws.drop_first().len() implies (
        #[trigger] ws.drop_first()[t]).0 >= lo by {
            assert(ws.drop_first()[t] == ws[t + 1]);
        }
        lemma_apply_untouched(s1, ws.drop_first(), lo, x);
    }
}

proof fn lemma_short_walk_indices(chain: Seq<DentryView>, i: int, k: int)
    ensures
        forall|t: int|
            0 <= t < short_walk(chain, i, k).len() ==> (#[trigger] short_walk(chain, i, k)[t]).0
                >= 1 + 2 * i,
        short_walk(chain, i, k).len() == if i >= k { 0 } else { 2 * (k - i) },
    decreases k - i,
{
    if i < k {
        lemma_short_walk_indices(chain, i + 1, k);
        let sw = short_walk(chain, i, k);
        let rest = short_walk(chain, i + 1, k);
        assert forall|t: int| 0 <= t < sw.len() implies (#[trigger] sw[t]).0 >= 1 + 2 * i by {
            if t >= 2 {
                assert(sw[t] == rest[t - 2]);
            }
        }
    }
}

proof fn lemma_apply_short(slots: Seq<Seq<u8>>, chain: Seq<DentryView>, i: int, k: int)
    requires
        0 <= i <= k,
        2 * k <= slots.len(),
    ensures
        apply_writes(slots, short_walk(chain, i, k)).len() == slots.len(),
        forall|m: int|
            i <= m < k ==> apply_writes(slots, short_walk(chain, i, k))[2 * m] == window_chunk(
                chain[m].name->Some_0.1,
                0,
            ) && apply_writes(slots, short_walk(chain, i, k))[2 * m + 1] == slash_slot(),
    decreases k - i,
{
    if i < k {
        let c = window_chunk(chain[i].name->Some_0.1, 0);
        let s1 = slots.update(2 * i, c);
        let s2 = s1.update(2 * i + 1, slash_slot());
        let sw = short_walk(chain, i, k);
        let rest = short_walk(chain, i + 1, k);
        assert(sw.drop_first().drop_first() == rest);
        assert(apply_writes(slots, sw) == apply_writes(s1, sw.drop_first()));
        assert(apply_writes(s1, sw.drop_first()) == apply_writes(s2, rest));
        lemma_apply_short(s2, chain, i + 1, k);
        lemma_short_walk_indices(chain, i + 1, k);
        if i + 1 <= k {
            lemma_apply_untouched(s2, rest, 1 + 2 * (i + 1), 2 * i);
            lemma_apply_untouched(s2, rest, 1 + 2 * (i + 1), 2 * i + 1);
        }
    }
}

proof fn lemma_first_zero_at(b: Seq<u8>, t: int)
    requires
        0 <= t < b.len(),
        forall|i: int| 0 <= i < t ==> b[i] != 0,
        b[t] == 0,
    ensures
        first_zero(b) == t,
{
    crate::decode::lemma_first_zero_props(b);
    if first_zero(b) < t {
        assert(b[first_zero(b)] != 0);
    }
    if first_zero(b) > t {
        assert(b[t] != 0);
    }
}

proof fn lemma_read_short(
    r: Seq<Seq<u8>>,
    chain: Seq<DentryView>,
    m: int,
    k: int,
    total: int,
)
    requires
        0 <= m <= k,
        2 * k <= r.len(),
        total == count_to(chain, k),
        forall|n: int| 0 <= n < k ==> short_name(#[trigger] chain[n]),
        forall|n: int|
            m <= n < k ==> r[2 * n] == window_chunk(#[trigger] chain[n].name->Some_0.1, 0) && r[2
                * n + 1] == slash_slot(),
    ensures
        read_slots(total, r, 1 + count_to(chain, m), 1 + 2 * m) == text_from(chain, m, k),
    decreases k - m,
{
    lemma_count_monotone(chain, m, k);
    if m < k {
        let d = chain[m];
        assert(short_name(d));
        let (l, w) = d.name->Some_0;
        let c = window_chunk(w, 0);
        assert(r[2 * m] == c);
        let it = 1 + count_to(chain, m);
        assert(count_to(chain, m + 1) == count_to(chain, m) + l + 1);
        lemma_count_monotone(chain, m + 1, k);
        assert(c[0] != 0);
        assert(!crate::events::is_empty_slot(c));
        lemma_first_zero_at(c, l as int);
        assert(c.take(l as int) == name_bytes(d));
        let sl = slash_slot();
        assert(sl[0] == 47u8);
        assert(!crate::events::is_empty_slot(sl));
        lemma_first_zero_at(sl, 1);
        assert(sl.take(1) == seq![47u8]);
        assert(latin1(seq![47u8]) == seq!['/']) by {
            assert(latin1(seq![47u8])[0] == (47u8 as char));
            assert((47u8 as char) == '/');
        }
        lemma_read_short(r, chain, m + 1, k, total);
        assert(read_slots(total, r, it + l + 1, 2 * m + 3) == text_from(chain, m + 1, k));
        assert(read_slots(total, r, it + l, 2 * m + 2) == seq!['/'] + text_from(chain, m + 1, k));
        assert(latin1(name_bytes(d)) + (seq!['/'] + text_from(chain, m + 1, k)) == text_from(
            chain,
            m,
            k,
        ));
    }
}

proof fn lemma_count_monotone(chain: Seq<DentryView>, m: int, k: int)
    requires
        0 <= m <= k,
        forall|n: int| 0 <= n < k ==> short_name(#[trigger] chain[n]),
    ensures
        count_to(chain, m) <= count_to(chain, k),
        m < k ==> count_to(chain, m) + 2 <= count_to(chain, k),
        count_to(chain, k) >= 2 * k,
    decreases k,
{
    if k > 0 {
        assert(short_name(chain[k - 1]));
        if m < k {
            lemma_count_monotone(chain, m, k - 1);
        } else {
            lemma_count_monotone(chain, k - 1, k - 1);
        }
    }
}

/// For a file whose path below the watched directory has only short
/// names and fewer than 254 characters in all, the listener reads back
/// from the slots exactly the text the probe wrote: each name, leaf
/// first, followed by `/`, whatever the slots held before.
pub proof fn law_probe_path_roundtrip(
    slots: Seq<Seq<u8>>,
    chain: Seq<DentryView>,
    dir_inode: u64,
    depth: int,
    k: int,
)
    requires
        0 <= k <= depth,
        k <= chain.len(),
        forall|m: int| 0 <= m < k ==> short_name(#[trigger] chain[m]) && chain[m].inode != dir_inode,
        k == chain.len() || k == depth || chain[k].inode == dir_inode,
        1 + count_to(chain, k) < 255,
        2 * k <= slots.len(),
    ensures
        ({
            let (ws, f) = path_walk(chain, dir_inode, depth, 0, 1, 1);
            &&& reported_length(f) == count_to(chain, k)
            &&& read_slots(reported_length(f), apply_writes(slots, ws), 1, 1) == text_from(
                chain,
                0,
                k,
            )
        }),
{
    lemma_walk_short(chain, dir_inode, depth, 0, k);
    assert(count_to(chain, 0) == 0);
    let f = 1 + count_to(chain, k);
    lemma_count_monotone(chain, 0, k);
    assert(f / 255 == 0);
    assert(reported_length(f) == count_to(chain, k));
    lemma_apply_short(slots, chain, 0, k);
    let r = apply_writes(slots, short_walk(chain, 0, k));
    lemma_read_short(r, chain, 0, k, count_to(chain, k));
}

/// The names of entries `m..k` of the walk, as text.
pub open spec fn names_from(chain: Seq<DentryView>, m: int, k: int) -> Seq<Seq<char>> {
    Seq::new((k - m) as nat, |i: int| latin1(name_bytes(chain[m + i])))
}

/// The path of entry 0 of the walk below the directory at entry `k`: a
/// `/` before each name, from the outermost directory down to the entry.
pub open spec fn path_below(chain: Seq<DentryView>, k: int) -> Seq<char> {
    if k <= 0 {
        Seq::<char>::empty()
    } else {
        seq!['/'] + join_with(names_from(chain, 0, k).reverse(), '/')
    }
}

proof fn lemma_text_from_joined(chain: Seq<DentryView>, m: int, k: int)
    requires
        0 <= m <= k,
    ensures
        text_from(chain, m, k) == join_with(names_from(chain, m, k).push(Seq::<char>::empty()), '/'),
    decreases k - m,
{
    let e = Seq::<char>::empty();
    if m == k {
        assert(names_from(chain, m, k).push(e) =~= seq![e]);
    } else {
        lemma_text_from_joined(chain, m + 1, k);
        let rest = names_from(chain, m + 1, k).push(e);
        let a = latin1(name_bytes(chain[m]));
        assert(names_from(chain, m, k).push(e) =~= seq![a] + rest);
        lemma_join_cons(a, rest, '/');
    }
}

/// Read back in reverse component order, the text the walk writes is the
/// entry's path below the watched directory, when no name holds a `/`.
pub proof fn lemma_reversed_text_is_path(chain: Seq<DentryView>, k: int)
    requires
        0 <= k,
        forall|m: int| 0 <= m < k ==> !(#[trigger] name_bytes(chain[m])).contains(47u8),
    ensures
        reverse_components(text_from(chain, 0, k)) == path_below(chain, k),
{
    let e = Seq::<char>::empty();
    let names = names_from(chain, 0, k);
    let parts = names.push(e);
    lemma_text_from_joined(chain, 0, k);
    assert(pieces_free_of(parts, '/')) by {
        assert forall|i: int| 0 <= i < parts.len() implies !(#[trigger] parts[i]).contains('/') by {
            if i < k {
                let b = name_bytes(chain[i]);
                assert(parts[i] == latin1(b));
                if latin1(b).contains('/') {
                    let j = choose|j: int| 0 <= j < latin1(b).len() && latin1(b)[j] == '/';
                    assert((b[j] as char) == '/');
                    assert(b[j] == 47u8);
                    assert(b.contains(47u8));
                }
            } else {
                assert(parts[i] == e);
            }
        }
    }
    lemma_reverse_joined(parts);
    assert(parts.reverse() =~= seq![e] + names.reverse());
    if k > 0 {
        lemma_join_cons(e, names.reverse(), '/');
        assert(e + seq!['/'] + join_with(names.reverse(), '/') =~= seq!['/'] + join_with(
            names.reverse(),
            '/',
        ));
    } else {
        assert(parts.reverse() =~= seq![e]);
    }
}

proof fn lemma_filter_keeps_nonempty(s: Seq<Seq<char>>)
    requires
        forall|i: int| 0 <= i < s.len() ==> (#[trigger] s[i]).len() > 0,
    ensures
        s.filter(|p: Seq<char>| p.len() > 0) == s,
    decreases s.len(),
{
    if s.len() > 0 {
        let d = s.drop_last();
        lemma_filter_keeps_nonempty(d);
        assert(s.last().len() > 0) by {
            assert(s[s.len() - 1] == s.last());
        }
        d.lemma_filter_push(s.last(), |p: Seq<char>| p.len() > 0);
        assert(d.push(s.last()) =~= s);
    }
}

/// The names of an entry's path below the watched directory, from the
/// outermost down, are the path's non-empty components.
proof fn lemma_components_of_path_below(chain: Seq<DentryView>, k: int)
    requires
        1 <= k <= chain.len(),
        forall|m: int|
            0 <= m < k ==> (#[trigger] name_bytes(chain[m])).len() > 0 && !name_bytes(
                chain[m],
            ).contains(47u8),
    ensures
        nonempty_components(path_below(chain, k)) == names_from(chain, 0, k).reverse(),
{
    let e = Seq::<char>::empty();
    let r = names_from(chain, 0, k).reverse();
    assert forall|i: int| 0 <= i < r.len() implies (#[trigger] r[i]).len() > 0 && !r[i].contains(
        '/',
    ) by {
        let m = k - 1 - i;
        let b = name_bytes(chain[m]);
        assert(r[i] == latin1(b));
        if latin1(b).contains('/') {
            let j = choose|j: int| 0 <= j < latin1(b).len() && latin1(b)[j] == '/';
            assert((b[j] as char) == '/');
            assert(b[j] == 47u8);
            assert(b.contains(47u8));
        }
    }
    let parts = seq![e] + r;
    assert(pieces_free_of(parts, '/')) by {
        assert forall|i: int| 0 <= i < parts.len() implies !(#[trigger] parts[i]).contains('/') by {
            if i > 0 {
                assert(parts[i] == r[i - 1]);
            }
        }
    }
    lemma_join_cons(e, r, '/');
    assert(e + seq!['/'] + join_with(r, '/') =~= path_below(chain, k));
    lemma_split_join(parts, '/');
    let keep = |p: Seq<char>| p.len() > 0;
    Seq::filter_distributes_over_add(seq![e], r, keep);
    lemma_filter_keeps_nonempty(r);
    Seq::<Seq<char>>::empty().lemma_filter_push(e, keep);
    assert(Seq::<Seq<char>>::empty().push(e) =~= seq![e]);
    assert(seq![e].filter(keep) =~= Seq::<Seq<char>>::empty());
    assert(Seq::<Seq<char>>::empty() + r =~= r);
}

/// The parent of the path of an entry below the watched directory is the
/// path of the entry's directory, when the names are not empty and hold
/// no `/`.
pub proof fn lemma_parent_of_path_below(chain: Seq<DentryView>, k: int)
    requires
        1 <= k <= chain.len(),
        forall|m: int|
            0 <= m < k ==> (#[trigger] name_bytes(chain[m])).len() > 0 && !name_bytes(
                chain[m],
            ).contains(47u8),
    ensures
        parent_of(path_below(chain, k)) == path_below(chain.skip(1), k - 1),
{
    lemma_components_of_path_below(chain, k);
    let r = names_from(chain, 0, k).reverse();
    let tail = chain.skip(1);
    if k > 1 {
        assert(r.drop_last() =~= names_from(tail, 0, k - 1).reverse());
    }
}

/// The count of a walk that starts one entry higher leaves out the first
/// entry's name and its `/`.
pub(crate) proof fn lemma_count_to_skip(chain: Seq<DentryView>, k: int)
    requires
        1 <= k <= chain.len(),
    ensures
        count_to(chain.skip(1), k - 1) + name_len(chain[0]) + 1 == count_to(chain, k),
    decreases k,
{
    let tail = chain.skip(1);
    if k > 1 {
        lemma_count_to_skip(chain, k - 1);
        assert(tail[k - 2] == chain[k - 1]);
        assert(count_to(tail, k - 1) == count_to(tail, k - 2) + name_len(tail[k - 2]) + 1);
        assert(count_to(chain, k) == count_to(chain, k - 1) + name_len(chain[k - 1]) + 1);
    } else {
        assert(count_to(tail, 0) == 0);
        assert(count_to(chain, 1) == count_to(chain, 0) + name_len(chain[0]) + 1);
        assert(count_to(chain, 0) == 0);
    }
}

} // verus!
