//! Deltas between two versions of a file: the changed middle section that
//! lies between the longest common prefix and the longest common suffix, and
//! its application on the receiving side.
use vstd::prelude::*;
use crate::byte_util::copy_range;
use crate::hashing::{xxh3_64, xxh3_64_of};

verus! {

/// A change to a file: replace the bytes between `start_index` (1-based,
/// the first changed byte) and `end_index` (0-based end of the replaced
/// region in the old file) by `data`. `old_hash` identifies the version
/// the change applies to.
pub struct Delta {
    pub start_index: u64,
    pub end_index: u64,
    pub data: Vec<u8>,
    pub old_hash: u64,
}

impl Delta {
    pub fn new(start_index: u64, end_index: u64, data: Vec<u8>, old_hash: u64) -> (r: Self)
        ensures
            r.start_index == start_index,
            r.end_index == end_index,
            r.data@ == data@,
            r.old_hash == old_hash,
    {
        Delta { start_index, end_index, data, old_hash }
    }
}

/// `p` is the length of the longest common prefix of `old` and `new`.
pub open spec fn is_common_prefix_len(old: Seq<u8>, new: Seq<u8>, p: int) -> bool {
    &&& 0 <= p <= old.len()
    &&& p <= new.len()
    &&& forall|i: int| 0 <= i < p ==> old[i] == new[i]
    &&& (p < old.len() && p < new.len() ==> old[p] != new[p])
}

/// The end in `new` of the region that corresponds to `old[..old_end]`.
pub open spec fn new_end_of(old: Seq<u8>, new: Seq<u8>, old_end: int) -> int {
    old_end + new.len() - old.len()
}

/// `old[old_end..]` is the longest common suffix of `old` and `new` that
/// does not reach back into the first `p` bytes.
pub open spec fn is_common_suffix_end(old: Seq<u8>, new: Seq<u8>, p: int, old_end: int) -> bool {
    let new_end = new_end_of(old, new, old_end);
    &&& p <= old_end <= old.len()
    &&& p <= new_end <= new.len()
    &&& forall|i: int|
        old_end <= i < old.len() ==> #[trigger] old[i] == new[i + new.len() - old.len()]
    &&& (old_end > p && new_end > p ==> old[old_end - 1] != new[new_end - 1])
}

/// `d` is the delta that turns `old` into `new`: it starts right after the
/// longest common prefix, ends right before the longest common suffix, and
/// carries the bytes of `new` in between and the hash of `old`.
pub open spec fn is_delta_of(d: Delta, old: Seq<u8>, new: Seq<u8>) -> bool {
    let p = d.start_index - 1;
    &&& d.start_index >= 1
    &&& is_common_prefix_len(old, new, p)
    &&& is_common_suffix_end(old, new, p, d.end_index as int)
    &&& d.data@ == new.subrange(p, new_end_of(old, new, d.end_index as int))
    &&& d.old_hash == xxh3_64_of(old)
}

/// Where the receiver resumes copying the old file after the new bytes.
pub open spec fn resume_at(start: int, end: int) -> int {
    if start > end {
        start - 1
    } else {
        end
    }
}

/// The file the receiver writes for a delta: the first `start - 1` old
/// bytes, then `data`, then the old bytes from `resume_at(start, end)` on.
pub open spec fn spliced(old: Seq<u8>, start: int, end: int, data: Seq<u8>) -> Seq<u8> {
    let r = resume_at(start, end);
    old.take(start - 1) + data + old.skip(if r <= old.len() { r } else { old.len() as int })
}

/// Computes the delta from `old` to `new` once the hash of `old` is known.
pub fn compute_delta(old: &Vec<u8>, new: &Vec<u8>, old_hash: u64) -> (r: Delta)
    requires
        old@.len() < u64::MAX,
    ensures
        r.start_index >= 1,
        is_common_prefix_len(old@, new@, r.start_index - 1),
        is_common_suffix_end(old@, new@, r.start_index - 1, r.end_index as int),
        r.data@ == new@.subrange(r.start_index - 1, new_end_of(old@, new@, r.end_index as int)),
        r.old_hash == old_hash,
{
    let mut start_index: usize = 0;
    while start_index < old.len() && start_index < new.len() && old[start_index] == new[start_index]
        invariant
            start_index <= old@.len(),
            start_index <= new@.len(),
            forall|i: int| 0 <= i < start_index ==> old@[i] == new@[i],
        decreases old@.len() - start_index,
    {
        start_index += 1;
    }
    let mut old_end = old.len();
    let mut new_end = new.len();
    while old_end > start_index && new_end > start_index && old[old_end - 1] == new[new_end - 1]
        invariant
            start_index <= old_end <= old@.len(),
            start_index <= new_end <= new@.len(),
            new_end == new_end_of(old@, new@, old_end as int),
            forall|i: int|
                old_end <= i < old@.len() ==> #[trigger] old@[i] == new@[i + new@.len()
                    - old@.len()],
        decreases old_end,
    {
        old_end -= 1;
        new_end -= 1;
    }
    let data_to_add = copy_range(new.as_slice(), start_index, new_end);
    Delta::new(start_index as u64 + 1, old_end as u64, data_to_add, old_hash)
}

/// Computes the delta that turns `old` into `new`, tagged with the hash of
/// `old` so that the receiver applies it only to that version.
pub fn get_delta(old: &Vec<u8>, new: &Vec<u8>) -> (r: Delta)
    requires
        old@.len() < u64::MAX,
    ensures
        is_delta_of(r, old@, new@),
{
    let h = xxh3_64(old.as_slice());
    compute_delta(old, new, h)
}

/// Why a delta cannot be applied to the receiver's copy.
pub enum DeltaError {
    /// The delta's first changed byte lies outside the receiver's copy.
    StartOutOfRange,
}

/// Builds the spliced file; the caller has checked the range.
pub fn splice_delta(old: &[u8], start: u64, end: u64, data: &[u8]) -> (r: Vec<u8>)
    requires
        1 <= start,
        start - 1 <= old@.len(),
    ensures
        r@ == spliced(old@, start as int, end as int, data@),
{
    let keep = (start - 1) as usize;
    let mut out = copy_range(old, 0, keep);
    crate::byte_util::extend_bytes(&mut out, data);
    let resume: u64 = if start > end { start - 1 } else { end };
    let from: usize = if resume <= old.len() as u64 { resume as usize } else { old.len() };
    let tail = copy_range(old, from, old.len());
    crate::byte_util::extend_bytes(&mut out, tail.as_slice());
    assert(old@.take(keep as int) == old@.subrange(0, keep as int));
    assert(old@.skip(from as int) == old@.subrange(from as int, old@.len() as int));
    out
}

/// What the receiver makes of a delta for its copy `old`: `Ok(None)` when
/// the copy is not the version the delta was made for (the delta is then
/// skipped), `Ok(Some(file))` with the updated file otherwise, and an
/// error when the delta starts outside the copy (at 0, or more than one
/// byte past its end): no file can be made from such a delta, and the
/// receiver stops on this error where it would otherwise fail reading its
/// copy.
pub open spec fn delta_outcome(
    old: Seq<u8>,
    start: u64,
    end: u64,
    data: Seq<u8>,
    old_hash: u64,
    current_hash: u64,
) -> Result<Option<Seq<u8>>, DeltaError> {
    if current_hash != old_hash {
        Ok(None)
    } else if start == 0 || start - 1 > old.len() {
        Err(DeltaError::StartOutOfRange)
    } else {
        Ok(Some(spliced(old, start as int, end as int, data)))
    }
}

/// The view of an application result.
pub open spec fn outcome_view(r: Result<Option<Vec<u8>>, DeltaError>) -> Result<
    Option<Seq<u8>>,
    DeltaError,
> {
    match r {
        Ok(Some(v)) => Ok(Some(v@)),
        Ok(None) => Ok(None),
        Err(e) => Err(e),
    }
}

/// Applies a delta to the copy `old` whose hash is `current_hash` (see
/// `delta_outcome`).
pub fn apply_delta_with_hash(
    old: &[u8],
    start: u64,
    end: u64,
    data: &[u8],
    old_hash: u64,
    current_hash: u64,
) -> (r: Result<Option<Vec<u8>>, DeltaError>)
    ensures
        outcome_view(r) == delta_outcome(old@, start, end, data@, old_hash, current_hash),
{
    if current_hash != old_hash {
        return Ok(None);
    }
    if start == 0 || start - 1 > old.len() as u64 {
        return Err(DeltaError::StartOutOfRange);
    }
    Ok(Some(splice_delta(old, start, end, data)))
}

/// Applies a delta to the receiver's copy `old`, checking first that the
/// copy is the version the delta was made for (see `delta_outcome`).
pub fn apply_delta(old: &[u8], start: u64, end: u64, data: &[u8], old_hash: u64) -> (r: Result<
    Option<Vec<u8>>,
    DeltaError,
>)
    ensures
        outcome_view(r) == delta_outcome(old@, start, end, data@, old_hash, xxh3_64_of(old@)),
{
    let h = xxh3_64(old);
    apply_delta_with_hash(old, start, end, data, old_hash, h)
}

/// A delta made from `old` and `new` turns `old` into `new` on the
/// receiving side: its start lies inside `old`, its hash is that of `old`,
/// and splicing it into `old` gives exactly `new`.
pub proof fn lemma_delta_reconstructs(d: Delta, old: Seq<u8>, new: Seq<u8>)
    requires
        is_delta_of(d, old, new),
    ensures
        1 <= d.start_index,
        d.start_index - 1 <= old.len(),
        d.old_hash == xxh3_64_of(old),
        spliced(old, d.start_index as int, d.end_index as int, d.data@) == new,
{
    let p = d.start_index - 1;
    let oe = d.end_index as int;
    let ne = new_end_of(old, new, oe);
    assert(resume_at(d.start_index as int, oe) == oe);
    let s = spliced(old, d.start_index as int, oe, d.data@);
    assert(s.len() == new.len());
    assert forall|i: int| 0 <= i < new.len() implies s[i] == new[i] by {
        if i < p {
        } else if i < ne {
        } else {
            assert(old[oe + (i - ne)] == new[oe + (i - ne) + new.len() - old.len()]);
        }
    }
    assert(s == new);
}

} // verus!
