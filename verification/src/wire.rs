//! The byte stream the client sends to the server for each change. Every
//! message starts with the file's path relative to the watched directory,
//! a zero byte (never allowed in a file name) and a one-byte kind:
//! 1 full file, 2 delta, 3 move, 4 deletion, 5 file created,
//! 6 directory created. Integers are 64-bit little-endian.
use vstd::prelude::*;
use crate::byte_util::{copy_range, extend_bytes, le_bytes, push_u64_le};
use crate::delta::Delta;
use vstd::utf8::{
    encode_scalar, encode_utf8, has_width_1_encoding, length_of_first_scalar, pop_first_scalar,
    valid_first_scalar, valid_utf8,
};

verus! {

pub const FULL_FILE_FLAG: u8 = 1;
pub const DELTA_FLAG: u8 = 2;
pub const MOVE_FLAG: u8 = 3;
pub const DELETE_FLAG: u8 = 4;
pub const CREATE_FILE_FLAG: u8 = 5;
pub const CREATE_DIR_FLAG: u8 = 6;

/// `s` without its leading `pat`, or `s` itself when it does not start
/// with `pat`.
pub open spec fn strip_leading(s: Seq<u8>, pat: Seq<u8>) -> Seq<u8> {
    if pat.len() <= s.len() && s.take(pat.len() as int) == pat {
        s.skip(pat.len() as int)
    } else {
        s
    }
}

/// The UTF-8 bytes of `filepath` without the watched directory `base` at
/// its start.
pub open spec fn relative_bytes(filepath: Seq<char>, base: Seq<char>) -> Seq<u8> {
    strip_leading(vstd::utf8::encode_utf8(filepath), vstd::utf8::encode_utf8(base))
}

/// Does `pat` occur in `s` at position `i`?
fn matches_at(s: &[u8], pat: &[u8], i: usize) -> (r: bool)
    requires
        i + pat@.len() <= s@.len(),
    ensures
        r == (s@.subrange(i as int, i + pat@.len()) == pat@),
{
    let mut k: usize = 0;
    while k < pat.len()
        invariant
            i + pat@.len() <= s@.len(),
            k <= pat@.len(),
            forall|j: int| 0 <= j < k ==> s@[i + j] == pat@[j],
        decreases pat@.len() - k,
    {
        assert(i + k < s.len());
        if s[i + k] != pat[k] {
            assert(s@.subrange(i as int, i + pat@.len())[k as int] != pat@[k as int]);
            return false;
        }
        k += 1;
    }
    assert(s@.subrange(i as int, i + pat@.len()) == pat@);
    true
}

/// Removes `pat` from the start of `s` (see `strip_leading`).
pub fn strip_leading_bytes(s: &[u8], pat: &[u8]) -> (r: Vec<u8>)
    ensures
        r@ == strip_leading(s@, pat@),
{
    if pat.len() <= s.len() && matches_at(s, pat, 0) {
        assert(s@.subrange(0, pat@.len() as int) == s@.take(pat@.len() as int));
        let r = copy_range(s, pat.len(), s.len());
        assert(r@ == s@.skip(pat@.len() as int));
        r
    } else {
        if pat.len() <= s.len() {
            assert(s@.subrange(0, pat@.len() as int) == s@.take(pat@.len() as int));
        }
        let r = copy_range(s, 0, s.len());
        assert(r@ == s@);
        r
    }
}

/// The path of `filepath` relative to `base`, as the bytes put on the wire.
pub fn relative_path_bytes(filepath: &str, base: &str) -> (r: Vec<u8>)
    ensures
        r@ == relative_bytes(filepath@, base@),
{
    strip_leading_bytes(filepath.as_bytes(), base.as_bytes())
}

/// The start of every message: path, zero byte, kind.
pub open spec fn head(path: Seq<u8>, flag: u8) -> Seq<u8> {
    path + seq![0u8, flag]
}

/// A full-file message: header with the length, then the contents.
pub open spec fn full_file_frame(path: Seq<u8>, contents: Seq<u8>) -> Seq<u8> {
    head(path, FULL_FILE_FLAG) + le_bytes(contents.len() as u64) + contents
}

/// A delta message: start, end, data length and old hash, then the data.
pub open spec fn delta_frame(path: Seq<u8>, start: u64, end: u64, data: Seq<u8>, hash: u64) -> Seq<
    u8,
> {
    head(path, DELTA_FLAG) + le_bytes(start) + le_bytes(end) + le_bytes(data.len() as u64)
        + le_bytes(hash) + data
}

/// A move message: the old path as head, then the new path and a zero byte.
pub open spec fn move_frame(old_path: Seq<u8>, new_path: Seq<u8>) -> Seq<u8> {
    head(old_path, MOVE_FLAG) + new_path + seq![0u8]
}

fn push_head(out: &mut Vec<u8>, flag: u8)
    ensures
        final(out)@ == old(out)@ + seq![0u8, flag],
{
    out.push(0u8);
    out.push(flag);
}

/// The header of a full-file message for a file of `file_length` bytes;
/// the file's bytes follow it on the stream.
pub fn full_file_header(filepath: &str, base: &str, file_length: u64) -> (r: Vec<u8>)
    ensures
        r@ == head(relative_bytes(filepath@, base@), FULL_FILE_FLAG) + le_bytes(file_length),
{
    let mut out = relative_path_bytes(filepath, base);
    push_head(&mut out, FULL_FILE_FLAG);
    push_u64_le(&mut out, file_length);
    out
}

/// The whole full-file message for a file with the given contents.
pub fn full_file_message(filepath: &str, base: &str, contents: &[u8]) -> (r: Vec<u8>)
    ensures
        r@ == full_file_frame(relative_bytes(filepath@, base@), contents@),
{
    let mut out = full_file_header(filepath, base, contents.len() as u64);
    extend_bytes(&mut out, contents);
    out
}

/// The message that carries a delta of the file at `filepath`.
pub fn delta_message(delta: &Delta, filepath: &str, base: &str) -> (r: Vec<u8>)
    ensures
        r@ == delta_frame(
            relative_bytes(filepath@, base@),
            delta.start_index,
            delta.end_index,
            delta.data@,
            delta.old_hash,
        ),
{
    let mut out = relative_path_bytes(filepath, base);
    push_head(&mut out, DELTA_FLAG);
    push_u64_le(&mut out, delta.start_index);
    push_u64_le(&mut out, delta.end_index);
    push_u64_le(&mut out, delta.data.len() as u64);
    push_u64_le(&mut out, delta.old_hash);
    extend_bytes(&mut out, delta.data.as_slice());
    out
}

/// The message that reports the deletion of `filepath`.
pub fn deletion_message(filepath: &str, base: &str) -> (r: Vec<u8>)
    ensures
        r@ == head(relative_bytes(filepath@, base@), DELETE_FLAG),
{
    let mut out = relative_path_bytes(filepath, base);
    push_head(&mut out, DELETE_FLAG);
    out
}

/// The message that reports a move from `filepath_old` to `filepath_new`.
pub fn move_message(filepath_old: &str, filepath_new: &str, base: &str) -> (r: Vec<u8>)
    ensures
        r@ == move_frame(relative_bytes(filepath_old@, base@), relative_bytes(filepath_new@, base@)),
{
    let mut out = relative_path_bytes(filepath_old, base);
    push_head(&mut out, MOVE_FLAG);
    let new_path = relative_path_bytes(filepath_new, base);
    extend_bytes(&mut out, new_path.as_slice());
    out.push(0u8);
    out
}

/// The message that reports a new directory.
pub fn create_dir_message(dirpath: &str, base: &str) -> (r: Vec<u8>)
    ensures
        r@ == head(relative_bytes(dirpath@, base@), CREATE_DIR_FLAG),
{
    let mut out = relative_path_bytes(dirpath, base);
    push_head(&mut out, CREATE_DIR_FLAG);
    out
}

/// The message that reports a new file.
pub fn create_file_message(filepath: &str, base: &str) -> (r: Vec<u8>)
    ensures
        r@ == head(relative_bytes(filepath@, base@), CREATE_FILE_FLAG),
{
    let mut out = relative_path_bytes(filepath, base);
    push_head(&mut out, CREATE_FILE_FLAG);
    out
}

/// The first scalar of `p` stays the first scalar when bytes follow `p`.
proof fn lemma_first_scalar_extended(p: Seq<u8>, r: Seq<u8>)
    requires
        valid_first_scalar(p),
    ensures
        valid_first_scalar(p + r),
        length_of_first_scalar(p + r) == length_of_first_scalar(p),
        pop_first_scalar(p + r) == pop_first_scalar(p) + r,
{
    let s = p + r;
    assert forall|k: int| 0 <= k < p.len() implies #[trigger] s[k] == p[k] by {}
    assert(s[0] == p[0]);
    if p.len() >= 2 {
        assert(s[1] == p[1]);
    }
    if p.len() >= 3 {
        assert(s[2] == p[2]);
    }
    if p.len() >= 4 {
        assert(s[3] == p[3]);
    }
    assert(pop_first_scalar(s) =~= pop_first_scalar(p) + r);
}

/// What follows a valid UTF-8 prefix of valid UTF-8 bytes is valid UTF-8.
proof fn lemma_valid_utf8_suffix(p: Seq<u8>, r: Seq<u8>)
    requires
        valid_utf8(p),
        valid_utf8(p + r),
    ensures
        valid_utf8(r),
    decreases p.len(),
{
    if p.len() == 0 {
        assert(p + r =~= r);
    } else {
        lemma_first_scalar_extended(p, r);
        lemma_valid_utf8_suffix(pop_first_scalar(p), r);
    }
}

/// The relative path of a file is valid UTF-8.
pub proof fn lemma_relative_bytes_valid_utf8(filepath: Seq<char>, base: Seq<char>)
    ensures
        valid_utf8(relative_bytes(filepath, base)),
{
    let f = encode_utf8(filepath);
    let b = encode_utf8(base);
    vstd::utf8::encode_utf8_valid_utf8(filepath);
    vstd::utf8::encode_utf8_valid_utf8(base);
    if b.len() <= f.len() && f.take(b.len() as int) == b {
        assert(b + f.skip(b.len() as int) =~= f);
        lemma_valid_utf8_suffix(b, f.skip(b.len() as int));
    }
}

/// The UTF-8 bytes of a scalar other than 0 are all nonzero.
proof fn lemma_scalar_bytes_nonzero(c: u32)
    requires
        c != 0,
    ensures
        forall|i: int|
            0 <= i < encode_scalar(c).len() ==> #[trigger] encode_scalar(c)[i] != 0,
{
    let e = encode_scalar(c);
    if has_width_1_encoding(c) {
        assert((c & 0x7F) as u8 != 0u8) by (bit_vector)
            requires
                c != 0,
                c <= 0x7F,
        ;
    } else {
        let b6 = ((c >> 6) & 0x1F) as u8;
        let b12 = ((c >> 12) & 0x0F) as u8;
        let b18 = ((c >> 18) & 0x7) as u8;
        let c0 = (c & 0x3F) as u8;
        let c6 = ((c >> 6) & 0x3F) as u8;
        let c12 = ((c >> 12) & 0x3F) as u8;
        assert(0xC0u8 | b6 != 0 && 0xE0u8 | b12 != 0 && 0xF0u8 | b18 != 0) by (bit_vector);
        assert(0x80u8 | c0 != 0 && 0x80u8 | c6 != 0 && 0x80u8 | c12 != 0) by (bit_vector);
    }
}

/// The UTF-8 bytes of a text without the character 0 are all nonzero.
pub proof fn lemma_encode_zero_free(chars: Seq<char>)
    requires
        forall|i: int| 0 <= i < chars.len() ==> chars[i] != '\0',
    ensures
        forall|i: int|
            0 <= i < encode_utf8(chars).len() ==> #[trigger] encode_utf8(chars)[i] != 0,
    decreases chars.len(),
{
    if chars.len() > 0 {
        let rest = chars.drop_first();
        assert forall|i: int| 0 <= i < rest.len() implies rest[i] != '\0' by {
            assert(rest[i] == chars[i + 1]);
        }
        lemma_encode_zero_free(rest);
        assert(chars[0] as u32 != 0) by {
            if chars[0] as u32 == 0 {
                assert('\0' as u32 == 0);
                vstd::utf8::char_u32_cast(chars[0], 0);
                vstd::utf8::char_u32_cast('\0', 0);
            }
        }
        lemma_scalar_bytes_nonzero(chars[0] as u32);
        let a = encode_scalar(chars[0] as u32);
        let b = encode_utf8(rest);
        assert(encode_utf8(chars) == a + b);
        assert forall|i: int| 0 <= i < (a + b).len() implies #[trigger] (a + b)[i] != 0 by {
            if i < a.len() {
                assert((a + b)[i] == a[i]);
            } else {
                assert((a + b)[i] == b[i - a.len()]);
            }
        }
    }
}

/// The relative path of a file whose path has no character 0 has no zero
/// byte.
pub proof fn lemma_relative_bytes_zero_free(filepath: Seq<char>, base: Seq<char>)
    requires
        forall|i: int| 0 <= i < filepath.len() ==> filepath[i] != '\0',
    ensures
        forall|i: int|
            0 <= i < relative_bytes(filepath, base).len() ==> #[trigger] relative_bytes(
                filepath,
                base,
            )[i] != 0,
{
    lemma_encode_zero_free(filepath);
    let f = encode_utf8(filepath);
    let b = encode_utf8(base);
    if b.len() <= f.len() && f.take(b.len() as int) == b {
        let r = f.skip(b.len() as int);
        assert forall|i: int| 0 <= i < r.len() implies #[trigger] r[i] != 0 by {
            assert(r[i] == f[i + b.len()]);
        }
    }
}

} // verus!
