//! Datagram framing of the client: every packet carries an id, its number
//! in the sequence, the sequence's length, a payload of at most 992 bytes
//! and an XXH3 checksum of everything before it; the numbers and the
//! checksum take eight big-endian bytes each.
use vstd::prelude::*;
use crate::byte_util::{be_bytes, extend_bytes, push_u64_be};
use crate::hashing::{xxh3_64, xxh3_64_of};

verus! {

/// Size of each packet to be sent.
pub const PACKET_SIZE: usize = 1024;

/// Bytes of each packet taken by the header and checksum.
pub const HEADER_SIZE: usize = 32;

/// Everything a packet holds before its checksum.
pub open spec fn packet_body(id: u64, cur_packet: u64, num_packets: u64, data: Seq<u8>) -> Seq<u8> {
    be_bytes(id) + be_bytes(cur_packet) + be_bytes(num_packets) + data
}

/// A whole packet: the body followed by the big-endian checksum of the body.
pub open spec fn packet(id: u64, cur_packet: u64, num_packets: u64, data: Seq<u8>) -> Seq<u8> {
    let body = packet_body(id, cur_packet, num_packets, data);
    body + be_bytes(xxh3_64_of(body))
}

/// Builds one packet around `data`.
pub fn create_packet_wrapper(id: u64, cur_packet: u64, num_packets: u64, data: &Vec<u8>) -> (r:
    Vec<u8>)
    requires
        data@.len() <= PACKET_SIZE - HEADER_SIZE,
    ensures
        r@ == packet(id, cur_packet, num_packets, data@),
{
    let mut buffer: Vec<u8> = Vec::new();
    push_u64_be(&mut buffer, id);
    push_u64_be(&mut buffer, cur_packet);
    push_u64_be(&mut buffer, num_packets);
    extend_bytes(&mut buffer, data.as_slice());
    assert(buffer@ == packet_body(id, cur_packet, num_packets, data@));
    let hash = xxh3_64(buffer.as_slice());
    push_u64_be(&mut buffer, hash);
    buffer
}

/// Kind byte of a delta payload.
pub const DELTA_PACKET_KIND: u8 = 1;

/// The payload that announces a delta: kind byte 1, the start and end
/// positions big-endian in 64 bits (the width of `usize` on the 64-bit
/// targets the service runs on), then the delta's bytes.
pub open spec fn delta_payload(start_pos: u64, end_pos: u64, delta: Seq<u8>) -> Seq<u8> {
    seq![DELTA_PACKET_KIND] + be_bytes(start_pos) + be_bytes(end_pos) + delta
}

/// Builds the payload that announces a delta.
pub fn delta_packet_payload(start_pos: u64, end_pos: u64, delta: &[u8]) -> (r: Vec<u8>)
    ensures
        r@ == delta_payload(start_pos, end_pos, delta@),
{
    let mut out_vec: Vec<u8> = Vec::new();
    out_vec.push(DELTA_PACKET_KIND);
    push_u64_be(&mut out_vec, start_pos);
    push_u64_be(&mut out_vec, end_pos);
    extend_bytes(&mut out_vec, delta);
    out_vec
}

/// Splits the payload of a delta into packets. A packet is cut only once
/// more than `PACKET_SIZE - HEADER_SIZE + 1` bytes have gathered, which
/// exceeds what a packet may carry, so the payload must be short enough
/// that no cut happens; the packets are not sent anywhere.
pub fn create_delta_packet(start_pos: usize, end_pos: usize, delta: Vec<u8>)
    requires
        delta@.len() + 17 <= PACKET_SIZE - HEADER_SIZE + 1,
{
    let out_vec = delta_packet_payload(start_pos as u64, end_pos as u64, delta.as_slice());
    let num_packets: u64 = ((out_vec.len() + (PACKET_SIZE - HEADER_SIZE) - 1) / (PACKET_SIZE
        - HEADER_SIZE)) as u64;
    let mut i: usize = 0;
    let mut v: Vec<u8> = Vec::new();
    let mut count_out: u64 = 0;
    let n = out_vec.len();
    let mut k: usize = 0;
    while k < n
        invariant
            n == out_vec@.len(),
            n <= PACKET_SIZE - HEADER_SIZE + 1,
            k <= n,
            i == k,
            v@.len() == k,
            count_out == 0,
        decreases n - k,
    {
        v.push(out_vec[k]);
        if i > PACKET_SIZE - HEADER_SIZE {
            i = 0;
            let _packet = create_packet_wrapper(0, count_out, num_packets, &v);
            count_out += 1;
            v.clear();
        } else {
            i += 1;
        }
        k += 1;
    }
}

/// The start of a full-file packet: kind byte 0, then the length of the
/// local path in two big-endian bytes, then the path's bytes.
pub fn full_file_packet_header(local_filepath: &str, buf: Vec<u8>) -> (r: Vec<u8>)
    requires
        vstd::utf8::encode_utf8(local_filepath@).len() <= 4096,
    ensures
        ({
            let p = vstd::utf8::encode_utf8(local_filepath@);
            r@ == buf@ + seq![0u8, (p.len() / 256) as u8, (p.len() % 256) as u8] + p
        }),
{
    let mut buf = buf;
    buf.push(0u8);
    let bytes = local_filepath.as_bytes();
    let pathsize = bytes.len();
    let pathsize_u16 = pathsize as u16;
    buf.push((pathsize_u16 >> 8u16) as u8);
    buf.push((pathsize_u16 & 0xFFu16) as u8);
    assert((pathsize_u16 >> 8u16) as u8 == (pathsize / 256) as u8 && (pathsize_u16 & 0xFFu16) as u8
        == (pathsize % 256) as u8) by (bit_vector)
        requires
            pathsize_u16 == pathsize,
            pathsize <= 4096,
    ;
    extend_bytes(&mut buf, bytes);
    buf
}

/// The data of a full-file packet: local path, time stamp and contents.
pub struct FullFileData {
    pub path: String,
    pub timestamp: String,
    pub data: Vec<u8>,
}

} // verus!
