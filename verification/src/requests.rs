//! Requests that arrive from the server on the client's connections: file
//! paths terminated by zero bytes, possibly split across reads.
use vstd::prelude::*;
use crate::text::{chars_of, push_char, string_of};

verus! {

/// The zero-terminated texts completed by `buf` when `cur` holds the
/// unfinished text before it, and what is left unfinished after it. Each
/// nonzero byte adds the character with that code.
pub open spec fn zsplit(cur: Seq<char>, buf: Seq<u8>) -> (Seq<Seq<char>>, Seq<char>)
    decreases buf.len(),
{
    if buf.len() == 0 {
        (Seq::<Seq<char>>::empty(), cur)
    } else {
        let (v, c) = zsplit(cur, buf.drop_last());
        if buf.last() == 0 {
            (v.push(c), Seq::<char>::empty())
        } else {
            (v, c.push(buf.last() as char))
        }
    }
}

/// The texts of strings.
pub open spec fn strings_view(v: Seq<String>) -> Seq<Seq<char>> {
    v.map_values(|s: String| s@)
}

/// Splits the received bytes at zero bytes, continuing the unfinished
/// text `old_unfinished`; returns the completed texts and the new
/// unfinished text.
pub fn get_zero_byte_string(buffer: Vec<u8>, old_unfinished: &str) -> (r: (Vec<String>, String))
    ensures
        (strings_view(r.0@), r.1@) == zsplit(old_unfinished@, buffer@),
{
    let mut cur: Vec<char> = chars_of(old_unfinished);
    let mut vec_strings: Vec<String> = Vec::new();
    let n = buffer.len();
    for i in 0..n
        invariant
            n == buffer@.len(),
            (strings_view(vec_strings@), cur@) == zsplit(old_unfinished@, buffer@.take(i as int)),
    {
        let byte = buffer[i];
        assert(buffer@.take(i + 1).drop_last() == buffer@.take(i as int));
        if byte == 0u8 {
            let s = string_of(&cur);
            vec_strings.push(s);
            cur = Vec::new();
            assert(strings_view(vec_strings@) == strings_view(vec_strings@.drop_last()).push(s@));
        } else {
            cur.push(byte as char);
        }
    }
    assert(buffer@.take(n as int) == buffer@);
    (vec_strings, string_of(&cur))
}

/// Splitting bytes that arrive in two reads gives the same texts as
/// splitting them at once: the unfinished text of the first read carries
/// over into the second.
pub proof fn lemma_zsplit_chunks(cur: Seq<char>, b1: Seq<u8>, b2: Seq<u8>)
    ensures
        ({
            let (v1, c1) = zsplit(cur, b1);
            let (v2, c2) = zsplit(c1, b2);
            zsplit(cur, b1 + b2) == (v1 + v2, c2)
        }),
    decreases b2.len(),
{
    let (v1, c1) = zsplit(cur, b1);
    if b2.len() == 0 {
        assert(b1 + b2 == b1);
        assert(v1 + Seq::<Seq<char>>::empty() == v1);
    } else {
        lemma_zsplit_chunks(cur, b1, b2.drop_last());
        assert((b1 + b2).drop_last() == b1 + b2.drop_last());
        assert((b1 + b2).last() == b2.last());
        let (v2, c2) = zsplit(c1, b2.drop_last());
        assert((v1 + v2).push(c2) == v1 + v2.push(c2));
    }
}

/// What the sender does with the bytes one connection sent: `requests`
/// holds, in order, the texts to send back in full (one for each zero
/// byte while a text is being collected for this connection), and
/// `pending` the collected text afterwards. The collected text is not
/// cleared by a zero byte.
pub open spec fn scan_requests(pending: Option<Seq<char>>, buf: Seq<u8>) -> (
    Seq<Seq<char>>,
    Option<Seq<char>>,
)
    decreases buf.len(),
{
    if buf.len() == 0 {
        (Seq::<Seq<char>>::empty(), pending)
    } else {
        let (v, p) = scan_requests(pending, buf.drop_last());
        if buf.last() == 0 {
            match p {
                Some(t) => (v.push(t), p),
                None => (v, p),
            }
        } else {
            match p {
                Some(t) => (v, Some(t.push(buf.last() as char))),
                None => (v, Some(seq![buf.last() as char])),
            }
        }
    }
}

/// Reading a connection's bytes in two parts gives the same requests as
/// reading them at once: the text collected after the first part carries
/// over into the second.
pub proof fn lemma_scan_chunks(pending: Option<Seq<char>>, b1: Seq<u8>, b2: Seq<u8>)
    ensures
        ({
            let (v1, p1) = scan_requests(pending, b1);
            let (v2, p2) = scan_requests(p1, b2);
            scan_requests(pending, b1 + b2) == (v1 + v2, p2)
        }),
    decreases b2.len(),
{
    let (v1, p1) = scan_requests(pending, b1);
    if b2.len() == 0 {
        assert(b1 + b2 == b1);
        assert(v1 + Seq::<Seq<char>>::empty() == v1);
    } else {
        lemma_scan_chunks(pending, b1, b2.drop_last());
        assert((b1 + b2).drop_last() == b1 + b2.drop_last());
        assert((b1 + b2).last() == b2.last());
        let (v2, p2) = scan_requests(p1, b2.drop_last());
        match p2 {
            Some(t) => {
                assert((v1 + v2).push(t) == v1 + v2.push(t));
            },
            None => {},
        }
    }
}

/// The view of an optional string.
pub open spec fn opt_string_view(p: Option<String>) -> Option<Seq<char>> {
    match p {
        Some(s) => Some(s@),
        None => None,
    }
}

/// Reads the bytes a connection sent (see `scan_requests`): the files to
/// resend and the text collected for the connection afterwards.
pub fn read_resend_requests(pending: Option<String>, buf: &[u8]) -> (r: (Vec<String>, Option<
    String,
>))
    ensures
        (strings_view(r.0@), opt_string_view(r.1)) == scan_requests(
            opt_string_view(pending),
            buf@,
        ),
{
    let mut p = pending;
    let mut out: Vec<String> = Vec::new();
    let n = buf.len();
    for i in 0..n
        invariant
            n == buf@.len(),
            (strings_view(out@), opt_string_view(p)) == scan_requests(
                opt_string_view(pending),
                buf@.take(i as int),
            ),
    {
        let byte = buf[i];
        assert(buf@.take(i + 1).drop_last() == buf@.take(i as int));
        if byte == 0u8 {
            match &p {
                Some(t) => {
                    let c = t.clone();
                    out.push(c);
                    assert(strings_view(out@) == strings_view(out@.drop_last()).push(c@));
                },
                None => {},
            }
        } else {
            match p {
                Some(mut t) => {
                    push_char(&mut t, byte as char);
                    p = Some(t);
                },
                None => {
                    let mut t = String::new();
                    push_char(&mut t, byte as char);
                    p = Some(t);
                },
            }
        }
    }
    assert(buf@.take(n as int) == buf@);
    (out, p)
}

} // verus!
