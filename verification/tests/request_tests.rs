use ullfs::requests::{get_zero_byte_string, read_resend_requests};

#[test]
fn zero_bytes_end_texts() {
    let (done, rest) = get_zero_byte_string(b"ab\0cd\0ef".to_vec(), "x");
    assert_eq!(done, vec!["xab".to_string(), "cd".to_string()]);
    assert_eq!(rest, "ef");
    let (done2, rest2) = get_zero_byte_string(Vec::new(), "keep");
    assert!(done2.is_empty());
    assert_eq!(rest2, "keep");
    let (done3, rest3) = get_zero_byte_string(b"\0\0".to_vec(), "");
    assert_eq!(done3, vec!["".to_string(), "".to_string()]);
    assert_eq!(rest3, "");
}

#[test]
fn split_reads_give_the_same_texts() {
    let all = b"first\0second\0thi".to_vec();
    let (whole, whole_rest) = get_zero_byte_string(all.clone(), "");
    for cut in 0..=all.len() {
        let (a, a_rest) = get_zero_byte_string(all[..cut].to_vec(), "");
        let (b, b_rest) = get_zero_byte_string(all[cut..].to_vec(), &a_rest);
        let mut joined = a.clone();
        joined.extend(b);
        assert_eq!(joined, whole);
        assert_eq!(b_rest, whole_rest);
    }
}

#[test]
fn resend_requests_collect_text() {
    let (req, pending) = read_resend_requests(None, b"/a\0");
    assert_eq!(req, vec!["/a".to_string()]);
    assert_eq!(pending, Some("/a".to_string()));
    // the collected text is not cleared by a zero byte
    let (req2, pending2) = read_resend_requests(pending, b"b\0");
    assert_eq!(req2, vec!["/ab".to_string()]);
    assert_eq!(pending2, Some("/ab".to_string()));
}

#[test]
fn zero_byte_without_text_requests_nothing() {
    let (req, pending) = read_resend_requests(None, b"\0\0");
    assert!(req.is_empty());
    assert_eq!(pending, None);
    let (req2, pending2) = read_resend_requests(None, b"");
    assert!(req2.is_empty());
    assert_eq!(pending2, None);
}

#[test]
fn resend_requests_split_across_reads() {
    let all = b"/x\0/y\0/z".to_vec();
    let (whole, whole_pending) = read_resend_requests(None, &all);
    for cut in 0..=all.len() {
        let (a, p) = read_resend_requests(None, &all[..cut]);
        let (b, q) = read_resend_requests(p, &all[cut..]);
        let mut joined = a.clone();
        joined.extend(b);
        assert_eq!(joined, whole);
        assert_eq!(q, whole_pending);
    }
}
