use ullfs::client::{next_minutes_passed, send_full_contents_of_file_tcp};
use ullfs::connections::{plan_connections, still_disconnected, ConnectOutcome, StreamStatus};

fn strings(v: &[&str]) -> Vec<String> {
    v.iter().map(|s| s.to_string()).collect()
}

fn status(a: &str, n: u64) -> StreamStatus {
    StreamStatus { address: a.to_string(), received: n }
}

#[test]
fn closed_connections_are_dropped_once_per_address() {
    let addresses = strings(&["a:1", "b:2", "c:3"]);
    let streams = vec![status("a:1", 0), status("b:2", 5), status("a:1", 0), status("x:9", 0)];
    let (keep, dial) = plan_connections(&addresses, &streams, &strings(&["c:3", "b:2"]));
    assert_eq!(keep, vec![true, true, false, false]);
    assert_eq!(dial, strings(&["b:2", "c:3"]));
}

#[test]
fn nothing_to_dial_when_nothing_is_disconnected() {
    let addresses = strings(&["a:1"]);
    let (keep, dial) = plan_connections(&addresses, &Vec::new(), &Vec::new());
    assert!(keep.is_empty());
    assert!(dial.is_empty());
}

#[test]
fn failed_dials_stay_disconnected() {
    let dialed = strings(&["a", "b", "c"]);
    let outcomes = vec![ConnectOutcome::Failed, ConnectOutcome::Connected, ConnectOutcome::TimedOut];
    assert_eq!(still_disconnected(&dialed, &outcomes), strings(&["a"]));
}

#[test]
fn whole_file_send_succeeds() {
    assert!(send_full_contents_of_file_tcp("/any/file").is_ok());
}

#[test]
fn cleanup_minutes() {
    assert_eq!(next_minutes_passed(true, 7), 1);
    assert_eq!(next_minutes_passed(false, 7), 8);
    assert_eq!(next_minutes_passed(false, 0), 1);
}
