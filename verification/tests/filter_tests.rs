use ullfs::client_filter::Filter as ClientFilter;
use ullfs::ignore_rules::FilterError;
use ullfs::server_filter::Filter as ServerFilter;
use ullfs::watch_filter::Filter as WatchFilter;

fn rules(v: &[&str]) -> Vec<String> {
    v.iter().map(|s| s.to_string()).collect()
}

#[test]
fn client_settings_are_kept() {
    let f = ClientFilter::from_config(
        "/home/u/watch".to_string(),
        "sync.example.org".to_string(),
        "7878".to_string(),
        &rules(&["*.tmp", "# comment", "", "build/"]),
    );
    let f = match f {
        Ok(f) => f,
        Err(_) => panic!("settings refused"),
    };
    assert_eq!(f.get_base_dir(), "/home/u/watch");
    assert_eq!(f.get_dns_web_address(), "sync.example.org");
    assert_eq!(f.get_client_port(), "7878");
    // ignored paths are kept from the server
    assert!(f.should_filter("/home/u/watch/a.tmp"));
    assert!(!f.should_filter("/home/u/watch/a.txt"));
}

#[test]
fn bad_rule_is_reported_by_position() {
    let r = ClientFilter::from_config(
        "/w".to_string(),
        "h".to_string(),
        "1".to_string(),
        &rules(&["*.tmp", "{a,b", "[z-a]"]),
    );
    assert!(matches!(r, Err(FilterError::RuleRejected(1))));
    let s = ServerFilter::from_config("/s".to_string(), "0.0.0.0".to_string(), "9".to_string(), &rules(&["[z-a]"]));
    assert!(matches!(s, Err(FilterError::RuleRejected(0))));
    let w = WatchFilter::from_config("/w".to_string(), &rules(&["ok", "a,b}"]));
    assert!(matches!(w, Err(FilterError::RuleRejected(1))));
}

#[test]
fn server_settings_are_kept() {
    let s = ServerFilter::from_config(
        "/srv/save".to_string(),
        "127.0.0.1".to_string(),
        "7878".to_string(),
        &rules(&["*.log"]),
    );
    let s = match s {
        Ok(s) => s,
        Err(_) => panic!("settings refused"),
    };
    assert_eq!(s.get_base_dir(), "/srv/save");
    assert_eq!(s.get_server_ip(), "127.0.0.1");
    assert_eq!(s.get_server_port(), "7878");
}

#[test]
fn watch_rules_are_applied() {
    let w = match WatchFilter::from_config("/w".to_string(), &rules(&["*.tmp", "!keep.tmp"])) {
        Ok(w) => w,
        Err(_) => panic!("settings refused"),
    };
    assert!(matches!(w.get_watch_dir(), Ok("/w")));
    assert!(w.should_filter("/w/a.tmp"));
    assert!(!w.should_filter("/w/keep.tmp"));
    assert!(!w.should_filter("/w/a.txt"));
}
