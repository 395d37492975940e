use ullfs::paths::{
    create_global_path, ensure_leading_slash, parent_path, reverse_path_components, split_chars,
};

fn chars(s: &str) -> Vec<char> {
    s.chars().collect()
}

fn text(v: &[char]) -> String {
    v.iter().collect()
}

#[test]
fn global_path_joins_with_slash() {
    assert_eq!(create_global_path("/srv/save", "dir/f.txt"), "/srv/save/dir/f.txt");
    assert_eq!(create_global_path("", ""), "/");
}

#[test]
fn split_keeps_empty_pieces() {
    let parts = split_chars(&chars("/a//b/"), '/');
    let texts: Vec<String> = parts.iter().map(|p| text(p)).collect();
    assert_eq!(texts, vec!["", "a", "", "b", ""]);
    assert_eq!(split_chars(&chars(""), '/').len(), 1);
}

#[test]
fn components_reversed() {
    assert_eq!(text(&reverse_path_components(&chars("f.txt/dir/"))), "/dir/f.txt");
    assert_eq!(text(&reverse_path_components(&chars("a/b/c"))), "c/b/a");
    assert_eq!(text(&reverse_path_components(&chars("single"))), "single");
    assert_eq!(text(&reverse_path_components(&chars(""))), "");
}

#[test]
fn reversing_twice_gives_the_path_back() {
    for p in ["/x/y/z", "a//b", "", "/", "//", "name", "a/b/"] {
        let once = reverse_path_components(&chars(p));
        let twice = reverse_path_components(&once);
        assert_eq!(text(&twice), p);
    }
}

#[test]
fn parent_of_paths() {
    assert_eq!(text(&parent_path(&chars("/a/b/c"))), "/a/b");
    assert_eq!(text(&parent_path(&chars("a//b/"))), "/a");
    assert_eq!(text(&parent_path(&chars("/a"))), "");
    assert_eq!(text(&parent_path(&chars("/"))), "");
}

#[test]
fn leading_slash() {
    assert_eq!(text(&ensure_leading_slash(chars("a/b"))), "/a/b");
    assert_eq!(text(&ensure_leading_slash(chars("/a/b"))), "/a/b");
    assert_eq!(text(&ensure_leading_slash(Vec::new())), "/");
}
