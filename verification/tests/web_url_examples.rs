use protolaunch::web_url::{query_as_map, ParsedUrl};

fn parsed(scheme: &str, pairs: &[(&str, &str)]) -> ParsedUrl {
    ParsedUrl {
        scheme: scheme.to_string(),
        query_pairs: pairs
            .iter()
            .map(|(name, value)| (name.to_string(), value.to_string()))
            .collect(),
    }
}

#[test]
fn query_pairs_become_a_map() {
    let map = query_as_map(&parsed("viewsvn", &[("server_url", "https://h/"), ("revision", "12")]));
    assert_eq!(map.get("server_url"), Some(&"https://h/".to_string()));
    assert_eq!(map.get("revision"), Some(&"12".to_string()));
    assert_eq!(map.get("other"), None);
}

#[test]
fn query_without_pairs_is_the_empty_map() {
    let map = query_as_map(&parsed("viewsvn", &[]));
    assert_eq!(map.get("server_url"), None);
    assert_eq!(map.get(""), None);
}

#[test]
fn later_pair_overwrites_earlier_one() {
    let map = query_as_map(&parsed(
        "viewsvn",
        &[("revision", "1"), ("x", "y"), ("revision", "2"), ("", "empty"), ("revision", "3")],
    ));
    assert_eq!(map.get("revision"), Some(&"3".to_string()));
    assert_eq!(map.get("x"), Some(&"y".to_string()));
    assert_eq!(map.get(""), Some(&"empty".to_string()));
}
