use timeline_rss::validate::validate;

#[test]
fn accepts_plain_hostname() {
    assert_eq!(validate("mastodon.social").unwrap(), "https://mastodon.social/");
}

#[test]
fn accepts_single_label() {
    assert_eq!(validate("localhost").unwrap(), "https://localhost/");
}

#[test]
fn accepts_digits_and_hyphens() {
    assert_eq!(validate("xn--test.my-instance.example").unwrap(), "https://xn--test.my-instance.example/");
}

#[test]
fn rejects_empty() {
    assert!(validate("").is_err());
}

#[test]
fn rejects_leading_hyphen_label() {
    assert!(validate("-bad.example").is_err());
}

#[test]
fn rejects_path_separator() {
    assert!(validate("bad/host").is_err());
}

#[test]
fn rejects_embedded_port() {
    assert!(validate("host:8080").is_err());
}

#[test]
fn rejects_userinfo() {
    assert!(validate("user@host.example").is_err());
}

#[test]
fn rejects_path_traversal() {
    assert!(validate("host.example/../secret").is_err());
}

#[test]
fn rejects_scheme_smuggling() {
    assert!(validate("evil.example/https://good.example").is_err());
}

#[test]
fn rejects_trailing_hyphen_in_label() {
    assert!(validate("bad-.example").is_err());
    assert!(validate("example.bad-").is_err());
}

#[test]
fn rejects_dots_at_edges_and_doubled() {
    assert!(validate(".example").is_err());
    assert!(validate("example.").is_err());
    assert!(validate("a..b").is_err());
}

#[test]
fn rejects_oversized_label() {
    let label = "a".repeat(64);
    assert!(validate(&format!("{}.example", label)).is_err());
    let ok_label = "a".repeat(63);
    assert!(validate(&format!("{}.ex", ok_label)).is_ok());
}

#[test]
fn rejects_oversized_hostname() {
    let mut host = String::new();
    for _ in 0..64 {
        host.push_str("abc.");
    }
    host.push_str("example");
    assert!(host.len() > 253);
    assert!(validate(&host).is_err());
}

#[test]
fn rejects_non_ascii_and_spaces() {
    assert!(validate("ex ample.com").is_err());
    assert!(validate("exämple.com").is_err());
    assert!(validate("host_name.example").is_err());
}
