use timeline_rss::assemble::assemble;
use timeline_rss::post::{FeedMetadata, NormalizedPost};
use timeline_rss::rfc2822::format_rfc2822;

fn post(id: &str, text: &str) -> NormalizedPost {
    NormalizedPost {
        id: id.to_string(),
        author_display_name: "Alice".to_string(),
        author_handle: "alice@example.social".to_string(),
        text_html_unsafe: text.to_string(),
        permalink: format!("https://example.social/@alice/{}", id),
        created_at: None,
        reposted_post: None,
        quoted_post: None,
        media: Vec::new(),
    }
}

fn meta() -> FeedMetadata {
    FeedMetadata {
        title: "Timeline".to_string(),
        description: "Home timeline".to_string(),
        channel_link: "https://example.social/".to_string(),
    }
}

#[test]
fn epoch_formats_as_rfc2822() {
    assert_eq!(format_rfc2822(0).unwrap(), "Thu, 01 Jan 1970 00:00:00 +0000");
}

#[test]
fn ordinary_timestamp_formats_as_rfc2822() {
    assert_eq!(format_rfc2822(1424301369).unwrap(), "Wed, 18 Feb 2015 23:16:09 +0000");
}

#[test]
fn leap_days_format_correctly() {
    assert_eq!(format_rfc2822(1709164800).unwrap(), "Thu, 29 Feb 2024 00:00:00 +0000");
    assert_eq!(format_rfc2822(951782400).unwrap(), "Tue, 29 Feb 2000 00:00:00 +0000");
    assert_eq!(format_rfc2822(4102444799).unwrap(), "Thu, 31 Dec 2099 23:59:59 +0000");
}

#[test]
fn unformattable_timestamps_are_rejected() {
    assert!(format_rfc2822(-1).is_none());
    assert!(format_rfc2822(i64::MAX).is_none());
}

#[test]
fn empty_timeline_is_a_valid_channel_without_items() {
    let xml = assemble(&Vec::new(), &meta()).unwrap();
    assert!(xml.starts_with("<?xml"));
    assert!(xml.contains("<rss"));
    assert!(xml.contains("<channel>"));
    assert!(xml.contains("</channel>"));
    assert!(xml.contains("<title>Timeline</title>"));
    assert!(xml.contains("<description>Home timeline</description>"));
    assert!(xml.contains("<link>https://example.social/</link>"));
    assert!(!xml.contains("<item>"));
}

#[test]
fn two_posts_keep_their_input_order() {
    let posts = vec![post("first-id", "first text"), post("second-id", "second text")];
    let xml = assemble(&posts, &meta()).unwrap();
    let a = xml.find("first-id").expect("first item missing");
    let b = xml.find("second-id").expect("second item missing");
    assert!(a < b);
}

#[test]
fn item_carries_guid_title_link_and_description() {
    let posts = vec![post("abc123", "hello <b>world</b> & co")];
    let xml = assemble(&posts, &meta()).unwrap();
    assert!(xml.contains("<guid isPermaLink=\"false\">abc123</guid>"));
    assert!(xml.contains("<title>Alice</title>"));
    assert!(xml.contains("<link>https://example.social/@alice/abc123</link>"));
    // The renderer escaped the post text once; the XML writer carries the
    // HTML fragment through inside CDATA.
    assert!(xml.contains("<![CDATA[<p>hello &lt;b&gt;world&lt;/b&gt; &amp; co</p>]]>"));
}

#[test]
fn item_with_creation_time_carries_pub_date() {
    let mut p = post("1", "t");
    p.created_at = Some(1424301369);
    let xml = assemble(&vec![p], &meta()).unwrap();
    assert!(xml.contains("<pubDate>Wed, 18 Feb 2015 23:16:09 +0000</pubDate>"));
}

#[test]
fn item_without_creation_time_omits_pub_date() {
    let mut p = post("1", "t");
    p.created_at = None;
    let xml = assemble(&vec![p], &meta()).unwrap();
    assert!(!xml.contains("<pubDate>"));
}

#[test]
fn item_title_falls_back_to_handle() {
    let mut p = post("1", "t");
    p.author_display_name = String::new();
    let xml = assemble(&vec![p], &meta()).unwrap();
    assert!(xml.contains("<title>alice@example.social</title>"));
}
