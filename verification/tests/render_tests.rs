use timeline_rss::escape::escape_html;
use timeline_rss::post::{MediaItem, MediaKind, NormalizedPost};
use timeline_rss::render::render;

fn plain_post(id: &str, text: &str) -> NormalizedPost {
    NormalizedPost {
        id: id.to_string(),
        author_display_name: "Alice".to_string(),
        author_handle: "alice@example.social".to_string(),
        text_html_unsafe: text.to_string(),
        permalink: "https://example.social/@alice/1".to_string(),
        created_at: None,
        reposted_post: None,
        quoted_post: None,
        media: Vec::new(),
    }
}

#[test]
fn escapes_special_characters() {
    assert_eq!(escape_html("a&<>\"b"), "a&amp;&lt;&gt;&quot;b");
    assert_eq!(escape_html(""), "");
    assert_eq!(escape_html("plain"), "plain");
}

#[test]
fn plain_post_is_one_paragraph() {
    let p = plain_post("1", "hello <script>&\"world\"");
    assert_eq!(
        render(&p, 0),
        "<p>hello &lt;script&gt;&amp;&quot;world&quot;</p>"
    );
}

#[test]
fn repost_nests_inner_rendering_in_blockquote() {
    let mut inner = plain_post("2", "inner text & more");
    inner.author_display_name = "Bob <b>".to_string();
    let mut outer = plain_post("1", "outer text");
    outer.reposted_post = Some(Box::new(inner));
    assert_eq!(
        render(&outer, 0),
        "<p>outer text</p>\nBob &lt;b&gt;:\n<blockquote><p>inner text &amp; more</p></blockquote>"
    );
}

#[test]
fn repost_author_falls_back_to_handle() {
    let mut inner = plain_post("2", "x");
    inner.author_display_name = String::new();
    let mut outer = plain_post("1", "y");
    outer.reposted_post = Some(Box::new(inner));
    assert_eq!(
        render(&outer, 0),
        "<p>y</p>\nalice@example.social:\n<blockquote><p>x</p></blockquote>"
    );
}

#[test]
fn repost_chain_is_depth_capped() {
    let innermost = plain_post("3", "deepest");
    let mut middle = plain_post("2", "middle");
    middle.reposted_post = Some(Box::new(innermost));
    let mut outer = plain_post("1", "top");
    outer.reposted_post = Some(Box::new(middle));
    let out = render(&outer, 0);
    assert!(out.contains("middle"));
    assert!(!out.contains("deepest"));
}

#[test]
fn two_images_one_with_alt_one_without() {
    let mut p = plain_post("1", "t");
    p.media = vec![
        MediaItem {
            url: Some("https://cdn.example/a.png".to_string()),
            kind: MediaKind::Image,
            alt_text: Some("A&B".to_string()),
            thumbnail_url: None,
        },
        MediaItem {
            url: Some("https://cdn.example/b.png".to_string()),
            kind: MediaKind::Image,
            alt_text: None,
            thumbnail_url: None,
        },
    ];
    assert_eq!(
        render(&p, 0),
        "<p>t</p>\n<img src=\"https://cdn.example/a.png\" alt=\"A&amp;B\">\n<img src=\"https://cdn.example/b.png\" alt=\"\">"
    );
}

#[test]
fn media_without_url_is_omitted() {
    let mut p = plain_post("1", "t");
    p.media = vec![MediaItem {
        url: None,
        kind: MediaKind::Image,
        alt_text: Some("ghost".to_string()),
        thumbnail_url: None,
    }];
    assert_eq!(render(&p, 0), "<p>t</p>");
}

#[test]
fn video_with_thumbnail_gets_preview_and_text_link() {
    let mut p = plain_post("1", "t");
    p.media = vec![MediaItem {
        url: Some("https://cdn.example/v.mp4".to_string()),
        kind: MediaKind::Video,
        alt_text: None,
        thumbnail_url: Some("https://cdn.example/v.jpg".to_string()),
    }];
    assert_eq!(
        render(&p, 0),
        "<p>t</p>\n<a href=\"https://cdn.example/v.mp4\"><img src=\"https://cdn.example/v.jpg\"></a>\n<a href=\"https://cdn.example/v.mp4\">View video</a>"
    );
}

#[test]
fn video_without_thumbnail_gets_text_link_only() {
    let mut p = plain_post("1", "t");
    p.media = vec![MediaItem {
        url: Some("https://cdn.example/v.mp4".to_string()),
        kind: MediaKind::Video,
        alt_text: None,
        thumbnail_url: None,
    }];
    assert_eq!(
        render(&p, 0),
        "<p>t</p>\n<a href=\"https://cdn.example/v.mp4\">View video</a>"
    );
}

#[test]
fn quote_post_is_inlined_after_paragraph() {
    let mut quoted = plain_post("xyz", "quoted words");
    quoted.author_display_name = "Carol".to_string();
    quoted.author_handle = "carol.example.social".to_string();
    let mut p = plain_post("1", "my take");
    p.quoted_post = Some(Box::new(quoted));
    assert_eq!(
        render(&p, 0),
        "<p>my take</p>\n<blockquote>Carol: quoted words <a href=\"https://bsky.app/profile/carol.example.social/post/xyz\">view quoted post</a></blockquote>"
    );
}

#[test]
fn quote_with_blank_text_shows_author_only() {
    let mut quoted = plain_post("xyz", "  \n\t ");
    quoted.author_display_name = "Carol".to_string();
    quoted.author_handle = String::new();
    let mut p = plain_post("1", "my take");
    p.quoted_post = Some(Box::new(quoted));
    assert_eq!(render(&p, 0), "<p>my take</p>\n<blockquote>Carol</blockquote>");
}
