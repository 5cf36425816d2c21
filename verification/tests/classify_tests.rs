use timeline_rss::classify::{classify, unexpected_response_message, Outcome};
use timeline_rss::post::NormalizedPost;

fn post(id: &str) -> NormalizedPost {
    NormalizedPost {
        id: id.to_string(),
        author_display_name: "A".to_string(),
        author_handle: "a@example.social".to_string(),
        text_html_unsafe: "t".to_string(),
        permalink: "https://example.social/1".to_string(),
        created_at: None,
        reposted_post: None,
        quoted_post: None,
        media: Vec::new(),
    }
}

fn upstream_error(outcome: Outcome) -> String {
    match outcome {
        Outcome::UpstreamError(msg) => msg,
        Outcome::Success(_) => panic!("expected an upstream error, got a success"),
        Outcome::Unparseable => panic!("expected an upstream error, got unparseable"),
    }
}

#[test]
fn error_key_is_extracted_from_failure_body() {
    let out = classify(401, None, &b"{\"error\":\"invalid_token\"}".to_vec());
    assert_eq!(upstream_error(out), "invalid_token");
}

#[test]
fn non_json_failure_body_gives_generic_message_with_status() {
    let out = classify(502, None, &b"<html>Bad Gateway</html>".to_vec());
    assert_eq!(upstream_error(out), "Upstream request failed with status 502.");
}

#[test]
fn empty_failure_body_gives_generic_message() {
    let out = classify(500, None, &Vec::new());
    assert_eq!(upstream_error(out), "Upstream request failed with status 500.");
}

#[test]
fn success_with_parsed_posts_is_success() {
    let out = classify(200, Some(vec![post("1"), post("2")]), &b"ignored".to_vec());
    match out {
        Outcome::Success(posts) => {
            assert_eq!(posts.len(), 2);
            assert_eq!(posts[0].id, "1");
            assert_eq!(posts[1].id, "2");
        },
        _ => panic!("expected success"),
    }
}

#[test]
fn success_status_with_unparsed_body_is_unparseable() {
    let out = classify(200, None, &b"[1, 2, 3]".to_vec());
    assert!(matches!(out, Outcome::Unparseable));
    assert_eq!(
        unexpected_response_message(),
        "Unexpected response from the upstream service."
    );
}

#[test]
fn success_status_with_error_body_reports_the_error() {
    let out = classify(200, None, &b"{\"error\":\"rate limited\"}".to_vec());
    assert_eq!(upstream_error(out), "rate limited");
}

#[test]
fn error_key_outranks_later_and_earlier_keys() {
    let body = b"{\"message\":\"m\",\"error\":\"e\",\"error_description\":\"d\"}".to_vec();
    assert_eq!(upstream_error(classify(400, None, &body)), "e");
    let body = b"{\"message\":\"m\",\"error_description\":\"d\"}".to_vec();
    assert_eq!(upstream_error(classify(400, None, &body)), "d");
    let body = b"{\"message\":\"m\"}".to_vec();
    assert_eq!(upstream_error(classify(400, None, &body)), "m");
}

#[test]
fn whitespace_and_scalar_members_are_tolerated() {
    let body = b" {\n  \"code\" : 42 ,\n  \"ok\" : false ,\n  \"error\" : \"down\"\n} ".to_vec();
    assert_eq!(upstream_error(classify(503, None, &body)), "down");
}

#[test]
fn string_escapes_are_decoded() {
    let body = b"{\"error\":\"line\\none \\\"quoted\\\" back\\\\slash\"}".to_vec();
    assert_eq!(
        upstream_error(classify(500, None, &body)),
        "line\none \"quoted\" back\\slash"
    );
}

#[test]
fn nested_container_members_are_skipped() {
    let body = b"{\"details\":{\"inner\":1},\"error\":\"x\"}".to_vec();
    assert_eq!(upstream_error(classify(500, None, &body)), "x");
}

#[test]
fn array_members_and_bracketed_strings_are_skipped() {
    let body =
        b"{\"items\":[1,{\"a\":\"}]\"},[2]],\"error\":\"deep\"}".to_vec();
    assert_eq!(upstream_error(classify(500, None, &body)), "deep");
}

#[test]
fn keys_inside_nested_containers_are_not_probed() {
    let body = b"{\"outer\":{\"error\":\"inner\"}}".to_vec();
    assert_eq!(upstream_error(classify(500, None, &body)), "Upstream request failed with status 500.");
}

#[test]
fn unterminated_container_bails_to_generic_message() {
    let body = b"{\"details\":{\"inner\":1,\"error\":\"x\"}".to_vec();
    assert_eq!(upstream_error(classify(500, None, &body)), "Upstream request failed with status 500.");
}

#[test]
fn unicode_escape_bails_to_generic_message() {
    let body = b"{\"error\":\"\\u0041\"}".to_vec();
    assert_eq!(upstream_error(classify(500, None, &body)), "Upstream request failed with status 500.");
}

#[test]
fn long_extracted_message_is_truncated_to_preview() {
    let mut body = b"{\"error\":\"".to_vec();
    body.extend(std::iter::repeat(b'x').take(800));
    body.extend(b"\"}".iter());
    let msg = upstream_error(classify(500, None, &body));
    assert_eq!(msg.len(), 500);
    assert!(msg.chars().all(|c| c == 'x'));
}

#[test]
fn first_occurrence_of_a_key_wins() {
    let body = b"{\"error\":\"first\",\"error\":\"second\"}".to_vec();
    assert_eq!(upstream_error(classify(500, None, &body)), "first");
}

#[test]
fn non_utf8_error_value_falls_back_to_generic() {
    let body = vec![
        b'{', b'"', b'e', b'r', b'r', b'o', b'r', b'"', b':', b'"', 0xff, 0xfe, b'"', b'}',
    ];
    assert_eq!(upstream_error(classify(500, None, &body)), "Upstream request failed with status 500.");
}
