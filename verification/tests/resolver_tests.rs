use backuppit::resolver::{extract_post_id, format_reddit_url};

#[test]
fn bare_id_resolves_to_itself() {
    assert_eq!(extract_post_id("abc123"), Some(String::from("abc123")));
    assert_eq!(extract_post_id("ZZZZZZ"), Some(String::from("ZZZZZZ")));
    assert_eq!(extract_post_id("000000"), Some(String::from("000000")));
    assert_eq!(extract_post_id("aB3cD9"), Some(String::from("aB3cD9")));
}

#[test]
fn short_url_resolves() {
    assert_eq!(
        extract_post_id("https://www.example.com/abc123/"),
        Some(String::from("abc123"))
    );
    assert_eq!(
        extract_post_id("https://www.example.com/abc123"),
        Some(String::from("abc123"))
    );
    assert_eq!(
        extract_post_id("https://www.reddit.com/xY9z42"),
        Some(String::from("xY9z42"))
    );
}

#[test]
fn full_url_resolves() {
    assert_eq!(
        extract_post_id("https://www.example.com/r/test/comments/abc123/"),
        Some(String::from("abc123"))
    );
    assert_eq!(
        extract_post_id("https://www.reddit.com/r/rust/comments/xY9z42"),
        Some(String::from("xY9z42"))
    );
}

#[test]
fn invalid_inputs_are_rejected() {
    assert_eq!(extract_post_id("abc1234"), None);
    assert_eq!(extract_post_id(""), None);
    assert_eq!(extract_post_id("http://example.com/abc123"), None);
    assert_eq!(extract_post_id("abc12"), None);
    assert_eq!(extract_post_id("abc_12"), None);
    assert_eq!(extract_post_id("https://example.com/abc123"), None);
    assert_eq!(extract_post_id("https://www.example.org/abc123"), None);
    assert_eq!(extract_post_id("https://www.example.com/abc123//"), None);
    assert_eq!(extract_post_id("https://www.example.com/r/test/abc123"), None);
}

#[test]
fn fetch_url_is_built_from_the_identifier() {
    assert_eq!(
        format_reddit_url("abc123"),
        String::from("https://www.reddit.com/abc123/.json")
    );
}
