use backuppit::record::{build_post_record, MediaEntry, PostRecord, RecordError};
use backuppit::render::{
    format_md_file, format_media_tags, parse_front_matter, timestamp_to_readable,
    MAX_RENDER_TIMESTAMP,
};

fn sample_post() -> PostRecord {
    PostRecord {
        author: String::from("someone"),
        subreddit: String::from("rust"),
        title: String::from("a post title"),
        selftext: String::from("the body text"),
        created_utc: 1609459200,
        is_reddit_media_domain: None,
        is_gallery: None,
        url: None,
        media_metadata: None,
    }
}

#[test]
fn timestamp_renders_as_utc_with_fraction_discarded() {
    let raw: f64 = 1609459200.5;
    let whole = raw.trunc() as i64;
    assert_eq!(
        timestamp_to_readable(whole),
        String::from("2021-01-01 00:00:00")
    );
}

#[test]
fn timestamp_renders_all_time_fields() {
    assert_eq!(
        timestamp_to_readable(1234567890),
        String::from("2009-02-13 23:31:30")
    );
    assert_eq!(timestamp_to_readable(0), String::from("1970-01-01 00:00:00"));
}

#[test]
fn media_tags_render_one_line_per_filename() {
    assert_eq!(format_media_tags(None), String::new());
    assert_eq!(format_media_tags(Some(vec![])), String::new());
    assert_eq!(
        format_media_tags(Some(vec![String::from("a.jpg")])),
        String::from("![a.jpg](a.jpg)")
    );
    assert_eq!(
        format_media_tags(Some(vec![String::from("a.jpg"), String::from("b.png")])),
        String::from("![a.jpg](a.jpg)\n![b.png](b.png)")
    );
}

#[test]
fn document_renders_front_matter_body_and_tags() {
    let post = sample_post();
    let doc = format_md_file(&post, Some(vec![String::from("X.jpg")]));
    assert_eq!(
        doc,
        String::from(
            "---\nAuthor: someone\nSubreddit: rust\nTitle: a post title\n\
             Date: 2021-01-01 00:00:00\n---\nthe body text\n![X.jpg](X.jpg)"
        )
    );
}

#[test]
fn document_without_media_has_no_reference_lines() {
    let post = sample_post();
    let doc = format_md_file(&post, None);
    assert_eq!(
        doc,
        String::from(
            "---\nAuthor: someone\nSubreddit: rust\nTitle: a post title\n\
             Date: 2021-01-01 00:00:00\n---\nthe body text\n"
        )
    );
    assert!(!doc.contains("!["));
}

#[test]
fn rendered_front_matter_parses_back_exactly() {
    let post = sample_post();
    let doc = format_md_file(&post, Some(vec![String::from("X.jpg")]));
    let fm = parse_front_matter(&doc).expect("front matter should parse");
    assert_eq!(fm.author, String::from("someone"));
    assert_eq!(fm.subreddit, String::from("rust"));
    assert_eq!(fm.title, String::from("a post title"));
    assert_eq!(fm.date, String::from("2021-01-01 00:00:00"));
}

#[test]
fn malformed_front_matter_is_rejected() {
    assert!(parse_front_matter("").is_none());
    assert!(parse_front_matter("not a document").is_none());
    assert!(parse_front_matter("---\nAuthor: x").is_none());
    assert!(parse_front_matter("---\nAuthor: x\nTitle: y\n---\nbody").is_none());
}

#[test]
fn record_builds_when_every_required_field_is_present() {
    let built = build_post_record(
        Some(String::from("someone")),
        Some(String::from("rust")),
        Some(String::from("a post title")),
        Some(String::from("")),
        Some(1609459200),
        Some(false),
        None,
        None,
        Some(vec![MediaEntry {
            id: String::from("X"),
            mime: String::from("image/jpg"),
        }]),
    )
    .expect("record should validate");
    assert_eq!(built.author, String::from("someone"));
    assert_eq!(built.subreddit, String::from("rust"));
    assert_eq!(built.title, String::from("a post title"));
    assert_eq!(built.selftext, String::from(""));
    assert_eq!(built.created_utc, 1609459200);
    assert_eq!(built.is_reddit_media_domain, Some(false));
    assert_eq!(built.is_gallery, None);
    assert!(built.url.is_none());
    assert_eq!(built.media_metadata.unwrap().len(), 1);
}

#[test]
fn record_rejects_the_first_missing_field() {
    let some = || Some(String::from("x"));
    assert!(matches!(
        build_post_record(None, some(), some(), some(), Some(0), None, None, None, None),
        Err(RecordError::MissingAuthor)
    ));
    assert!(matches!(
        build_post_record(some(), None, some(), some(), Some(0), None, None, None, None),
        Err(RecordError::MissingSubreddit)
    ));
    assert!(matches!(
        build_post_record(some(), some(), None, some(), Some(0), None, None, None, None),
        Err(RecordError::MissingTitle)
    ));
    assert!(matches!(
        build_post_record(some(), some(), some(), None, Some(0), None, None, None, None),
        Err(RecordError::MissingBody)
    ));
    assert!(matches!(
        build_post_record(some(), some(), some(), some(), None, None, None, None, None),
        Err(RecordError::MissingCreated)
    ));
    assert!(matches!(
        build_post_record(some(), some(), some(), some(), Some(-1), None, None, None, None),
        Err(RecordError::CreatedOutOfRange)
    ));
    assert!(matches!(
        build_post_record(
            some(),
            some(),
            some(),
            some(),
            Some(MAX_RENDER_TIMESTAMP + 1),
            None,
            None,
            None,
            None
        ),
        Err(RecordError::CreatedOutOfRange)
    ));
}
