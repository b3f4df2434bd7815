use backuppit::media::{
    classify_media, format_reddit_media_url, get_gallery_urls, get_media_filename_from_url,
    get_media_metadata_ids, url_has_media_filename, MediaDescriptor,
};
use backuppit::record::{MediaEntry, PostRecord};

fn plain_post() -> PostRecord {
    PostRecord {
        author: String::from("someone"),
        subreddit: String::from("pics"),
        title: String::from("a title"),
        selftext: String::from(""),
        created_utc: 1609459200,
        is_reddit_media_domain: None,
        is_gallery: None,
        url: None,
        media_metadata: None,
    }
}

#[test]
fn media_domain_post_yields_single_image_with_filename() {
    let mut post = plain_post();
    post.is_reddit_media_domain = Some(true);
    post.url = Some(String::from("https://host/1234567890123.jpg"));
    match classify_media(&post) {
        MediaDescriptor::SingleImage { url } => {
            assert_eq!(url, String::from("https://host/1234567890123.jpg"));
            assert!(url_has_media_filename(&url));
            assert_eq!(
                get_media_filename_from_url(&url),
                String::from("1234567890123.jpg")
            );
        }
        _ => panic!("expected a single image"),
    }
}

#[test]
fn metadata_map_yields_gallery_of_images_only() {
    let mut post = plain_post();
    post.media_metadata = Some(vec![
        MediaEntry {
            id: String::from("X"),
            mime: String::from("image/jpg"),
        },
        MediaEntry {
            id: String::from("Y"),
            mime: String::from("video/mp4"),
        },
    ]);
    match classify_media(&post) {
        MediaDescriptor::Gallery { items } => {
            assert_eq!(items.len(), 1);
            assert_eq!(items[0].id, String::from("X"));
            assert_eq!(items[0].mime, String::from("image/jpg"));
            assert_eq!(items[0].extension, String::from("jpg"));
        }
        _ => panic!("expected a gallery"),
    }
    let ids = get_media_metadata_ids(post.media_metadata.as_ref().unwrap());
    assert_eq!(ids, vec![String::from("X.jpg")]);
    let urls = get_gallery_urls(post.media_metadata.as_ref().unwrap());
    assert_eq!(urls, vec![String::from("https://i.redd.it/X.jpg")]);
}

#[test]
fn metadata_map_wins_even_without_gallery_flag() {
    let mut post = plain_post();
    post.is_gallery = Some(false);
    post.media_metadata = Some(vec![MediaEntry {
        id: String::from("Z"),
        mime: String::from("image/png"),
    }]);
    match classify_media(&post) {
        MediaDescriptor::Gallery { items } => {
            assert_eq!(items.len(), 1);
            assert_eq!(items[0].extension, String::from("png"));
        }
        _ => panic!("expected a gallery"),
    }
}

#[test]
fn no_signals_yields_no_media() {
    let post = plain_post();
    match classify_media(&post) {
        MediaDescriptor::NoMedia => {}
        _ => panic!("expected no media"),
    }
}

#[test]
fn gallery_flag_without_metadata_yields_no_media() {
    let mut post = plain_post();
    post.is_gallery = Some(true);
    match classify_media(&post) {
        MediaDescriptor::NoMedia => {}
        _ => panic!("expected no media"),
    }
}

#[test]
fn media_url_is_built_from_id_and_extension() {
    assert_eq!(
        format_reddit_media_url("abcdef", "png"),
        String::from("https://i.redd.it/abcdef.png")
    );
}

#[test]
fn filename_pattern_is_checked_exactly() {
    assert!(url_has_media_filename("https://i.redd.it/abc_defghijk1.png"));
    assert!(!url_has_media_filename("https://i.redd.it/short.png"));
    assert!(!url_has_media_filename("https://i.redd.it/1234567890123"));
    assert!(!url_has_media_filename(""));
    assert!(!url_has_media_filename("https://host/123456789012).jpg"));
}
