//! The structured post record: typed fields with explicitly optional media
//! signals, validated eagerly when built from a fetched response.

use vstd::prelude::*;
use crate::render::MAX_RENDER_TIMESTAMP;

verus! {

/// One entry of a post's media-metadata map: the media identifier and its
/// MIME-type string.
pub struct MediaEntry {
    pub id: String,
    pub mime: String,
}

pub ghost struct MediaEntryView {
    pub id: Seq<char>,
    pub mime: Seq<char>,
}

impl View for MediaEntry {
    type V = MediaEntryView;

    open spec fn view(&self) -> MediaEntryView {
        MediaEntryView { id: self.id@, mime: self.mime@ }
    }
}

impl DeepView for MediaEntry {
    type V = MediaEntryView;

    open spec fn deep_view(&self) -> MediaEntryView {
        self@
    }
}

/// A resolved post: the required textual fields, the creation timestamp in
/// whole seconds since the epoch (the fractional part is discarded on
/// fetch), and the three optional media signals of the loosely-shaped
/// response.
pub struct PostRecord {
    pub author: String,
    pub subreddit: String,
    pub title: String,
    pub selftext: String,
    pub created_utc: i64,
    pub is_reddit_media_domain: Option<bool>,
    pub is_gallery: Option<bool>,
    pub url: Option<String>,
    pub media_metadata: Option<Vec<MediaEntry>>,
}

pub ghost struct PostRecordView {
    pub author: Seq<char>,
    pub subreddit: Seq<char>,
    pub title: Seq<char>,
    pub selftext: Seq<char>,
    pub created_utc: int,
    pub is_reddit_media_domain: Option<bool>,
    pub is_gallery: Option<bool>,
    pub url: Option<Seq<char>>,
    pub media_metadata: Option<Seq<MediaEntryView>>,
}

impl View for PostRecord {
    type V = PostRecordView;

    open spec fn view(&self) -> PostRecordView {
        PostRecordView {
            author: self.author@,
            subreddit: self.subreddit@,
            title: self.title@,
            selftext: self.selftext@,
            created_utc: self.created_utc as int,
            is_reddit_media_domain: self.is_reddit_media_domain,
            is_gallery: self.is_gallery,
            url: self.url.deep_view(),
            media_metadata: self.media_metadata.deep_view(),
        }
    }
}

/// Why a fetched response could not be validated into a `PostRecord`.
#[derive(Clone, Copy, Debug, PartialEq, Eq, Structural)]
pub enum RecordError {
    MissingAuthor,
    MissingSubreddit,
    MissingTitle,
    MissingBody,
    MissingCreated,
    CreatedOutOfRange,
}

/// The first reason, in field order, for which a response with the given
/// fields is rejected; `None` when it validates.
pub open spec fn first_record_error(
    has_author: bool,
    has_subreddit: bool,
    has_title: bool,
    has_body: bool,
    created_utc: Option<i64>,
) -> Option<RecordError> {
    if !has_author {
        Some(RecordError::MissingAuthor)
    } else if !has_subreddit {
        Some(RecordError::MissingSubreddit)
    } else if !has_title {
        Some(RecordError::MissingTitle)
    } else if !has_body {
        Some(RecordError::MissingBody)
    } else if created_utc is None {
        Some(RecordError::MissingCreated)
    } else if !(0 <= created_utc->0 <= MAX_RENDER_TIMESTAMP) {
        Some(RecordError::CreatedOutOfRange)
    } else {
        None
    }
}

/// Validates the loosely-shaped fields read from a fetched response into a
/// `PostRecord`, eagerly and fail-fast: every required field must be present
/// and the creation timestamp must lie in the renderable range. The optional
/// media signals pass through unchecked.
pub fn build_post_record(
    author: Option<String>,
    subreddit: Option<String>,
    title: Option<String>,
    selftext: Option<String>,
    created_utc: Option<i64>,
    is_reddit_media_domain: Option<bool>,
    is_gallery: Option<bool>,
    url: Option<String>,
    media_metadata: Option<Vec<MediaEntry>>,
) -> (r: Result<PostRecord, RecordError>)
    ensures
        match r {
            Ok(p) => {
                &&& first_record_error(
                    author is Some,
                    subreddit is Some,
                    title is Some,
                    selftext is Some,
                    created_utc,
                ) is None
                &&& p.author == author->0
                &&& p.subreddit == subreddit->0
                &&& p.title == title->0
                &&& p.selftext == selftext->0
                &&& p.created_utc == created_utc->0
                &&& p.is_reddit_media_domain == is_reddit_media_domain
                &&& p.is_gallery == is_gallery
                &&& p.url == url
                &&& p.media_metadata == media_metadata
            },
            Err(e) => first_record_error(
                author is Some,
                subreddit is Some,
                title is Some,
                selftext is Some,
                created_utc,
            ) == Some(e),
        },
{
    let author = match author {
        Some(a) => a,
        None => {
            return Err(RecordError::MissingAuthor);
        },
    };
    let subreddit = match subreddit {
        Some(s) => s,
        None => {
            return Err(RecordError::MissingSubreddit);
        },
    };
    let title = match title {
        Some(t) => t,
        None => {
            return Err(RecordError::MissingTitle);
        },
    };
    let selftext = match selftext {
        Some(b) => b,
        None => {
            return Err(RecordError::MissingBody);
        },
    };
    let created_utc = match created_utc {
        Some(c) => c,
        None => {
            return Err(RecordError::MissingCreated);
        },
    };
    if !(0 <= created_utc && created_utc <= MAX_RENDER_TIMESTAMP) {
        return Err(RecordError::CreatedOutOfRange);
    }
    Ok(
        PostRecord {
            author,
            subreddit,
            title,
            selftext,
            created_utc,
            is_reddit_media_domain,
            is_gallery,
            url,
            media_metadata,
        },
    )
}

/// The command-line surface: the raw post identifier or URL, and the output
/// directory path.
pub struct CliArgs {
    pub post_id: String,
    pub output: String,
}

} // verus!
