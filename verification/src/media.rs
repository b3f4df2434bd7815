//! Media classification: inspects a post record's shape to decide which
//! media-extraction strategy applies, and derives the filenames and download
//! URLs of the eligible items.

use vstd::prelude::*;
use crate::record::{MediaEntry, MediaEntryView, PostRecord, PostRecordView};
use crate::render::media_tags_text;
use crate::resolver::{id_char, is_id_char};
use crate::scan::matches_lit_at;

verus! {

/// A word character as the filename pattern accepts it: a letter, a digit or
/// an underscore.
pub open spec fn is_word_char(c: char) -> bool {
    is_id_char(c) || c == '_'
}

/// A MIME type marks an image when it begins with `image/`.
pub open spec fn mime_is_image(m: Seq<char>) -> bool {
    m.len() >= 6 && m.subrange(0, 6) == "image/"@
}

/// The file extension derived from an image MIME type: whatever follows the
/// `image/` prefix.
pub open spec fn mime_extension(m: Seq<char>) -> Seq<char>
    recommends
        m.len() >= 6,
{
    m.subrange(6, m.len() as int)
}

/// One classified gallery item: its identifier, its MIME type, and the file
/// extension derived from the MIME type.
pub struct MediaItem {
    pub id: String,
    pub mime: String,
    pub extension: String,
}

pub ghost struct MediaItemView {
    pub id: Seq<char>,
    pub mime: Seq<char>,
    pub extension: Seq<char>,
}

impl View for MediaItem {
    type V = MediaItemView;

    open spec fn view(&self) -> MediaItemView {
        MediaItemView { id: self.id@, mime: self.mime@, extension: self.extension@ }
    }
}

impl DeepView for MediaItem {
    type V = MediaItemView;

    open spec fn deep_view(&self) -> MediaItemView {
        self@
    }
}

/// The classified outcome of inspecting a post for attached media.
pub enum MediaDescriptor {
    NoMedia,
    SingleImage { url: String },
    Gallery { items: Vec<MediaItem> },
}

pub ghost enum MediaDescriptorView {
    NoMedia,
    SingleImage { url: Seq<char> },
    Gallery { items: Seq<MediaItemView> },
}

impl View for MediaDescriptor {
    type V = MediaDescriptorView;

    open spec fn view(&self) -> MediaDescriptorView {
        match self {
            MediaDescriptor::NoMedia => MediaDescriptorView::NoMedia,
            MediaDescriptor::SingleImage { url } => MediaDescriptorView::SingleImage {
                url: url@,
            },
            MediaDescriptor::Gallery { items } => MediaDescriptorView::Gallery {
                items: items.deep_view(),
            },
        }
    }
}

/// The gallery item derived from one eligible media-metadata entry.
pub open spec fn media_item_of(e: MediaEntryView) -> MediaItemView {
    MediaItemView { id: e.id, mime: e.mime, extension: mime_extension(e.mime) }
}

/// The gallery items classified from a media-metadata map: the entries whose
/// MIME type begins with `image/`, in map order; all others are silently
/// skipped.
pub open spec fn gallery_items(entries: Seq<MediaEntryView>) -> Seq<MediaItemView>
    decreases entries.len(),
{
    if entries.len() == 0 {
        Seq::empty()
    } else if mime_is_image(entries.last().mime) {
        gallery_items(entries.drop_last()).push(media_item_of(entries.last()))
    } else {
        gallery_items(entries.drop_last())
    }
}

/// The filename of a gallery item: `<id>.<extension>`.
pub open spec fn item_filename(e: MediaEntryView) -> Seq<char> {
    e.id + "."@ + mime_extension(e.mime)
}

/// The download URL of a gallery item on the fixed media host.
pub open spec fn item_media_url(e: MediaEntryView) -> Seq<char> {
    "https://i.redd.it/"@ + e.id + "."@ + mime_extension(e.mime)
}

/// The filenames of the eligible entries of a media-metadata map, in map
/// order.
pub open spec fn gallery_filenames(entries: Seq<MediaEntryView>) -> Seq<Seq<char>>
    decreases entries.len(),
{
    if entries.len() == 0 {
        Seq::empty()
    } else if mime_is_image(entries.last().mime) {
        gallery_filenames(entries.drop_last()).push(item_filename(entries.last()))
    } else {
        gallery_filenames(entries.drop_last())
    }
}

/// The download URLs of the eligible entries of a media-metadata map, in map
/// order.
pub open spec fn gallery_download_urls(entries: Seq<MediaEntryView>) -> Seq<Seq<char>>
    decreases entries.len(),
{
    if entries.len() == 0 {
        Seq::empty()
    } else if mime_is_image(entries.last().mime) {
        gallery_download_urls(entries.drop_last()).push(item_media_url(entries.last()))
    } else {
        gallery_download_urls(entries.drop_last())
    }
}

/// The media classification policy, in priority order: the media-domain flag
/// wins and yields a single image from the post's `url` field; otherwise a
/// present media-metadata map yields a gallery, whatever the gallery flag
/// says; otherwise there is no media. A post with the gallery flag set but
/// no media-metadata map therefore yields no media.
pub open spec fn classified_media(p: PostRecordView) -> MediaDescriptorView {
    if p.is_reddit_media_domain == Some(true) {
        MediaDescriptorView::SingleImage { url: p.url->0 }
    } else if p.media_metadata is Some {
        MediaDescriptorView::Gallery { items: gallery_items(p.media_metadata->0) }
    } else {
        MediaDescriptorView::NoMedia
    }
}

/// The posts on which classification is defined: the single-image strategy
/// needs the post's `url` field, and every media-metadata MIME string must
/// be at least as long as the `image/` prefix it is tested against.
pub open spec fn classify_ok(p: PostRecordView) -> bool {
    &&& (p.is_reddit_media_domain == Some(true) ==> p.url is Some)
    &&& (p.is_reddit_media_domain != Some(true) && p.media_metadata is Some ==> forall|i: int|
        0 <= i < p.media_metadata->0.len() ==> (#[trigger] p.media_metadata->0[i]).mime.len() >= 6)
}

/// True when the MIME type marks an image.
fn check_mime_is_image(mime: &str) -> (b: bool)
    requires
        mime@.len() >= 6,
    ensures
        b == mime_is_image(mime@),
{
    proof {
        reveal_strlit("image/");
    }
    matches_lit_at(mime, 0, "image/")
}

/// Classifies a post's media shape, in the fixed priority order.
pub fn classify_media(post: &PostRecord) -> (r: MediaDescriptor)
    requires
        classify_ok(post@),
    ensures
        r@ == classified_media(post@),
{
    proof {
        reveal_strlit("image/");
    }
    let single = match post.is_reddit_media_domain {
        Some(true) => true,
        _ => false,
    };
    if single {
        let url = post.url.as_ref().unwrap().clone();
        return MediaDescriptor::SingleImage { url };
    }
    match &post.media_metadata {
        Some(mm) => {
            let ghost dv = mm.deep_view();
            let mut items: Vec<MediaItem> = Vec::new();
            let mut i: usize = 0;
            while i < mm.len()
                invariant
                    0 <= i <= mm@.len(),
                    dv == mm.deep_view(),
                    dv.len() == mm@.len(),
                    forall|j: int| 0 <= j < dv.len() ==> (#[trigger] dv[j]).mime.len() >= 6,
                    items.deep_view() == gallery_items(dv.take(i as int)),
                decreases mm@.len() - i,
            {
                proof {
                    reveal_strlit("image/");
                    assert(dv[i as int] == mm@[i as int]@);
                    assert(dv.take(i + 1).drop_last() =~= dv.take(i as int));
                    assert(dv.take(i + 1).last() == dv[i as int]);
                }
                let ghost items_before = items.deep_view();
                let entry = &mm[i];
                let mime_len = entry.mime.unicode_len();
                if check_mime_is_image(entry.mime.as_str()) {
                    let extension = entry.mime.as_str().substring_char(6, mime_len).to_owned();
                    items.push(
                        MediaItem { id: entry.id.clone(), mime: entry.mime.clone(), extension },
                    );
                    proof {
                        assert(items.deep_view() =~= items_before.push(media_item_of(dv[i as int])));
                    }
                } else {
                    proof {
                        assert(items.deep_view() =~= gallery_items(dv.take(i + 1)));
                    }
                }
                i = i + 1;
            }
            proof {
                assert(dv.take(mm@.len() as int) =~= dv);
            }
            MediaDescriptor::Gallery { items }
        },
        None => MediaDescriptor::NoMedia,
    }
}

/// Builds `<media id>.<extension>` names for the eligible entries of a
/// media-metadata map: exactly those whose MIME type begins with `image/`.
pub fn get_media_metadata_ids(media_metadata: &Vec<MediaEntry>) -> (r: Vec<String>)
    requires
        forall|i: int|
            0 <= i < media_metadata@.len() ==> (#[trigger] media_metadata@[i])@.mime.len() >= 6,
    ensures
        r.deep_view() == gallery_filenames(media_metadata.deep_view()),
{
    let ghost dv = media_metadata.deep_view();
    let mut names: Vec<String> = Vec::new();
    let mut i: usize = 0;
    while i < media_metadata.len()
        invariant
            0 <= i <= media_metadata@.len(),
            dv == media_metadata.deep_view(),
            dv.len() == media_metadata@.len(),
            forall|j: int| 0 <= j < dv.len() ==> (#[trigger] dv[j]).mime.len() >= 6,
            names.deep_view() == gallery_filenames(dv.take(i as int)),
        decreases media_metadata@.len() - i,
    {
        proof {
            reveal_strlit("image/");
            assert(dv[i as int] == media_metadata@[i as int]@);
            assert(dv.take(i + 1).drop_last() =~= dv.take(i as int));
            assert(dv.take(i + 1).last() == dv[i as int]);
        }
        let ghost names_before = names.deep_view();
        let entry = &media_metadata[i];
        let mime_len = entry.mime.unicode_len();
        if check_mime_is_image(entry.mime.as_str()) {
            let mut name = entry.id.clone();
            name.append(".");
            name.append(entry.mime.as_str().substring_char(6, mime_len));
            proof {
                assert(name@ =~= item_filename(dv[i as int]));
            }
            names.push(name);
            proof {
                assert(names.deep_view() =~= names_before.push(item_filename(dv[i as int])));
            }
        } else {
            proof {
                assert(names.deep_view() =~= gallery_filenames(dv.take(i + 1)));
            }
        }
        i = i + 1;
    }
    proof {
        assert(dv.take(media_metadata@.len() as int) =~= dv);
    }
    names
}

/// Builds the media-host download URL for one media identifier and file
/// extension.
pub fn format_reddit_media_url(media_id: &str, extension: &str) -> (url: String)
    ensures
        url@ == "https://i.redd.it/"@ + media_id@ + "."@ + extension@,
{
    let mut url = String::from_str("https://i.redd.it/");
    url.append(media_id);
    url.append(".");
    url.append(extension);
    url
}

/// Builds the download URLs of the eligible entries of a media-metadata map:
/// exactly those whose MIME type begins with `image/`.
pub fn get_gallery_urls(media_metadata: &Vec<MediaEntry>) -> (r: Vec<String>)
    requires
        forall|i: int|
            0 <= i < media_metadata@.len() ==> (#[trigger] media_metadata@[i])@.mime.len() >= 6,
    ensures
        r.deep_view() == gallery_download_urls(media_metadata.deep_view()),
{
    let ghost dv = media_metadata.deep_view();
    let mut urls: Vec<String> = Vec::new();
    let mut i: usize = 0;
    while i < media_metadata.len()
        invariant
            0 <= i <= media_metadata@.len(),
            dv == media_metadata.deep_view(),
            dv.len() == media_metadata@.len(),
            forall|j: int| 0 <= j < dv.len() ==> (#[trigger] dv[j]).mime.len() >= 6,
            urls.deep_view() == gallery_download_urls(dv.take(i as int)),
        decreases media_metadata@.len() - i,
    {
        proof {
            reveal_strlit("image/");
            assert(dv[i as int] == media_metadata@[i as int]@);
            assert(dv.take(i + 1).drop_last() =~= dv.take(i as int));
            assert(dv.take(i + 1).last() == dv[i as int]);
        }
        let ghost urls_before = urls.deep_view();
        let entry = &media_metadata[i];
        let mime_len = entry.mime.unicode_len();
        if check_mime_is_image(entry.mime.as_str()) {
            let url = format_reddit_media_url(
                entry.id.as_str(),
                entry.mime.as_str().substring_char(6, mime_len),
            );
            proof {
                assert(url@ =~= item_media_url(dv[i as int]));
            }
            urls.push(url);
            proof {
                assert(urls.deep_view() =~= urls_before.push(item_media_url(dv[i as int])));
            }
        } else {
            proof {
                assert(urls.deep_view() =~= gallery_download_urls(dv.take(i + 1)));
            }
        }
        i = i + 1;
    }
    proof {
        assert(dv.take(media_metadata@.len() as int) =~= dv);
    }
    urls
}

/// Law: the classified gallery items, their filenames and their download
/// URLs line up — one of each per eligible entry, in the same order; each
/// filename is `<id>.<extension>` of its item, and each download URL is the
/// media host followed by that filename.
pub proof fn lemma_gallery_outputs_align(entries: Seq<MediaEntryView>)
    ensures
        gallery_filenames(entries).len() == gallery_items(entries).len(),
        gallery_download_urls(entries).len() == gallery_items(entries).len(),
        forall|i: int|
            0 <= i < gallery_items(entries).len() ==> gallery_filenames(entries)[i]
                == #[trigger] gallery_items(entries)[i].id + "."@ + gallery_items(
                entries,
            )[i].extension,
        forall|i: int|
            0 <= i < gallery_items(entries).len() ==> #[trigger] gallery_download_urls(entries)[i]
                == "https://i.redd.it/"@ + gallery_filenames(entries)[i],
    decreases entries.len(),
{
    if entries.len() > 0 {
        lemma_gallery_outputs_align(entries.drop_last());
        if mime_is_image(entries.last().mime) {
            let e = entries.last();
            assert(item_media_url(e) =~= "https://i.redd.it/"@ + item_filename(e));
        }
    }
}

/// Law: a post with the media-domain flag not set and no media-metadata map
/// is classified as carrying no media — whatever its gallery flag says — and
/// a document rendered with no media filenames holds no reference lines.
pub proof fn lemma_no_media(p: PostRecordView)
    requires
        p.is_reddit_media_domain != Some(true),
        p.media_metadata is None,
    ensures
        classified_media(p) == MediaDescriptorView::NoMedia,
        media_tags_text(None) == Seq::<char>::empty(),
{
}

/// The filename pattern at the end of a single-image media URL: a slash,
/// thirteen word characters, a dot at position `d`, and a nonempty
/// word-character extension reaching the end.
pub open spec fn is_media_dot(url: Seq<char>, d: int) -> bool {
    &&& 14 <= d
    &&& d + 1 < url.len()
    &&& url[d] == '.'
    &&& url[d - 14] == '/'
    &&& forall|i: int| d - 13 <= i < d ==> is_word_char(#[trigger] url[i])
    &&& forall|i: int| d < i < url.len() ==> is_word_char(#[trigger] url[i])
}

/// A media URL ends with a derivable filename.
pub open spec fn has_media_filename(url: Seq<char>) -> bool {
    exists|d: int| is_media_dot(url, d)
}

/// The dot position of the filename pattern is unique: everything after it
/// is word characters, so it is the last dot of the URL.
pub proof fn lemma_media_dot_unique(url: Seq<char>, d1: int, d2: int)
    requires
        is_media_dot(url, d1),
        is_media_dot(url, d2),
    ensures
        d1 == d2,
{
    if d1 < d2 {
        assert(is_word_char(url[d2]));
    } else if d2 < d1 {
        assert(is_word_char(url[d1]));
    }
}

/// A media-dot position is the last dot of the URL: everything after it is
/// word characters.
proof fn lemma_media_dot_is_last_dot(url: Seq<char>, d: int, k: int)
    requires
        is_media_dot(url, d),
        0 <= k < url.len(),
        url[k] == '.',
        forall|j: int| k < j < url.len() ==> url[j] != '.',
    ensures
        d == k,
{
    if d < k {
        assert(is_word_char(url[k]));
    } else if d > k {
        assert(url[d] != '.');
    }
}

fn word_char(c: char) -> (b: bool)
    ensures
        b == is_word_char(c),
{
    id_char(c) || c == '_'
}

/// Checks that every character of `s` in `[from, to)` is a word character.
fn all_word_chars(s: &str, from: usize, to: usize) -> (b: bool)
    requires
        from <= to <= s@.len(),
    ensures
        b == (forall|i: int| from <= i < to ==> is_word_char(#[trigger] s@[i])),
{
    let mut i: usize = from;
    while i < to
        invariant
            from <= i <= to,
            to <= s@.len(),
            forall|j: int| from <= j < i ==> is_word_char(#[trigger] s@[j]),
        decreases to - i,
    {
        if !word_char(s.get_char(i)) {
            return false;
        }
        i = i + 1;
    }
    true
}

/// Decides whether a single-image URL ends with a derivable filename, so the
/// extraction's precondition can be tested before calling it.
pub fn url_has_media_filename(url: &str) -> (b: bool)
    ensures
        b == has_media_filename(url@),
{
    let n = url.unicode_len();
    let mut i: usize = n;
    loop
        invariant
            0 <= i <= n,
            n == url@.len(),
            forall|j: int| i <= j < n ==> url@[j] != '.',
        decreases i,
    {
        if i == 0 {
            proof {
                assert forall|d: int| !is_media_dot(url@, d) by {
                    if is_media_dot(url@, d) {
                        assert(url@[d] == '.');
                    }
                }
            }
            return false;
        }
        if url.get_char(i - 1) == '.' {
            let d = i - 1;
            let ok = d >= 14 && d + 1 < n && url.get_char(d - 14) == '/' && all_word_chars(
                url,
                d - 13,
                d,
            ) && all_word_chars(url, d + 1, n);
            proof {
                if ok {
                    assert(is_media_dot(url@, d as int));
                } else {
                    assert forall|d2: int| !is_media_dot(url@, d2) by {
                        if is_media_dot(url@, d2) {
                            lemma_media_dot_is_last_dot(url@, d2, d as int);
                        }
                    }
                }
            }
            return ok;
        }
        i = i - 1;
    }
}

/// Extracts the filename segment — thirteen word characters, a dot and the
/// extension — from the end of a single-image media URL.
pub fn get_media_filename_from_url(url: &str) -> (r: String)
    requires
        has_media_filename(url@),
    ensures
        forall|d: int| is_media_dot(url@, d) ==> r@ == url@.subrange(d - 13, url@.len() as int),
{
    let ghost d0 = choose|d: int| is_media_dot(url@, d);
    let n = url.unicode_len();
    let mut i: usize = n;
    loop
        invariant
            0 <= i <= n,
            n == url@.len(),
            is_media_dot(url@, d0),
            d0 < i,
        decreases i,
    {
        let c = url.get_char(i - 1);
        if c == '.' {
            proof {
                if d0 < i - 1 {
                    assert(is_word_char(url@[i - 1]));
                }
                assert(d0 == i - 1);
            }
            let filename = url.substring_char(i - 14, n);
            proof {
                assert forall|d: int| is_media_dot(url@, d) implies filename@ == url@.subrange(
                    d - 13,
                    url@.len() as int,
                ) by {
                    lemma_media_dot_unique(url@, d, d0);
                }
            }
            return filename.to_owned();
        }
        proof {
            if d0 == i - 1 {
                assert(url@[d0] == '.');
            }
        }
        i = i - 1;
    }
}

} // verus!
