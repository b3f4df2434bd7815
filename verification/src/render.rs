//! Document rendering: the Markdown document with its front-matter block and
//! media reference lines, the UTC date formatting, and the front-matter
//! parser that recovers the rendered fields.

use vstd::prelude::*;
use crate::record::PostRecord;
use crate::scan::{find_line_end, lemma_line_end_found, line_end, matches_lit_at};

verus! {

/// The text that the date formatter produces for a whole-second timestamp:
/// `YYYY-MM-DD HH:MM:SS` in UTC. The calendar computation is chrono's; what
/// is stated of it here is only what its fixed format plainly gives.
pub uninterp spec fn utc_datetime_text(secs: int) -> Seq<char>;

/// The characters a formatted date can contain.
pub open spec fn is_datetime_char(c: char) -> bool {
    ('0' <= c && c <= '9') || c == '-' || c == ':' || c == ' '
}

/// The last timestamp the renderer accepts, 9999-12-31T23:59:59Z: the date
/// format has a four-digit year.
pub const MAX_RENDER_TIMESTAMP: i64 = 253_402_300_799;

/// Relies on chrono: `DateTime::<Utc>::from_timestamp` followed by
/// `format("%Y-%m-%d %H:%M:%S")` renders a whole-second UTC timestamp. The
/// result depends on the timestamp alone; for a nonnegative timestamp up to
/// year 9999 it is nineteen characters, each a digit, dash, colon or space.
#[verifier::external_body]
fn format_epoch_utc(secs: i64) -> (r: String)
    requires
        0 <= secs <= MAX_RENDER_TIMESTAMP,
    ensures
        r@ == utc_datetime_text(secs as int),
        r@.len() == 19,
        forall|i: int| 0 <= i < r@.len() ==> is_datetime_char(#[trigger] r@[i]),
{
    let datetime = chrono::DateTime::<chrono::Utc>::from_timestamp(secs, 0).unwrap();
    datetime.format("%Y-%m-%d %H:%M:%S").to_string()
}

/// Renders a whole-second UTC timestamp as `YYYY-MM-DD HH:MM:SS`.
pub fn timestamp_to_readable(timestamp: i64) -> (r: String)
    requires
        0 <= timestamp <= MAX_RENDER_TIMESTAMP,
    ensures
        r@ == utc_datetime_text(timestamp as int),
        r@.len() == 19,
        forall|i: int| 0 <= i < r@.len() ==> is_datetime_char(#[trigger] r@[i]),
{
    format_epoch_utc(timestamp)
}

/// One Markdown image-reference line: alt text and link target are both the
/// item's derived filename.
pub open spec fn media_tag(id: Seq<char>) -> Seq<char> {
    "!["@ + id + "]("@ + id + ")"@
}

/// The image-reference lines joined by newlines.
pub open spec fn media_tags_joined(ids: Seq<Seq<char>>) -> Seq<char>
    decreases ids.len(),
{
    if ids.len() == 0 {
        Seq::empty()
    } else if ids.len() == 1 {
        media_tag(ids[0])
    } else {
        media_tags_joined(ids.drop_last()) + "\n"@ + media_tag(ids.last())
    }
}

/// The media reference text of a document: `None` and an empty list both
/// render as empty text.
pub open spec fn media_tags_text(ids: Option<Seq<Seq<char>>>) -> Seq<char> {
    match ids {
        Some(list) => media_tags_joined(list),
        None => Seq::empty(),
    }
}

/// Renders the Markdown image-reference lines for the given media filenames.
pub fn format_media_tags(media_ids: Option<Vec<String>>) -> (r: String)
    ensures
        r@ == media_tags_text(media_ids.deep_view()),
{
    match media_ids {
        None => String::new(),
        Some(ids) => {
            let ghost dv = ids.deep_view();
            let mut out = String::new();
            let mut i: usize = 0;
            while i < ids.len()
                invariant
                    0 <= i <= ids@.len(),
                    dv == ids.deep_view(),
                    dv.len() == ids@.len(),
                    out@ == media_tags_joined(dv.take(i as int)),
                decreases ids@.len() - i,
            {
                if i > 0 {
                    out.append("\n");
                }
                out.append("![");
                out.append(ids[i].as_str());
                out.append("](");
                out.append(ids[i].as_str());
                out.append(")");
                proof {
                    assert(dv.take(i + 1).drop_last() =~= dv.take(i as int));
                    assert(dv.take(i + 1).last() == dv[i as int]);
                    assert(dv[i as int] == ids@[i as int]@);
                    if i == 0 {
                        assert(out@ =~= media_tag(dv.take(1)[0]));
                    } else {
                        assert(out@ =~= media_tags_joined(dv.take(i as int)) + "\n"@ + media_tag(
                            dv.take(i + 1).last(),
                        ));
                    }
                }
                i = i + 1;
            }
            proof {
                assert(dv.take(ids@.len() as int) =~= dv);
            }
            out
        },
    }
}

/// The rendered document: the front-matter block (author, subreddit, title,
/// date), the body text, and the media reference lines.
pub open spec fn rendered_doc(
    author: Seq<char>,
    subreddit: Seq<char>,
    title: Seq<char>,
    date: Seq<char>,
    body: Seq<char>,
    tags: Seq<char>,
) -> Seq<char> {
    "---\nAuthor: "@ + author + "\nSubreddit: "@ + subreddit + "\nTitle: "@ + title + "\nDate: "@
        + date + "\n---\n"@ + body + "\n"@ + tags
}

/// Renders the final Markdown document for a post and its media filenames.
/// The front-matter date is the post's creation timestamp formatted as UTC.
pub fn format_md_file(content: &PostRecord, media_ids: Option<Vec<String>>) -> (r: String)
    requires
        0 <= content.created_utc <= MAX_RENDER_TIMESTAMP,
    ensures
        r@ == rendered_doc(
            content.author@,
            content.subreddit@,
            content.title@,
            utc_datetime_text(content.created_utc as int),
            content.selftext@,
            media_tags_text(media_ids.deep_view()),
        ),
{
    let date = timestamp_to_readable(content.created_utc);
    let tags = format_media_tags(media_ids);
    let mut out = String::from_str("---\nAuthor: ");
    out.append(content.author.as_str());
    out.append("\nSubreddit: ");
    out.append(content.subreddit.as_str());
    out.append("\nTitle: ");
    out.append(content.title.as_str());
    out.append("\nDate: ");
    out.append(date.as_str());
    out.append("\n---\n");
    out.append(content.selftext.as_str());
    out.append("\n");
    out.append(tags.as_str());
    proof {
        assert(out@ =~= rendered_doc(
            content.author@,
            content.subreddit@,
            content.title@,
            utc_datetime_text(content.created_utc as int),
            content.selftext@,
            media_tags_text(media_ids.deep_view()),
        ));
    }
    out
}

/// The front-matter fields recovered from a rendered document.
pub struct FrontMatter {
    pub author: String,
    pub subreddit: String,
    pub title: String,
    pub date: String,
}

pub ghost struct FrontMatterView {
    pub author: Seq<char>,
    pub subreddit: Seq<char>,
    pub title: Seq<char>,
    pub date: Seq<char>,
}

impl View for FrontMatter {
    type V = FrontMatterView;

    open spec fn view(&self) -> FrontMatterView {
        FrontMatterView {
            author: self.author@,
            subreddit: self.subreddit@,
            title: self.title@,
            date: self.date@,
        }
    }
}

/// The front-matter block parsed back out of a document: the opening
/// delimiter line, the four labelled lines in fixed order, and the closing
/// delimiter line. Each field runs from its label to the end of its line.
pub open spec fn parsed_front_matter(doc: Seq<char>) -> Option<FrontMatterView> {
    if doc.len() < 12 || doc.subrange(0, 12) != "---\nAuthor: "@ {
        None
    } else {
        let e1 = line_end(doc, 12);
        if e1 + 12 > doc.len() || doc.subrange(e1, e1 + 12) != "\nSubreddit: "@ {
            None
        } else {
            let e2 = line_end(doc, e1 + 12);
            if e2 + 8 > doc.len() || doc.subrange(e2, e2 + 8) != "\nTitle: "@ {
                None
            } else {
                let e3 = line_end(doc, e2 + 8);
                if e3 + 7 > doc.len() || doc.subrange(e3, e3 + 7) != "\nDate: "@ {
                    None
                } else {
                    let e4 = line_end(doc, e3 + 7);
                    if e4 + 5 > doc.len() || doc.subrange(e4, e4 + 5) != "\n---\n"@ {
                        None
                    } else {
                        Some(
                            FrontMatterView {
                                author: doc.subrange(12, e1),
                                subreddit: doc.subrange(e1 + 12, e2),
                                title: doc.subrange(e2 + 8, e3),
                                date: doc.subrange(e3 + 7, e4),
                            },
                        )
                    }
                }
            }
        }
    }
}

/// Parses the front-matter block of a rendered document back into its four
/// fields.
pub fn parse_front_matter(doc: &str) -> (r: Option<FrontMatter>)
    ensures
        match r {
            Some(fm) => parsed_front_matter(doc@) == Some(fm@),
            None => parsed_front_matter(doc@) is None,
        },
{
    proof {
        reveal_strlit("---\nAuthor: ");
        reveal_strlit("\nSubreddit: ");
        reveal_strlit("\nTitle: ");
        reveal_strlit("\nDate: ");
        reveal_strlit("\n---\n");
    }
    let n = doc.unicode_len();
    if n < 12 || !matches_lit_at(doc, 0, "---\nAuthor: ") {
        return None;
    }
    let e1 = find_line_end(doc, 12);
    if n - e1 < 12 || !matches_lit_at(doc, e1, "\nSubreddit: ") {
        return None;
    }
    let e2 = find_line_end(doc, e1 + 12);
    if n - e2 < 8 || !matches_lit_at(doc, e2, "\nTitle: ") {
        return None;
    }
    let e3 = find_line_end(doc, e2 + 8);
    if n - e3 < 7 || !matches_lit_at(doc, e3, "\nDate: ") {
        return None;
    }
    let e4 = find_line_end(doc, e3 + 7);
    if n - e4 < 5 || !matches_lit_at(doc, e4, "\n---\n") {
        return None;
    }
    let author = doc.substring_char(12, e1).to_owned();
    let subreddit = doc.substring_char(e1 + 12, e2).to_owned();
    let title = doc.substring_char(e2 + 8, e3).to_owned();
    let date = doc.substring_char(e3 + 7, e4).to_owned();
    Some(FrontMatter { author, subreddit, title, date })
}

/// Law: parsing the front-matter block of a rendered document recovers the
/// author, subreddit, title and date exactly, whenever none of those four
/// fields contains a newline (a field holding a newline would end its
/// front-matter line early).
pub proof fn lemma_render_parse_round_trip(
    author: Seq<char>,
    subreddit: Seq<char>,
    title: Seq<char>,
    date: Seq<char>,
    body: Seq<char>,
    tags: Seq<char>,
)
    requires
        forall|i: int| 0 <= i < author.len() ==> author[i] != '\n',
        forall|i: int| 0 <= i < subreddit.len() ==> subreddit[i] != '\n',
        forall|i: int| 0 <= i < title.len() ==> title[i] != '\n',
        forall|i: int| 0 <= i < date.len() ==> date[i] != '\n',
    ensures
        parsed_front_matter(rendered_doc(author, subreddit, title, date, body, tags)) == Some(
            FrontMatterView { author, subreddit, title, date },
        ),
{
    reveal_strlit("---\nAuthor: ");
    reveal_strlit("\nSubreddit: ");
    reveal_strlit("\nTitle: ");
    reveal_strlit("\nDate: ");
    reveal_strlit("\n---\n");
    let doc = rendered_doc(author, subreddit, title, date, body, tags);
    let a = author.len() as int;
    let s = subreddit.len() as int;
    let t = title.len() as int;
    let d = date.len() as int;
    let p1 = 12 + a;
    let p2 = p1 + 12 + s;
    let p3 = p2 + 8 + t;
    let p4 = p3 + 7 + d;
    assert(doc.subrange(0, 12) =~= "---\nAuthor: "@);
    assert(doc[p1] == '\n');
    assert forall|j: int| 12 <= j < p1 implies doc[j] != '\n' by {
        assert(doc[j] == author[j - 12]);
    }
    lemma_line_end_found(doc, 12, p1);
    assert(doc.subrange(p1, p1 + 12) =~= "\nSubreddit: "@);
    assert(doc[p2] == '\n');
    assert forall|j: int| p1 + 12 <= j < p2 implies doc[j] != '\n' by {
        assert(doc[j] == subreddit[j - (p1 + 12)]);
    }
    lemma_line_end_found(doc, p1 + 12, p2);
    assert(doc.subrange(p2, p2 + 8) =~= "\nTitle: "@);
    assert(doc[p3] == '\n');
    assert forall|j: int| p2 + 8 <= j < p3 implies doc[j] != '\n' by {
        assert(doc[j] == title[j - (p2 + 8)]);
    }
    lemma_line_end_found(doc, p2 + 8, p3);
    assert(doc.subrange(p3, p3 + 7) =~= "\nDate: "@);
    assert(doc[p4] == '\n');
    assert forall|j: int| p3 + 7 <= j < p4 implies doc[j] != '\n' by {
        assert(doc[j] == date[j - (p3 + 7)]);
    }
    lemma_line_end_found(doc, p3 + 7, p4);
    assert(doc.subrange(p4, p4 + 5) =~= "\n---\n"@);
    assert(doc.subrange(12, p1) =~= author);
    assert(doc.subrange(p1 + 12, p2) =~= subreddit);
    assert(doc.subrange(p2 + 8, p3) =~= title);
    assert(doc.subrange(p3 + 7, p4) =~= date);
}

} // verus!
