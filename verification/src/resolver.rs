//! Identifier resolution: normalizes loosely-formatted user input (a bare
//! six-character post identifier, a shortened post URL, or a full post URL
//! with a comments path segment) into the canonical post identifier, and
//! builds the structured-data fetch URL from it.

use vstd::prelude::*;
use crate::scan::matches_lit_at;

verus! {

/// A post identifier consists of ASCII letters and digits only.
pub open spec fn is_id_char(c: char) -> bool {
    ('a' <= c && c <= 'z') || ('A' <= c && c <= 'Z') || ('0' <= c && c <= '9')
}

/// A canonical post identifier: exactly six alphanumeric characters.
pub open spec fn is_post_id(s: Seq<char>) -> bool {
    s.len() == 6 && (forall|i: int| 0 <= i < s.len() ==> is_id_char(#[trigger] s[i]))
}

/// The input with one optional trailing slash removed; URL shapes accept a
/// single trailing slash.
pub open spec fn strip_trailing_slash(s: Seq<char>) -> Seq<char> {
    if s.len() > 0 && s[s.len() - 1] == '/' {
        s.drop_last()
    } else {
        s
    }
}

/// `s` begins with `https://www.<site>.com/` where `<site>` is nonempty and
/// contains no slash; `k` is the position just past that prefix (the start of
/// the path).
pub open spec fn host_ends_at(s: Seq<char>, k: int) -> bool {
    &&& 18 <= k <= s.len()
    &&& s.subrange(0, 12) == "https://www."@
    &&& s.subrange(k - 5, k - 1) == ".com"@
    &&& s[k - 1] == '/'
    &&& forall|i: int| 12 <= i < k - 5 ==> s[i] != '/'
}

/// Shortened URL shape: `https://www.<site>.com/<id>` (after stripping an
/// optional trailing slash), where the path is exactly the identifier.
pub open spec fn is_short_url(u: Seq<char>) -> bool {
    &&& u.len() >= 24
    &&& host_ends_at(u, u.len() - 6)
    &&& is_post_id(u.subrange(u.len() - 6, u.len() as int))
}

/// Full URL shape: `https://www.<site>.com/<anything>/comments/<id>` (after
/// stripping an optional trailing slash).
pub open spec fn is_full_url(u: Seq<char>) -> bool {
    &&& u.len() >= 34
    &&& (exists|k: int| host_ends_at(u, k) && k <= u.len() - 16)
    &&& u.subrange(u.len() - 16, u.len() - 6) == "/comments/"@
    &&& is_post_id(u.subrange(u.len() - 6, u.len() as int))
}

/// The canonical post identifier extracted from raw user input, trying the
/// three accepted shapes in priority order: bare identifier, shortened URL,
/// full URL. Inputs matching none of them are rejected.
pub open spec fn extracted_post_id(input: Seq<char>) -> Option<Seq<char>> {
    let u = strip_trailing_slash(input);
    if is_post_id(input) {
        Some(input)
    } else if is_short_url(u) {
        Some(u.subrange(u.len() - 6, u.len() as int))
    } else if is_full_url(u) {
        Some(u.subrange(u.len() - 6, u.len() as int))
    } else {
        None
    }
}

pub(crate) fn id_char(c: char) -> (b: bool)
    ensures
        b == is_id_char(c),
{
    ('a' <= c && c <= 'z') || ('A' <= c && c <= 'Z') || ('0' <= c && c <= '9')
}

/// Checks that the six characters of `s` starting at `start` form a post
/// identifier.
fn check_id_at(s: &str, start: usize) -> (b: bool)
    requires
        start + 6 <= s@.len(),
    ensures
        b == is_post_id(s@.subrange(start as int, start as int + 6)),
{
    let ghost sub = s@.subrange(start as int, start as int + 6);
    let n = s.unicode_len();
    let mut i: usize = 0;
    while i < 6
        invariant
            0 <= i <= 6,
            n == s@.len(),
            start + 6 <= n,
            sub == s@.subrange(start as int, start as int + 6),
            forall|j: int| 0 <= j < i ==> is_id_char(#[trigger] sub[j]),
        decreases 6 - i,
    {
        let c = s.get_char(start + i);
        assert(sub[i as int] == s@[start + i]);
        if !id_char(c) {
            return false;
        }
        i = i + 1;
    }
    true
}

/// Any valid host prefix ends just past the first slash at or after
/// position 12.
proof fn lemma_host_slash(u: Seq<char>, q: int, k: int)
    requires
        host_ends_at(u, k),
        12 <= q < u.len(),
        u[q] == '/',
        forall|j: int| 12 <= j < q ==> u[j] != '/',
    ensures
        k == q + 1,
{
    reveal_strlit(".com");
    if k - 1 < q {
        assert(u[k - 1] == '/');
    } else if k - 1 > q {
        if q < k - 5 {
            assert(u[q] != '/');
        } else {
            assert(u[q] == u.subrange(k - 5, k - 1)[q - (k - 5)]);
            assert(u[q] != '/');
        }
    }
}

/// Finds the unique end of a `https://www.<site>.com/` prefix of the first
/// `u_len` characters of `s`, if one exists.
fn find_host_end(s: &str, u_len: usize) -> (r: Option<usize>)
    requires
        u_len <= s@.len(),
    ensures
        ({
            let u = s@.subrange(0, u_len as int);
            match r {
                Some(k) => host_ends_at(u, k as int) && (forall|k2: int|
                    host_ends_at(u, k2) ==> k2 == k),
                None => forall|k2: int| !host_ends_at(u, k2),
            }
        }),
{
    let ghost u = s@.subrange(0, u_len as int);
    assert(u.len() == u_len);
    if u_len < 18 {
        return None;
    }
    proof {
        reveal_strlit("https://www.");
        reveal_strlit(".com");
    }
    if !matches_lit_at(s, 0, "https://www.") {
        proof {
            assert forall|k2: int| !host_ends_at(u, k2) by {
                if host_ends_at(u, k2) {
                    assert(u.subrange(0, 12) =~= s@.subrange(0, 12));
                }
            }
        }
        return None;
    }
    let mut q: usize = 12;
    loop
        invariant
            12 <= q <= u_len,
            u_len <= s@.len(),
            u_len >= 18,
            u == s@.subrange(0, u_len as int),
            s@.subrange(0, 12) == "https://www."@,
            forall|j: int| 12 <= j < q ==> s@[j] != '/',
        decreases u_len - q,
    {
        proof {
            reveal_strlit("https://www.");
            reveal_strlit(".com");
        }
        if q == u_len {
            proof {
                assert forall|k2: int| !host_ends_at(u, k2) by {
                    if host_ends_at(u, k2) {
                        assert(u[k2 - 1] == s@[k2 - 1]);
                    }
                }
            }
            return None;
        }
        if s.get_char(q) == '/' {
            proof {
                assert(u[q as int] == s@[q as int]);
                assert forall|j: int| 12 <= j < q implies u[j] != '/' by {
                    assert(u[j] == s@[j]);
                }
            }
            if q < 17 {
                proof {
                    assert forall|k2: int| !host_ends_at(u, k2) by {
                        if host_ends_at(u, k2) {
                            lemma_host_slash(u, q as int, k2);
                        }
                    }
                }
                return None;
            }
            if !matches_lit_at(s, q - 4, ".com") {
                proof {
                    assert forall|k2: int| !host_ends_at(u, k2) by {
                        if host_ends_at(u, k2) {
                            lemma_host_slash(u, q as int, k2);
                            assert(u.subrange(k2 - 5, k2 - 1) =~= s@.subrange(
                                q - 4 as int,
                                q as int,
                            ));
                        }
                    }
                }
                return None;
            }
            proof {
                assert(u.subrange(0, 12) =~= s@.subrange(0, 12));
                assert(u.subrange(q - 4 as int, q as int) =~= s@.subrange(
                    q - 4 as int,
                    q as int,
                ));
                assert(u[q as int] == s@[q as int]);
                assert(host_ends_at(u, q + 1));
                assert forall|k2: int| host_ends_at(u, k2) implies k2 == q + 1 by {
                    lemma_host_slash(u, q as int, k2);
                }
            }
            return Some(q + 1);
        }
        q = q + 1;
    }
}

/// Resolves raw user input to the canonical six-character post identifier.
/// Accepts, in priority order: a bare identifier, a shortened post URL, and
/// a full post URL with a comments path segment; anything else is rejected.
pub fn extract_post_id(input: &str) -> (r: Option<String>)
    ensures
        match r {
            Some(id) => extracted_post_id(input@) == Some(id@),
            None => extracted_post_id(input@) is None,
        },
{
    let n = input.unicode_len();
    if n == 6 {
        if check_id_at(input, 0) {
            proof {
                assert(input@.subrange(0, 6) =~= input@);
            }
            return Some(input.to_owned());
        }
        proof {
            assert(input@.subrange(0, 6) =~= input@);
            assert(strip_trailing_slash(input@).len() <= 6);
        }
        return None;
    }
    let u_len: usize = if n > 0 && input.get_char(n - 1) == '/' {
        n - 1
    } else {
        n
    };
    let ghost u = strip_trailing_slash(input@);
    proof {
        assert(u =~= input@.subrange(0, u_len as int));
    }
    if u_len < 24 {
        return None;
    }
    let host_end = find_host_end(input, u_len);
    match host_end {
        None => {
            assert(!is_short_url(u));
            assert(!is_full_url(u));
            None
        },
        Some(k) => {
            if !check_id_at(input, u_len - 6) {
                proof {
                    assert(u.subrange(u_len - 6 as int, u_len as int) =~= input@.subrange(
                        u_len - 6 as int,
                        u_len as int,
                    ));
                }
                return None;
            }
            proof {
                assert(u.subrange(u_len - 6 as int, u_len as int) =~= input@.subrange(
                    u_len - 6 as int,
                    u_len as int,
                ));
            }
            if k == u_len - 6 {
                assert(is_short_url(u));
                let id = input.substring_char(u_len - 6, u_len);
                return Some(id.to_owned());
            }
            assert(!is_short_url(u));
            proof {
                reveal_strlit("/comments/");
            }
            if k <= u_len - 16 && matches_lit_at(input, u_len - 16, "/comments/") {
                proof {
                    assert(u.subrange(u_len - 16 as int, u_len - 6 as int) =~= input@.subrange(
                        u_len - 16 as int,
                        u_len - 6 as int,
                    ));
                    assert(is_full_url(u));
                }
                let id = input.substring_char(u_len - 6, u_len);
                return Some(id.to_owned());
            }
            proof {
                if is_full_url(u) {
                    let k2 = choose|k2: int| host_ends_at(u, k2) && k2 <= u.len() - 16;
                    assert(k2 == k);
                    assert(u.subrange(u_len - 16 as int, u_len - 6 as int) =~= input@.subrange(
                        u_len - 16 as int,
                        u_len - 6 as int,
                    ));
                }
            }
            None
        },
    }
}

/// Law: a valid bare six-character identifier resolves to itself, unchanged.
pub proof fn lemma_resolve_bare_id(s: Seq<char>)
    requires
        is_post_id(s),
    ensures
        extracted_post_id(s) == Some(s),
{
}

/// Law: a shortened post URL wrapping a valid identifier resolves to exactly
/// that identifier, with or without the optional trailing slash.
pub proof fn lemma_resolve_short_url(site: Seq<char>, id: Seq<char>, trailing_slash: bool)
    requires
        site.len() >= 1,
        forall|i: int| 0 <= i < site.len() ==> site[i] != '/',
        is_post_id(id),
    ensures
        ({
            let url = "https://www."@ + site + ".com/"@ + id + (if trailing_slash {
                "/"@
            } else {
                Seq::<char>::empty()
            });
            extracted_post_id(url) == Some(id)
        }),
{
    reveal_strlit("https://www.");
    reveal_strlit(".com/");
    reveal_strlit(".com");
    reveal_strlit("/");
    let tail: Seq<char> = if trailing_slash {
        "/"@
    } else {
        Seq::<char>::empty()
    };
    let url = "https://www."@ + site + ".com/"@ + id + tail;
    let base = "https://www."@ + site + ".com/"@ + id;
    assert(base.len() == 23 + site.len());
    let u = strip_trailing_slash(url);
    if trailing_slash {
        assert(url[url.len() - 1] == '/');
        assert(u =~= base);
    } else {
        assert(url =~= base);
        assert(url[url.len() - 1] == id[5]);
        assert(u == url);
        assert(u =~= base);
    }
    let k = u.len() - 6;
    assert(u.subrange(0, 12) =~= "https://www."@);
    assert(u.subrange(k - 5, k - 1) =~= ".com"@);
    assert(u[k - 1] == '/');
    assert forall|i: int| 12 <= i < k - 5 implies u[i] != '/' by {
        assert(u[i] == site[i - 12]);
    }
    assert(host_ends_at(u, k));
    assert(u.subrange(k, u.len() as int) =~= id);
    assert(is_short_url(u));
    assert(!is_post_id(url));
}

/// Law: a full post URL with a comments path segment wrapping a valid
/// identifier resolves to exactly that identifier, whatever stands between
/// the host and the comments segment, with or without the trailing slash.
pub proof fn lemma_resolve_full_url(
    site: Seq<char>,
    middle: Seq<char>,
    id: Seq<char>,
    trailing_slash: bool,
)
    requires
        site.len() >= 1,
        forall|i: int| 0 <= i < site.len() ==> site[i] != '/',
        is_post_id(id),
    ensures
        ({
            let url = "https://www."@ + site + ".com/"@ + middle + "/comments/"@ + id + (
            if trailing_slash {
                "/"@
            } else {
                Seq::<char>::empty()
            });
            extracted_post_id(url) == Some(id)
        }),
{
    reveal_strlit("https://www.");
    reveal_strlit(".com/");
    reveal_strlit(".com");
    reveal_strlit("/comments/");
    reveal_strlit("/");
    let tail: Seq<char> = if trailing_slash {
        "/"@
    } else {
        Seq::<char>::empty()
    };
    let url = "https://www."@ + site + ".com/"@ + middle + "/comments/"@ + id + tail;
    let base = "https://www."@ + site + ".com/"@ + middle + "/comments/"@ + id;
    assert(base.len() == 33 + site.len() + middle.len());
    let u = strip_trailing_slash(url);
    if trailing_slash {
        assert(url[url.len() - 1] == '/');
        assert(u =~= base);
    } else {
        assert(url =~= base);
        assert(url[url.len() - 1] == id[5]);
        assert(u == url);
        assert(u =~= base);
    }
    let k = 17 + site.len() as int;
    assert(u.subrange(0, 12) =~= "https://www."@);
    assert(u.subrange(k - 5, k - 1) =~= ".com"@);
    assert(u[k - 1] == '/');
    assert forall|i: int| 12 <= i < k - 5 implies u[i] != '/' by {
        assert(u[i] == site[i - 12]);
    }
    assert(host_ends_at(u, k));
    assert(k <= u.len() - 16);
    assert(u.subrange(u.len() - 16, u.len() - 6) =~= "/comments/"@);
    assert(u.subrange(u.len() - 6, u.len() as int) =~= id);
    assert(is_full_url(u));
    assert(!is_post_id(url));
    // the shortened shape cannot match: its site region would hold the slash
    // that closes the real host prefix
    assert(u[k - 1] == '/' && 12 <= k - 1 < u.len() - 11);
    assert(!host_ends_at(u, u.len() - 6));
    assert(!is_short_url(u));
}

/// Law: an input matching none of the three accepted shapes is rejected.
pub proof fn lemma_resolve_rejects(s: Seq<char>)
    requires
        !is_post_id(s),
        !is_short_url(strip_trailing_slash(s)),
        !is_full_url(strip_trailing_slash(s)),
    ensures
        extracted_post_id(s) is None,
{
}

/// Builds the canonical structured-data fetch URL for a resolved post
/// identifier.
pub fn format_reddit_url(post_id: &str) -> (url: String)
    ensures
        url@ == "https://www.reddit.com/"@ + post_id@ + "/.json"@,
{
    let mut url = String::from_str("https://www.reddit.com/");
    url.append(post_id);
    url.append("/.json");
    url
}

} // verus!
