//! Classification of URLs and article identifiers.
//!
//! The start URL must have the shape `https://<lang>.wikipedia.org/wiki/...`
//! or `https://<lang>.m.wikipedia.org/wiki/...`. An article identifier is the
//! raw `/wiki/...` token of an anchor; one holding the namespace separator
//! `:` names a special page and is never fetched.

use vstd::prelude::*;
use vstd::string::StrSliceExecFns;

verus! {

/// True when `p` is a prefix of `s`.
pub open spec fn is_prefix(p: Seq<char>, s: Seq<char>) -> bool {
    p.len() <= s.len() && forall|i: int| 0 <= i < p.len() ==> s[i] == p[i]
}

/// The identifier of the article the whole search is looking for.
pub open spec fn target_identifier() -> Seq<char> {
    "/wiki/Adolf_Hitler"@
}

/// An identifier that names a non-article page: it carries the namespace
/// separator `:` somewhere.
pub open spec fn spec_is_excluded(id: Seq<char>) -> bool {
    exists|i: int| 0 <= i < id.len() && id[i] == ':'
}

/// After the first `.` of the URL the host must read `wikipedia.org/wiki/`,
/// optionally preceded by the mobile marker `m.`.
pub open spec fn host_tail_ok(t: Seq<char>) -> bool {
    is_prefix("wikipedia.org/wiki/"@, t) || is_prefix("m.wikipedia.org/wiki/"@, t)
}

/// Scans to the first `.` of `s` and applies `host_tail_ok` to what follows
/// it; false when `s` has no `.` at all.
pub open spec fn after_first_dot_ok(s: Seq<char>) -> bool
    decreases s.len(),
{
    if s.len() == 0 {
        false
    } else if s[0] == '.' {
        host_tail_ok(s.skip(1))
    } else {
        after_first_dot_ok(s.skip(1))
    }
}

/// The shape of an accepted start URL: the `https` scheme, an ignored
/// subdomain label, then `wikipedia.org/wiki/`, with an optional mobile
/// marker `m.` in between.
pub open spec fn spec_is_wikipedia_url(s: Seq<char>) -> bool {
    is_prefix("https://"@, s) && after_first_dot_ok(s.skip(8))
}

/// The marker that separates the site base from an article identifier.
pub open spec fn wiki_marker() -> Seq<char> {
    "/wiki/"@
}

/// `p` occurs in `s` at position `i`.
pub open spec fn is_match_at(s: Seq<char>, p: Seq<char>, i: int) -> bool {
    0 <= i && i + p.len() <= s.len() && forall|j: int| 0 <= j < p.len() ==> s[i + j] == p[j]
}

/// `p` occurs somewhere in `s`.
pub open spec fn has_match(s: Seq<char>, p: Seq<char>) -> bool {
    exists|i: int| is_match_at(s, p, i)
}

/// Why a start URL was rejected.
#[derive(Debug)]
pub enum UrlError {
    /// The URL is not of the site family's shape.
    NotWikipedia,
    /// The shape was accepted but the article separator `/wiki/` could not
    /// be located.
    NoWikiSegment,
}

/// A validated start URL, split at the first `/wiki/`: the site base through
/// the domain, and the initial relative article identifier.
pub struct SiteUrl {
    pub base: String,
    pub relative: String,
}

/// Character-for-character string equality.
pub fn str_eq(a: &str, b: &str) -> (r: bool)
    ensures
        r == (a@ == b@),
{
    let an = a.unicode_len();
    let bn = b.unicode_len();
    if an != bn {
        return false;
    }
    let mut i: usize = 0;
    while i < an
        invariant
            i <= an,
            an == a@.len(),
            an == b@.len(),
            forall|j: int| 0 <= j < i ==> a@[j] == b@[j],
        decreases an - i,
    {
        if a.get_char(i) != b.get_char(i) {
            return false;
        }
        i += 1;
    }
    proof {
        assert(a@ =~= b@);
    }
    true
}

/// True when `s` starts with `p`, character for character.
pub fn str_starts_with(s: &str, p: &str) -> (r: bool)
    ensures
        r == is_prefix(p@, s@),
{
    let pn = p.unicode_len();
    let sn = s.unicode_len();
    if pn > sn {
        return false;
    }
    let mut i: usize = 0;
    while i < pn
        invariant
            i <= pn <= sn,
            pn == p@.len(),
            sn == s@.len(),
            forall|j: int| 0 <= j < i ==> s@[j] == p@[j],
        decreases pn - i,
    {
        if s.get_char(i) != p.get_char(i) {
            return false;
        }
        i += 1;
    }
    true
}

/// Does the URL point into the supported encyclopedia site family?
pub fn is_wikipedia_url(url: &str) -> (r: bool)
    ensures
        r == spec_is_wikipedia_url(url@),
{
    if !str_starts_with(url, "https://") {
        return false;
    }
    proof {
        reveal_strlit("https://");
    }
    let n = url.unicode_len();
    let mut i: usize = 8;
    while i < n
        invariant
            8 <= i <= n,
            n == url@.len(),
            is_prefix("https://"@, url@),
            after_first_dot_ok(url@.skip(8)) == after_first_dot_ok(url@.skip(i as int)),
        decreases n - i,
    {
        if url.get_char(i) == '.' {
            let rest = url.substring_char(i + 1, n);
            proof {
                assert(rest@ =~= url@.skip(i as int).skip(1));
            }
            let found = str_starts_with(rest, "wikipedia.org/wiki/") || str_starts_with(
                rest,
                "m.wikipedia.org/wiki/",
            );
            return found;
        }
        proof {
            assert(url@.skip(i as int).skip(1) =~= url@.skip(i as int + 1));
        }
        i += 1;
    }
    proof {
        assert(url@.skip(i as int).len() == 0);
    }
    false
}

/// Is this identifier the search target, exactly?
pub fn is_hitler_url(url: &str) -> (r: bool)
    ensures
        r == (url@ == target_identifier()),
{
    str_eq(url, "/wiki/Adolf_Hitler")
}

/// Does this identifier name a special (non-article) page?
pub fn is_excluded(id: &str) -> (r: bool)
    ensures
        r == spec_is_excluded(id@),
{
    let n = id.unicode_len();
    let mut i: usize = 0;
    while i < n
        invariant
            i <= n,
            n == id@.len(),
            forall|j: int| 0 <= j < i ==> id@[j] != ':',
        decreases n - i,
    {
        if id.get_char(i) == ':' {
            proof {
                assert(spec_is_excluded(id@));
            }
            return true;
        }
        i += 1;
    }
    false
}

/// True when `p` occurs in `s` at position `i`.
fn matches_at(s: &str, p: &str, i: usize) -> (r: bool)
    requires
        i as int + p@.len() <= s@.len(),
        s@.len() <= usize::MAX,
    ensures
        r == is_match_at(s@, p@, i as int),
{
    let pn = p.unicode_len();
    let mut j: usize = 0;
    while j < pn
        invariant
            j <= pn,
            pn == p@.len(),
            i as int + p@.len() <= s@.len(),
            s@.len() <= usize::MAX,
            forall|k: int| 0 <= k < j ==> s@[i as int + k] == p@[k],
        decreases pn - j,
    {
        if s.get_char(i + j) != p.get_char(j) {
            return false;
        }
        j += 1;
    }
    true
}

/// The position of the first occurrence of `p` in `s`, if any.
fn find_first(s: &str, p: &str) -> (r: Option<usize>)
    ensures
        match r {
            Some(i) => is_match_at(s@, p@, i as int) && forall|k: int|
                0 <= k < i ==> !is_match_at(s@, p@, k),
            None => !has_match(s@, p@),
        },
{
    let sn = s.unicode_len();
    let pn = p.unicode_len();
    if pn > sn {
        return None;
    }
    let mut i: usize = 0;
    while i <= sn - pn
        invariant
            i <= sn - pn + 1,
            pn <= sn,
            sn == s@.len(),
            pn == p@.len(),
            forall|k: int| 0 <= k < i ==> !is_match_at(s@, p@, k),
        decreases sn - pn + 1 - i,
    {
        if matches_at(s, p, i) {
            return Some(i);
        }
        i += 1;
    }
    proof {
        assert forall|k: int| !is_match_at(s@, p@, k) by {
            if 0 <= k < i {
            }
        }
    }
    None
}

/// Validates the operator-supplied start URL and splits it at the first
/// `/wiki/` into the site base and the initial relative article identifier.
pub fn validate_start(url: &str) -> (r: Result<SiteUrl, UrlError>)
    ensures
        match r {
            Ok(site) => {
                &&& spec_is_wikipedia_url(url@)
                &&& site.base@ + site.relative@ == url@
                &&& is_match_at(url@, wiki_marker(), site.base@.len() as int)
                &&& forall|k: int| 0 <= k < site.base@.len() ==> !is_match_at(url@, wiki_marker(), k)
                &&& is_prefix(wiki_marker(), site.relative@)
            },
            Err(UrlError::NotWikipedia) => !spec_is_wikipedia_url(url@),
            Err(UrlError::NoWikiSegment) => spec_is_wikipedia_url(url@) && !has_match(
                url@,
                wiki_marker(),
            ),
        },
{
    if !is_wikipedia_url(url) {
        return Err(UrlError::NotWikipedia);
    }
    let n = url.unicode_len();
    match find_first(url, "/wiki/") {
        None => Err(UrlError::NoWikiSegment),
        Some(pos) => {
            proof {
                reveal_strlit("/wiki/");
            }
            let base = url.substring_char(0, pos);
            let relative = url.substring_char(pos, n);
            proof {
                assert(base@ + relative@ =~= url@);
                assert forall|j: int| 0 <= j < wiki_marker().len() implies relative@[j]
                    == wiki_marker()[j] by {
                    assert(url@[pos as int + j] == wiki_marker()[j]);
                }
            }
            Ok(SiteUrl { base: String::from_str(base), relative: String::from_str(relative) })
        },
    }
}

/// Law: every URL of the well-formed shape — the `https` scheme, a subdomain
/// label holding no dot, then the `wikipedia.org/wiki/` host and separator,
/// optionally with the mobile marker `m.` before `wikipedia` — is accepted
/// by the classifier, whatever the article that follows.
pub proof fn lemma_accepts_wikipedia_form(lang: Seq<char>, article: Seq<char>)
    requires
        forall|i: int| 0 <= i < lang.len() ==> lang[i] != '.',
    ensures
        spec_is_wikipedia_url("https://"@ + lang + ".wikipedia.org/wiki/"@ + article),
        spec_is_wikipedia_url("https://"@ + lang + ".m.wikipedia.org/wiki/"@ + article),
{
    reveal_strlit("https://");
    reveal_strlit(".wikipedia.org/wiki/");
    reveal_strlit(".m.wikipedia.org/wiki/");
    reveal_strlit("wikipedia.org/wiki/");
    reveal_strlit("m.wikipedia.org/wiki/");
    let plain = "https://"@ + lang + ".wikipedia.org/wiki/"@ + article;
    let mobile = "https://"@ + lang + ".m.wikipedia.org/wiki/"@ + article;
    let plain_tail = ".wikipedia.org/wiki/"@ + article;
    let mobile_tail = ".m.wikipedia.org/wiki/"@ + article;
    assert(is_prefix("https://"@, plain));
    assert(is_prefix("https://"@, mobile));
    assert(plain.skip(8) =~= lang + plain_tail);
    assert(mobile.skip(8) =~= lang + mobile_tail);
    assert(plain_tail[0] == '.');
    assert(mobile_tail[0] == '.');
    lemma_scan_no_dot(lang, plain_tail);
    lemma_scan_no_dot(lang, mobile_tail);
    assert(plain_tail.skip(1) =~= "wikipedia.org/wiki/"@ + article);
    assert(mobile_tail.skip(1) =~= "m.wikipedia.org/wiki/"@ + article);
    assert(is_prefix("wikipedia.org/wiki/"@, plain_tail.skip(1)));
    assert(is_prefix("m.wikipedia.org/wiki/"@, mobile_tail.skip(1)));
}

/// Law: an accepted start URL always holds the `/wiki/` separator, so
/// validation of an accepted URL always finds the split and never fails for
/// want of a separator.
pub proof fn lemma_accepted_url_splits(s: Seq<char>)
    requires
        spec_is_wikipedia_url(s),
    ensures
        has_match(s, wiki_marker()),
{
    reveal_strlit("https://");
    lemma_after_dot_has_marker(s.skip(8));
    let i = choose|i: int| is_match_at(s.skip(8), wiki_marker(), i);
    assert forall|j: int| 0 <= j < wiki_marker().len() implies s[i + 8 + j] == wiki_marker()[j] by {
        assert(s.skip(8)[i + j] == wiki_marker()[j]);
    }
    assert(is_match_at(s, wiki_marker(), i + 8));
}

/// Past the first dot of an accepted URL stands the host tail, and inside
/// the host tail stands the `/wiki/` separator.
proof fn lemma_after_dot_has_marker(s: Seq<char>)
    requires
        after_first_dot_ok(s),
    ensures
        exists|i: int| is_match_at(s, wiki_marker(), i),
    decreases s.len(),
{
    reveal_strlit("/wiki/");
    reveal_strlit("wikipedia.org/wiki/");
    reveal_strlit("m.wikipedia.org/wiki/");
    let t = s.skip(1);
    if s[0] == '.' {
        if is_prefix("wikipedia.org/wiki/"@, t) {
            assert forall|j: int| 0 <= j < wiki_marker().len() implies s[14 + j]
                == wiki_marker()[j] by {
                assert(t[13 + j] == "wikipedia.org/wiki/"@[13 + j]);
            }
            assert(is_match_at(s, wiki_marker(), 14));
        } else {
            assert forall|j: int| 0 <= j < wiki_marker().len() implies s[16 + j]
                == wiki_marker()[j] by {
                assert(t[15 + j] == "m.wikipedia.org/wiki/"@[15 + j]);
            }
            assert(is_match_at(s, wiki_marker(), 16));
        }
    } else {
        lemma_after_dot_has_marker(t);
        let i = choose|i: int| is_match_at(t, wiki_marker(), i);
        assert forall|j: int| 0 <= j < wiki_marker().len() implies s[i + 1 + j]
            == wiki_marker()[j] by {
            assert(t[i + j] == wiki_marker()[j]);
        }
        assert(is_match_at(s, wiki_marker(), i + 1));
    }
}

/// Scanning for the first dot walks past a dot-free `lang` and lands on the
/// head of `tail`.
proof fn lemma_scan_no_dot(lang: Seq<char>, tail: Seq<char>)
    requires
        forall|i: int| 0 <= i < lang.len() ==> lang[i] != '.',
        tail.len() > 0,
        tail[0] == '.',
    ensures
        after_first_dot_ok(lang + tail) == host_tail_ok(tail.skip(1)),
    decreases lang.len(),
{
    if lang.len() == 0 {
        assert(lang + tail =~= tail);
        assert((lang + tail).skip(1) =~= tail.skip(1));
    } else {
        let s = lang + tail;
        assert(s[0] == lang[0]);
        assert(s.skip(1) =~= lang.skip(1) + tail);
        lemma_scan_no_dot(lang.skip(1), tail);
    }
}

} // verus!
