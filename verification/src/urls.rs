//! URL-based filtering of library items.
//!
//! A target URL names either a whole artist (its subdomain) or one item
//! (its slug); matching against a library item is ASCII case-insensitive.
//! The URL itself is taken apart by the `url` crate; everything decided on
//! the parts is exact.

use vstd::prelude::*;
use crate::chars::{ends_with, ends_with_spec, subvec, to_chars, to_string};
use crate::item::{LibraryItem, LibraryItemModel};

verus! {

#[verifier::external_type_specification]
#[verifier::external_body]
pub struct ExUrl(url::Url);

/// Relies on `url::Url::parse`: parses an absolute URL.
#[verifier::external_body]
fn parse_url(input: &str) -> Option<url::Url> {
    url::Url::parse(input).ok()
}

/// Relies on `url::Url::host_str`: the host part, if the URL has one.
#[verifier::external_body]
fn url_host(u: &url::Url) -> Option<String> {
    u.host_str().map(|s| s.to_string())
}

/// Relies on `url::Url::path_segments`: whether the path splits into
/// segments at all.
#[verifier::external_body]
fn url_has_segments(u: &url::Url) -> bool {
    u.path_segments().is_some()
}

/// Relies on `url::Url::path_segments`: the segment at the index, if the
/// path splits and reaches it.
#[verifier::external_body]
fn url_path_segment(u: &url::Url, n: usize) -> Option<String> {
    u.path_segments().and_then(|mut s| s.nth(n)).map(|s| s.to_string())
}

/// A target URL taken apart: the artist subdomain, and the album or track
/// slug where the URL names one.
#[derive(Debug, Clone)]
pub struct BandcampUrl {
    pub artist: String,
    pub slug: Option<String>,
}

pub struct BandcampUrlModel {
    pub artist: Seq<char>,
    pub slug: Option<Seq<char>>,
}

impl View for BandcampUrl {
    type V = BandcampUrlModel;

    open spec fn view(&self) -> BandcampUrlModel {
        BandcampUrlModel {
            artist: self.artist@,
            slug: crate::item::opt_view(self.slug),
        }
    }
}

/// What a host and a second path segment yield: the artist is the host
/// with the platform suffix stripped; any other host is no target at all.
pub open spec fn from_parts_spec(host: Option<Seq<char>>, seg: Option<Seq<char>>) -> Option<
    BandcampUrlModel,
> {
    match host {
        None => None,
        Some(h) => {
            if ends_with_spec(h, ".bandcamp.com"@) {
                Some(
                    BandcampUrlModel {
                        artist: h.subrange(0, h.len() - ".bandcamp.com"@.len()),
                        slug: seg,
                    },
                )
            } else {
                None
            }
        },
    }
}

/// Builds the target from a URL's parts, exactly as `from_parts_spec`
/// gives it.
pub fn bandcamp_url_from_parts(host: Option<String>, seg: Option<String>) -> (r: Option<
    BandcampUrl,
>)
    ensures
        match r {
            Some(b) => from_parts_spec(crate::item::opt_view(host), crate::item::opt_view(seg))
                == Some(b@),
            None => from_parts_spec(crate::item::opt_view(host), crate::item::opt_view(seg))
                is None,
        },
{
    match host {
        None => None,
        Some(h) => {
            let hc = to_chars(h.as_str());
            let suffix = to_chars(".bandcamp.com");
            if ends_with(&hc, &suffix) {
                let artist_chars = subvec(&hc, 0, hc.len() - suffix.len());
                let artist = to_string(&artist_chars);
                Some(BandcampUrl { artist, slug: seg })
            } else {
                None
            }
        },
    }
}

impl BandcampUrl {
    /// Takes a URL string apart. Relies on the `url` crate for parsing;
    /// a URL without a host, without a splittable path, or outside the
    /// platform's domain yields nothing.
    pub fn parse(input: &str) -> (r: Option<BandcampUrl>) {
        match parse_url(input) {
            None => None,
            Some(u) => {
                if !url_has_segments(&u) {
                    return None;
                }
                let host = url_host(&u);
                let seg = url_path_segment(&u, 1);
                bandcamp_url_from_parts(host, seg)
            },
        }
    }

    /// The URL names a whole artist rather than one item.
    pub fn is_artist_url(&self) -> (r: bool)
        ensures
            r == (self@.slug is None),
    {
        self.slug.is_none()
    }
}

/// ASCII case folding of one character's code point.
pub open spec fn lower_code(c: char) -> u32 {
    if 65 <= c as u32 <= 90 {
        (c as u32 + 32) as u32
    } else {
        c as u32
    }
}

/// Equality up to ASCII case.
pub open spec fn eq_ignore_case_spec(a: Seq<char>, b: Seq<char>) -> bool {
    a.len() == b.len() && forall|i: int| 0 <= i < a.len() ==> lower_code(a[i]) == lower_code(b[i])
}

fn eq_ignore_ascii(a: &str, b: &str) -> (r: bool)
    ensures
        r == eq_ignore_case_spec(a@, b@),
{
    let av = to_chars(a);
    let bv = to_chars(b);
    if av.len() != bv.len() {
        return false;
    }
    let n = av.len();
    let mut k: usize = 0;
    while k < n
        invariant
            k <= n,
            n == av@.len() == bv@.len(),
            av@ == a@,
            bv@ == b@,
            forall|i: int| 0 <= i < k ==> lower_code(a@[i]) == lower_code(b@[i]),
        decreases n - k,
    {
        let ca: u32 = av[k] as u32;
        let cb: u32 = bv[k] as u32;
        let la: u32 = if 65 <= ca && ca <= 90 {
            ca + 32
        } else {
            ca
        };
        let lb: u32 = if 65 <= cb && cb <= 90 {
            cb + 32
        } else {
            cb
        };
        if la != lb {
            return false;
        }
        k += 1;
    }
    true
}

/// One target matches one item: an artist URL by the item's subdomain, an
/// item URL by the item's slug, both up to ASCII case.
pub open spec fn url_matches_spec(item: LibraryItemModel, u: BandcampUrlModel) -> bool {
    match u.slug {
        None => match item.artist_subdomain {
            Some(s) => eq_ignore_case_spec(s, u.artist),
            None => false,
        },
        Some(uslug) => match item.slug {
            Some(s) => eq_ignore_case_spec(s, uslug),
            None => false,
        },
    }
}

pub open spec fn matches_any_spec(item: LibraryItemModel, urls: Seq<BandcampUrlModel>) -> bool {
    exists|i: int| 0 <= i < urls.len() && url_matches_spec(item, #[trigger] urls[i])
}

fn url_matches(item: &LibraryItem, u: &BandcampUrl) -> (r: bool)
    ensures
        r == url_matches_spec(item@, u@),
{
    match &u.slug {
        None => match &item.artist_subdomain {
            Some(s) => eq_ignore_ascii(s.as_str(), u.artist.as_str()),
            None => false,
        },
        Some(uslug) => match &item.slug {
            Some(s) => eq_ignore_ascii(s.as_str(), uslug.as_str()),
            None => false,
        },
    }
}

/// Whether any of the targets matches the item.
pub fn item_matches_urls(item: &LibraryItem, urls: &Vec<BandcampUrl>) -> (r: bool)
    ensures
        r == matches_any_spec(item@, urls@.map_values(|u: BandcampUrl| u@)),
{
    let ghost ums = urls@.map_values(|u: BandcampUrl| u@);
    let mut k: usize = 0;
    while k < urls.len()
        invariant
            k <= urls@.len(),
            ums == urls@.map_values(|u: BandcampUrl| u@),
            forall|i: int| 0 <= i < k ==> !url_matches_spec(item@, #[trigger] ums[i]),
        decreases urls@.len() - k,
    {
        if url_matches(item, &urls[k]) {
            proof {
                assert(ums[k as int] == urls@[k as int]@);
                assert(url_matches_spec(item@, ums[k as int]));
            }
            return true;
        }
        k += 1;
    }
    false
}

} // verus!
