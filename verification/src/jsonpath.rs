//! JSON-tree lookups and the combined page extractors.
//!
//! For pages that carry a JSON blob, the final URL is read through
//! `serde_json` along several candidate paths in priority order. The
//! lookup's result depends on the blob text and the format token alone, so
//! it carries a name (`tree_url_of`); together with the text-level scans
//! of `extract`, every extraction result is pinned exactly.

use vstd::prelude::*;
use crate::chars::{contains_spec, find_from, find_from_spec, lemma_find_from_found, replace_all,
    replace_all_spec, subvec, to_chars, to_string};
use crate::errors::BandcampError;
use crate::extract::{
    data_blob_spec, direct_pattern_spec, extract_direct_pattern, fan_id_scan_spec, json_fallback,
    json_fallback_spec, locate_data_blob, locate_pagedata_blob, locate_tralbum_blob,
    pagedata_blob_with, scan_fan_id, tralbum_blob_with, unescape_html, unescape_html_spec,
};
use crate::formats::{encoding_spec, AudioFormat};

verus! {

/// The URL `serde_json` reads out of a JSON blob for a format token, along
/// the candidate paths in priority order: a single-item digital-items
/// container, then a single-item download-items container, then a flat
/// per-format map. A function of the text and the token alone; `None`
/// when the text is not JSON or no path holds a string.
pub uninterp spec fn tree_url_of(json: Seq<char>, fmt: Seq<char>) -> Option<Seq<char>>;

/// Relies on `serde_json::from_str` and the `Value` accessors `get` and
/// `as_str`: the URL under `digital_items[0].downloads.<token>.url`, else
/// `download_items[0].downloads.<token>.url`, else `downloads.<token>.url`.
#[verifier::external_body]
fn tree_url_lookup(json: &str, fmt: &str) -> (r: Option<String>)
    ensures
        r is Some <==> tree_url_of(json@, fmt@) is Some,
        r matches Some(u) ==> tree_url_of(json@, fmt@) == Some(u@),
{
    let v: serde_json::Value = serde_json::from_str(json).ok()?;
    let item_path = |c: &str| {
        Some(v.get(c)?.get(0)?.get("downloads")?.get(fmt)?.get("url")?.as_str()?.to_string())
    };
    item_path("digital_items")
        .or_else(|| item_path("download_items"))
        .or_else(|| Some(v.get("downloads")?.get(fmt)?.get("url")?.as_str()?.to_string()))
}

/// The account id `serde_json` reads under `fan_data.fan_id`. A function
/// of the text alone; `None` when the text is not JSON or the path is not
/// an unsigned number.
pub uninterp spec fn tree_fan_id_of(json: Seq<char>) -> Option<u64>;

/// Relies on `serde_json::from_str` and the `Value` accessors `get` and
/// `as_u64`: the unsigned number under `fan_data.fan_id`.
#[verifier::external_body]
fn tree_fan_id_lookup(json: &str) -> (r: Option<u64>)
    ensures
        r == tree_fan_id_of(json@),
{
    let v: serde_json::Value = serde_json::from_str(json).ok()?;
    v.get("fan_data")?.get("fan_id")?.as_u64()
}

/// The URL a JSON blob yields for a format: the tree lookup (its escaped
/// ampersands made literal), backed by the text-level scan of the same
/// blob.
pub open spec fn blob_url_of(json: Seq<char>, fmt: Seq<char>) -> Option<Seq<char>> {
    match tree_url_of(json, fmt) {
        Some(u) => Some(replace_all_spec(u, "\\u0026"@, "&"@)),
        None => json_fallback_spec(json, fmt),
    }
}

fn norm_amp(s: &String) -> (r: String)
    ensures
        r@ == replace_all_spec(s@, "\\u0026"@, "&"@),
{
    proof {
        reveal_strlit("\\u0026");
    }
    let sv = to_chars(s.as_str());
    let pat = to_chars("\\u0026");
    let rep = to_chars("&");
    let out = replace_all(&sv, &pat, &rep);
    to_string(&out)
}

/// URL for the format out of a JSON blob, exactly as `blob_url_of` gives
/// it: tree lookup first, text-level scan second.
pub fn extract_url_from_json(json: &str, fmt: &str) -> (r: Option<String>)
    ensures
        match r {
            Some(s) => blob_url_of(json@, fmt@) == Some(s@),
            None => blob_url_of(json@, fmt@) is None,
        },
{
    if let Some(u) = tree_url_lookup(json, fmt) {
        return Some(norm_amp(&u));
    }
    let jc = to_chars(json);
    let fc = to_chars(fmt);
    match json_fallback(&jc, &fc) {
        Some(u) => Some(to_string(&u)),
        None => None,
    }
}

/// What the container-element strategy yields for one id pattern: the
/// located, entity-normalized blob's URL.
pub open spec fn pagedata_url_with(html: Seq<char>, pat: Seq<char>, fmt: Seq<char>) -> Option<
    Seq<char>,
> {
    match pagedata_blob_with(html, pat) {
        Some(b) => blob_url_of(b, fmt),
        None => None,
    }
}

/// What the container-element strategy yields: the first of its three id
/// patterns whose blob holds a URL.
pub open spec fn pagedata_url_spec(html: Seq<char>, fmt: Seq<char>) -> Option<Seq<char>> {
    if pagedata_url_with(html, "<div id=\"pagedata\""@, fmt) is Some {
        pagedata_url_with(html, "<div id=\"pagedata\""@, fmt)
    } else if pagedata_url_with(html, "<div id='pagedata'"@, fmt) is Some {
        pagedata_url_with(html, "<div id='pagedata'"@, fmt)
    } else {
        pagedata_url_with(html, "id=\"pagedata\""@, fmt)
    }
}

/// Walk of every `data-blob` attribute written with `quote`, from position
/// `from` on: a value mentioning a download marker is unescaped and asked
/// for its URL; the first hit wins.
pub open spec fn datablob_url_from(
    html: Seq<char>,
    pat: Seq<char>,
    quote: char,
    fmt: Seq<char>,
    from: int,
) -> Option<Seq<char>>
    decreases html.len() - from,
    when pat.len() >= 1
    via datablob_url_from_decreases
{
    match find_from_spec(html, pat, from) {
        None => None,
        Some(p) => {
            let start = p + pat.len();
            match find_from_spec(html, seq![quote], start) {
                None => None,
                Some(e) => {
                    let blob = html.subrange(start, e);
                    let candidate = if contains_spec(blob, "digital_items"@) || contains_spec(
                        blob,
                        "downloads"@,
                    ) {
                        blob_url_of(unescape_html_spec(blob), fmt)
                    } else {
                        None
                    };
                    match candidate {
                        Some(u) => Some(u),
                        None => datablob_url_from(html, pat, quote, fmt, e),
                    }
                },
            }
        },
    }
}

#[via_fn]
proof fn datablob_url_from_decreases(
    html: Seq<char>,
    pat: Seq<char>,
    quote: char,
    fmt: Seq<char>,
    from: int,
) {
    if pat.len() >= 1 {
        match find_from_spec(html, pat, from) {
            None => {},
            Some(p) => {
                lemma_find_from_found(html, pat, from);
                let start = p + pat.len();
                match find_from_spec(html, seq![quote], start) {
                    None => {},
                    Some(e) => {
                        lemma_find_from_found(html, seq![quote], start);
                    },
                }
            },
        }
    }
}

/// What the any-data-attribute strategy yields: the double-quoted pass
/// first, the single-quoted pass second.
pub open spec fn datablob_url_spec(html: Seq<char>, fmt: Seq<char>) -> Option<Seq<char>> {
    match datablob_url_from(html, "data-blob=\""@, '"', fmt, 0) {
        Some(u) => Some(u),
        None => datablob_url_from(html, "data-blob='"@, '\'', fmt, 0),
    }
}

/// What the inline-script strategy yields for one assignment pattern.
pub open spec fn tralbum_url_with(html: Seq<char>, pat: Seq<char>, fmt: Seq<char>) -> Option<
    Seq<char>,
> {
    match tralbum_blob_with(html, pat) {
        Some(b) => blob_url_of(b, fmt),
        None => None,
    }
}

/// What the inline-script strategy yields: the spaced assignment first.
pub open spec fn tralbum_url_spec(html: Seq<char>, fmt: Seq<char>) -> Option<Seq<char>> {
    if tralbum_url_with(html, "TralbumData = {"@, fmt) is Some {
        tralbum_url_with(html, "TralbumData = {"@, fmt)
    } else {
        tralbum_url_with(html, "TralbumData={"@, fmt)
    }
}

/// The whole extraction: the ordered strategies, first success wins —
/// container element, then any data attribute, then the inline script,
/// then the direct text search.
pub open spec fn extract_url_spec(html: Seq<char>, fmt: Seq<char>) -> Option<Seq<char>> {
    if pagedata_url_spec(html, fmt) is Some {
        pagedata_url_spec(html, fmt)
    } else if datablob_url_spec(html, fmt) is Some {
        datablob_url_spec(html, fmt)
    } else if tralbum_url_spec(html, fmt) is Some {
        tralbum_url_spec(html, fmt)
    } else {
        direct_pattern_spec(html, fmt)
    }
}

/// The error text when no strategy finds a URL for the format.
pub open spec fn extract_err_msg_spec(format: AudioFormat) -> Seq<char> {
    "Could not find download URL for format '"@ + encoding_spec(format) + "' in page"@
}

fn try_pagedata(html: &Vec<char>, pat: &Vec<char>, fmt_str: &str) -> (r: Option<String>)
    ensures
        match r {
            Some(s) => pagedata_url_with(html@, pat@, fmt_str@) == Some(s@),
            None => pagedata_url_with(html@, pat@, fmt_str@) is None,
        },
{
    match locate_pagedata_blob(html, pat) {
        Some(blob) => {
            let s = to_string(&blob);
            extract_url_from_json(s.as_str(), fmt_str)
        },
        None => None,
    }
}

fn try_tralbum(html: &Vec<char>, pat: &Vec<char>, fmt_str: &str) -> (r: Option<String>)
    requires
        pat@.len() >= 1,
    ensures
        match r {
            Some(s) => tralbum_url_with(html@, pat@, fmt_str@) == Some(s@),
            None => tralbum_url_with(html@, pat@, fmt_str@) is None,
        },
{
    match locate_tralbum_blob(html, pat) {
        Some(blob) => {
            let s = to_string(&blob);
            extract_url_from_json(s.as_str(), fmt_str)
        },
        None => None,
    }
}

fn extract_from_data_blob(html: &Vec<char>, pat: &Vec<char>, quote: char, fmt_str: &str) -> (r:
    Option<String>)
    requires
        pat@.len() >= 1,
    ensures
        match r {
            Some(s) => datablob_url_from(html@, pat@, quote, fmt_str@, 0) == Some(s@),
            None => datablob_url_from(html@, pat@, quote, fmt_str@, 0) is None,
        },
{
    let mut pos: usize = 0;
    let mut qv: Vec<char> = Vec::new();
    qv.push(quote);
    proof {
        assert(qv@ =~= seq![quote]);
    }
    let m1 = to_chars("digital_items");
    let m2 = to_chars("downloads");
    loop
        invariant
            pat@.len() >= 1,
            qv@ == seq![quote],
            m1@ == "digital_items"@,
            m2@ == "downloads"@,
            pos <= html@.len(),
            datablob_url_from(html@, pat@, quote, fmt_str@, 0) == datablob_url_from(
                html@,
                pat@,
                quote,
                fmt_str@,
                pos as int,
            ),
        decreases html@.len() - pos,
    {
        match find_from(html, pat, pos) {
            None => {
                return None;
            },
            Some(p) => {
                let start = p + pat.len();
                match find_from(html, &qv, start) {
                    None => {
                        return None;
                    },
                    Some(e) => {
                        let blob = subvec(html, start, e);
                        if crate::chars::contains(&blob, &m1) || crate::chars::contains(
                            &blob,
                            &m2,
                        ) {
                            let unescaped = unescape_html(&blob);
                            let s = to_string(&unescaped);
                            if let Some(u) = extract_url_from_json(s.as_str(), fmt_str) {
                                return Some(u);
                            }
                        }
                        pos = e;
                    },
                }
            },
        }
    }
}

/// The final URL for the format, out of the page, exactly as
/// `extract_url_spec` gives it; the error, with its exact text, comes iff
/// every strategy yields nothing — fail closed, no further heuristics.
pub fn extract_download_url(html: &str, format: AudioFormat) -> (r: Result<String, BandcampError>)
    ensures
        match r {
            Ok(s) => extract_url_spec(html@, encoding_spec(format)) == Some(s@),
            Err(e) => extract_url_spec(html@, encoding_spec(format)) is None && (e matches
                BandcampError::ParseError(m) && m@ == extract_err_msg_spec(format)),
        },
{
    let hc = to_chars(html);
    let fmt_str = format.bandcamp_encoding();
    let fc = to_chars(fmt_str);

    let pa1 = to_chars("<div id=\"pagedata\"");
    if let Some(u) = try_pagedata(&hc, &pa1, fmt_str) {
        return Ok(u);
    }
    let pa2 = to_chars("<div id='pagedata'");
    if let Some(u) = try_pagedata(&hc, &pa2, fmt_str) {
        return Ok(u);
    }
    let pa3 = to_chars("id=\"pagedata\"");
    if let Some(u) = try_pagedata(&hc, &pa3, fmt_str) {
        return Ok(u);
    }

    let pb1 = to_chars("data-blob=\"");
    proof {
        reveal_strlit("data-blob=\"");
    }
    if let Some(u) = extract_from_data_blob(&hc, &pb1, '"', fmt_str) {
        return Ok(u);
    }
    let pb2 = to_chars("data-blob='");
    proof {
        reveal_strlit("data-blob='");
    }
    if let Some(u) = extract_from_data_blob(&hc, &pb2, '\'', fmt_str) {
        return Ok(u);
    }

    let pc1 = to_chars("TralbumData = {");
    proof {
        reveal_strlit("TralbumData = {");
    }
    if let Some(u) = try_tralbum(&hc, &pc1, fmt_str) {
        return Ok(u);
    }
    let pc2 = to_chars("TralbumData={");
    proof {
        reveal_strlit("TralbumData={");
    }
    if let Some(u) = try_tralbum(&hc, &pc2, fmt_str) {
        return Ok(u);
    }

    if let Some(u) = extract_direct_pattern(&hc, &fc) {
        return Ok(to_string(&u));
    }

    let msg = String::from_str("Could not find download URL for format '").concat(fmt_str).concat(
        "' in page",
    );
    Err(BandcampError::ParseError(msg))
}

/// What the page's first data attribute yields for the account id: the
/// entity-normalized blob read as page data, else scanned for the key.
pub open spec fn blob_fan_id_of(html: Seq<char>) -> Option<u64> {
    match data_blob_spec(html) {
        Some(b) => {
            let u = unescape_html_spec(b);
            match tree_fan_id_of(u) {
                Some(id) => Some(id),
                None => fan_id_scan_spec(u),
            }
        },
        None => None,
    }
}

/// The account id embedded in a page: the digit run after a `"fan_id":`
/// key anywhere in the text, else the first data attribute's blob (read as
/// page data, else scanned); the error, with its exact text, comes iff
/// both fail.
pub fn extract_fan_id(html: &str) -> (r: Result<u64, BandcampError>)
    ensures
        fan_id_scan_spec(html@) matches Some(id) ==> r == Ok::<u64, BandcampError>(id),
        fan_id_scan_spec(html@) is None ==> match blob_fan_id_of(html@) {
            Some(id) => r == Ok::<u64, BandcampError>(id),
            None => r is Err,
        },
        r matches Err(e) ==> fan_id_scan_spec(html@) is None && blob_fan_id_of(html@) is None && (
        e matches BandcampError::ParseError(m) && m@ == "Could not find fan_id in page"@),
{
    let hc = to_chars(html);
    if let Some(id) = scan_fan_id(&hc) {
        return Ok(id);
    }
    match locate_data_blob(&hc) {
        Some(blob) => {
            let unescaped = unescape_html(&blob);
            let s = to_string(&unescaped);
            if let Some(id) = tree_fan_id_lookup(s.as_str()) {
                return Ok(id);
            }
            if let Some(id) = scan_fan_id(&unescaped) {
                return Ok(id);
            }
        },
        None => {},
    }
    Err(BandcampError::ParseError(String::from_str("Could not find fan_id in page")))
}

} // verus!
