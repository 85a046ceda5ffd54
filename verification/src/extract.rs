//! Page scanning: entity/escape normalization, the string-aware brace
//! matcher, and the text-level URL and account-id extractors.
//!
//! Everything here is a pure function of the page text, with an exact
//! specification; the JSON-tree lookups that complement these scans live in
//! `jsonpath`.

use vstd::prelude::*;
use crate::chars::{
    contains, contains_spec, find_from, find_from_spec, lemma_find_from_found, replace_all,
    replace_all_spec, subvec, to_chars,
};
use crate::digits::{digits_to_nat, is_digit_char, parse_u64_digits};

verus! {

/// HTML-entity and backslash-escape normalization, replacement by
/// replacement in this order.
pub open spec fn unescape_html_spec(s: Seq<char>) -> Seq<char> {
    let s1 = replace_all_spec(s, "&quot;"@, "\""@);
    let s2 = replace_all_spec(s1, "&amp;"@, "&"@);
    let s3 = replace_all_spec(s2, "&lt;"@, "<"@);
    let s4 = replace_all_spec(s3, "&gt;"@, ">"@);
    let s5 = replace_all_spec(s4, "&#39;"@, "'"@);
    let s6 = replace_all_spec(s5, "&apos;"@, "'"@);
    let s7 = replace_all_spec(s6, "&#x27;"@, "'"@);
    let s8 = replace_all_spec(s7, "&#x2F;"@, "/"@);
    let s9 = replace_all_spec(s8, "\\u0026"@, "&"@);
    replace_all_spec(s9, "\\/"@, "/"@)
}

/// Escaped ampersands and forward slashes made literal, as applied to a URL
/// pulled out of raw JSON text.
pub open spec fn norm_amp_slash_spec(s: Seq<char>) -> Seq<char> {
    replace_all_spec(replace_all_spec(s, "\\u0026"@, "&"@), "\\/"@, "/"@)
}

/// Escaped forward slashes made literal, as applied to a URL from a status
/// response.
pub open spec fn norm_slash_spec(s: Seq<char>) -> Seq<char> {
    replace_all_spec(s, "\\/"@, "/"@)
}

fn replace_lit(s: &Vec<char>, pat: &str, rep: &str) -> (r: Vec<char>)
    requires
        pat@.len() >= 1,
    ensures
        r@ == replace_all_spec(s@, pat@, rep@),
{
    let p = to_chars(pat);
    let q = to_chars(rep);
    replace_all(s, &p, &q)
}

pub fn unescape_html(s: &Vec<char>) -> (r: Vec<char>)
    ensures
        r@ == unescape_html_spec(s@),
{
    proof {
        reveal_strlit("&quot;");
        reveal_strlit("&amp;");
        reveal_strlit("&lt;");
        reveal_strlit("&gt;");
        reveal_strlit("&#39;");
        reveal_strlit("&apos;");
        reveal_strlit("&#x27;");
        reveal_strlit("&#x2F;");
        reveal_strlit("\\u0026");
        reveal_strlit("\\/");
    }
    let s1 = replace_lit(s, "&quot;", "\"");
    let s2 = replace_lit(&s1, "&amp;", "&");
    let s3 = replace_lit(&s2, "&lt;", "<");
    let s4 = replace_lit(&s3, "&gt;", ">");
    let s5 = replace_lit(&s4, "&#39;", "'");
    let s6 = replace_lit(&s5, "&apos;", "'");
    let s7 = replace_lit(&s6, "&#x27;", "'");
    let s8 = replace_lit(&s7, "&#x2F;", "/");
    let s9 = replace_lit(&s8, "\\u0026", "&");
    replace_lit(&s9, "\\/", "/")
}

pub fn norm_amp_slash(s: &Vec<char>) -> (r: Vec<char>)
    ensures
        r@ == norm_amp_slash_spec(s@),
{
    proof {
        reveal_strlit("\\u0026");
        reveal_strlit("\\/");
    }
    let s1 = replace_lit(s, "\\u0026", "&");
    replace_lit(&s1, "\\/", "/")
}

pub fn norm_slash(s: &Vec<char>) -> (r: Vec<char>)
    ensures
        r@ == norm_slash_spec(s@),
{
    proof {
        reveal_strlit("\\/");
    }
    replace_lit(s, "\\/", "/")
}

/// One step at a time over the text, tracking brace depth, whether the scan
/// is inside a quoted string, and whether the previous character was a
/// backslash escape; yields the position of the brace that closes the
/// object opened before position `i`.
pub open spec fn brace_scan(
    s: Seq<char>,
    i: int,
    depth: int,
    in_string: bool,
    escaped: bool,
) -> Option<int>
    decreases s.len() - i,
{
    if i < 0 || i >= s.len() {
        None
    } else {
        let c = s[i];
        if escaped {
            brace_scan(s, i + 1, depth, in_string, false)
        } else if c == '\\' && in_string {
            brace_scan(s, i + 1, depth, in_string, true)
        } else if c == '"' {
            brace_scan(s, i + 1, depth, !in_string, false)
        } else if c == '{' && !in_string {
            brace_scan(s, i + 1, depth + 1, in_string, false)
        } else if c == '}' && !in_string {
            if depth == 1 {
                Some(i)
            } else {
                brace_scan(s, i + 1, depth - 1, in_string, false)
            }
        } else {
            brace_scan(s, i + 1, depth, in_string, false)
        }
    }
}

/// The JSON object that starts the text: everything up to the brace that
/// closes the opening one, honoring quoted strings and backslash escapes.
pub open spec fn extract_json_object_spec(s: Seq<char>) -> Option<Seq<char>> {
    if s.len() == 0 || s[0] != '{' {
        None
    } else {
        match brace_scan(s, 0, 0, false, false) {
            Some(end) => Some(s.subrange(0, end + 1)),
            None => None,
        }
    }
}

/// Standalone lexer pass of the brace matcher.
pub fn extract_json_object(s: &Vec<char>) -> (r: Option<Vec<char>>)
    ensures
        match r {
            Some(v) => extract_json_object_spec(s@) == Some(v@),
            None => extract_json_object_spec(s@) is None,
        },
{
    if s.len() == 0 || s[0] != '{' {
        return None;
    }
    let mut i: usize = 0;
    let mut depth: i128 = 0;
    let mut in_string: bool = false;
    let mut escaped: bool = false;
    while i < s.len()
        invariant
            i <= s@.len(),
            s@.len() <= usize::MAX,
            s@.len() > 0 && s@[0] == '{',
            -(i as int) - 1 <= depth as int <= i as int + 1,
            brace_scan(s@, 0, 0, false, false) == brace_scan(
                s@,
                i as int,
                depth as int,
                in_string,
                escaped,
            ),
        decreases s@.len() - i,
    {
        let c = s[i];
        if escaped {
            escaped = false;
        } else if c == '\\' && in_string {
            escaped = true;
        } else if c == '"' {
            in_string = !in_string;
        } else if c == '{' && !in_string {
            depth = depth + 1;
        } else if c == '}' && !in_string {
            if depth == 1 {
                proof {
                    assert(brace_scan(s@, i as int, depth as int, in_string, escaped) == Some(
                        i as int,
                    ));
                }
                return Some(subvec(s, 0, i + 1));
            } else {
                depth = depth - 1;
            }
        }
        i += 1;
    }
    None
}

/// The quoted key of a format token, `"<token>":`.
pub open spec fn format_key_spec(fmt: Seq<char>) -> Seq<char> {
    seq!['"'] + fmt + "\":"@
}

/// The text from `start` to the next double quote, escape-normalized.
pub open spec fn url_after(window: Seq<char>, start: int) -> Option<Seq<char>> {
    match find_from_spec(window, seq!['"'], start) {
        Some(end) => Some(norm_amp_slash_spec(window.subrange(start, end))),
        None => None,
    }
}

/// The quoted value after one `url` key spelling, if both occur.
pub open spec fn try_url_pattern_spec(window: Seq<char>, pat: Seq<char>) -> Option<Seq<char>> {
    match find_from_spec(window, pat, 0) {
        Some(i) => url_after(window, i + pat.len()),
        None => None,
    }
}

/// The first of three `url` key spellings that yields a quoted value.
pub open spec fn url_value_in_window_spec(window: Seq<char>) -> Option<Seq<char>> {
    if try_url_pattern_spec(window, "\"url\":\""@) is Some {
        try_url_pattern_spec(window, "\"url\":\""@)
    } else if try_url_pattern_spec(window, "\"url\": \""@) is Some {
        try_url_pattern_spec(window, "\"url\": \""@)
    } else {
        try_url_pattern_spec(window, "url\":\""@)
    }
}

/// Window-bounded search for a `url` field near the format token, the
/// last-resort strategy: the token key, then a `url` key spelling within
/// the next thousand characters, then the quoted value, escape-normalized.
pub open spec fn direct_pattern_spec(html: Seq<char>, fmt: Seq<char>) -> Option<Seq<char>> {
    match find_from_spec(html, format_key_spec(fmt), 0) {
        None => None,
        Some(fpos) => {
            let wend = if html.len() < fpos + 1000 {
                html.len() as int
            } else {
                fpos + 1000
            };
            url_value_in_window_spec(html.subrange(fpos, wend))
        },
    }
}

/// Text-level scan of a JSON blob: the format key, then a `"url":` key
/// after it, then the next quoted string, escape-normalized.
pub open spec fn json_fallback_spec(json: Seq<char>, fmt: Seq<char>) -> Option<Seq<char>> {
    match find_from_spec(json, format_key_spec(fmt), 0) {
        None => None,
        Some(pos) => match find_from_spec(json, "\"url\":"@, pos) {
            None => None,
            Some(upos) => {
                let vstart = upos + "\"url\":"@.len();
                match find_from_spec(json, seq!['"'], vstart) {
                    None => None,
                    Some(q1) => match find_from_spec(json, seq!['"'], q1 + 1) {
                        None => None,
                        Some(q2) => Some(norm_amp_slash_spec(json.subrange(q1 + 1, q2))),
                    },
                }
            },
        },
    }
}

/// Position just past the run of decimal digits starting at `start`.
pub open spec fn digit_run_end(s: Seq<char>, start: int) -> int
    decreases s.len() - start,
{
    if start < 0 || start >= s.len() || !is_digit_char(s[start]) {
        start
    } else {
        digit_run_end(s, start + 1)
    }
}

/// The numeric account id written right after a `"fan_id":` key: the
/// maximal digit run, accepted only when a non-digit follows it and the
/// value fits in 64 bits.
pub open spec fn fan_id_scan_spec(s: Seq<char>) -> Option<u64> {
    match find_from_spec(s, "\"fan_id\":"@, 0) {
        None => None,
        Some(pos) => {
            let start = pos + "\"fan_id\":"@.len();
            let run = digit_run_end(s, start);
            let end: int = if run == s.len() {
                start
            } else {
                run
            };
            if end > start && digits_to_nat(s.subrange(start, end)) <= u64::MAX {
                Some(digits_to_nat(s.subrange(start, end)) as u64)
            } else {
                None
            }
        },
    }
}

proof fn lemma_digit_run_digits(s: Seq<char>, start: int, j: int)
    requires
        0 <= start,
        start <= j < digit_run_end(s, start),
    ensures
        is_digit_char(s[j]),
        digit_run_end(s, start) <= s.len(),
    decreases s.len() - start,
{
    if start < s.len() && is_digit_char(s[start]) {
        if j > start {
            lemma_digit_run_digits(s, start + 1, j);
        } else {
            lemma_digit_run_bound(s, start);
        }
    }
}

proof fn lemma_digit_run_bound(s: Seq<char>, start: int)
    requires
        0 <= start <= s.len(),
    ensures
        start <= digit_run_end(s, start) <= s.len(),
    decreases s.len() - start,
{
    if start < s.len() && is_digit_char(s[start]) {
        lemma_digit_run_bound(s, start + 1);
    }
}

fn digit_run_end_exec(s: &Vec<char>, start: usize) -> (r: usize)
    requires
        start <= s@.len(),
    ensures
        r == digit_run_end(s@, start as int),
        start <= r <= s@.len(),
{
    let mut e: usize = start;
    loop
        invariant
            start <= e <= s@.len(),
            digit_run_end(s@, start as int) == digit_run_end(s@, e as int),
        decreases s@.len() - e,
    {
        if e >= s.len() {
            return e;
        }
        let c = s[e];
        let cv: u32 = c as u32;
        if cv < 48 || cv > 57 {
            return e;
        }
        e += 1;
    }
}

/// The maximal digit run after a `"fan_id":` key, as `fan_id_scan_spec`
/// gives it; shared by the JSON and the page scan.
pub fn scan_fan_id(s: &Vec<char>) -> (r: Option<u64>)
    ensures
        r == fan_id_scan_spec(s@),
{
    let marker = to_chars("\"fan_id\":");
    match find_from(s, &marker, 0) {
        None => None,
        Some(pos) => {
            proof {
                lemma_find_from_found(s@, marker@, 0);
            }
            let start = pos + marker.len();
            let run = digit_run_end_exec(s, start);
            let end: usize = if run == s.len() {
                start
            } else {
                run
            };
            if end > start {
                let digits = subvec(s, start, end);
                proof {
                    assert forall|j: int| 0 <= j < digits@.len() implies is_digit_char(
                        digits@[j],
                    ) by {
                        lemma_digit_run_digits(s@, start as int, start + j);
                    }
                }
                match parse_u64_digits(&digits) {
                    Some(v) => Some(v),
                    None => None,
                }
            } else {
                None
            }
        },
    }
}

fn append_lit(dst: &mut Vec<char>, s: &str)
    ensures
        final(dst)@ == old(dst)@ + s@,
{
    let v = to_chars(s);
    crate::chars::append_all(dst, &v)
}

/// The key `"<token>":` as characters.
pub fn format_key(fmt: &Vec<char>) -> (r: Vec<char>)
    ensures
        r@ == format_key_spec(fmt@),
{
    let mut key: Vec<char> = Vec::new();
    key.push('"');
    crate::chars::append_all(&mut key, fmt);
    append_lit(&mut key, "\":");
    proof {
        assert(key@ =~= format_key_spec(fmt@));
    }
    key
}

fn url_after_exec(window: &Vec<char>, start: usize) -> (r: Option<Vec<char>>)
    ensures
        match r {
            Some(v) => url_after(window@, start as int) == Some(v@),
            None => url_after(window@, start as int) is None,
        },
{
    let mut quote: Vec<char> = Vec::new();
    quote.push('"');
    proof {
        assert(quote@ =~= seq!['"']);
    }
    match find_from(window, &quote, start) {
        None => None,
        Some(end) => {
            proof {
                lemma_find_from_found(window@, quote@, start as int);
            }
            let sub = subvec(window, start, end);
            Some(norm_amp_slash(&sub))
        },
    }
}

fn try_url_pattern(window: &Vec<char>, pat: &Vec<char>) -> (r: Option<Vec<char>>)
    ensures
        match r {
            Some(v) => try_url_pattern_spec(window@, pat@) == Some(v@),
            None => try_url_pattern_spec(window@, pat@) is None,
        },
{
    match find_from(window, pat, 0) {
        None => None,
        Some(i) => {
            proof {
                lemma_find_from_found(window@, pat@, 0);
            }
            url_after_exec(window, i + pat.len())
        },
    }
}

fn url_value_in_window(window: &Vec<char>) -> (r: Option<Vec<char>>)
    ensures
        match r {
            Some(v) => url_value_in_window_spec(window@) == Some(v@),
            None => url_value_in_window_spec(window@) is None,
        },
{
    let p1 = to_chars("\"url\":\"");
    if let Some(v) = try_url_pattern(window, &p1) {
        return Some(v);
    }
    let p2 = to_chars("\"url\": \"");
    if let Some(v) = try_url_pattern(window, &p2) {
        return Some(v);
    }
    let p3 = to_chars("url\":\"");
    try_url_pattern(window, &p3)
}

/// Last-resort direct text search for the format token followed by a
/// nearby `url` field, independent of JSON structure.
pub fn extract_direct_pattern(html: &Vec<char>, fmt: &Vec<char>) -> (r: Option<Vec<char>>)
    ensures
        match r {
            Some(v) => direct_pattern_spec(html@, fmt@) == Some(v@),
            None => direct_pattern_spec(html@, fmt@) is None,
        },
{
    let key = format_key(fmt);
    match find_from(html, &key, 0) {
        None => None,
        Some(fpos) => {
            proof {
                lemma_find_from_found(html@, key@, 0);
            }
            let wend: usize = if html.len() - fpos < 1000 {
                html.len()
            } else {
                fpos + 1000
            };
            let window = subvec(html, fpos, wend);
            url_value_in_window(&window)
        },
    }
}

/// Text-level scan of a JSON blob for the format's `url` field.
pub fn json_fallback(json: &Vec<char>, fmt: &Vec<char>) -> (r: Option<Vec<char>>)
    ensures
        match r {
            Some(v) => json_fallback_spec(json@, fmt@) == Some(v@),
            None => json_fallback_spec(json@, fmt@) is None,
        },
{
    let key = format_key(fmt);
    match find_from(json, &key, 0) {
        None => None,
        Some(pos) => {
            let ukey = to_chars("\"url\":");
            match find_from(json, &ukey, pos) {
                None => None,
                Some(upos) => {
                    proof {
                        lemma_find_from_found(json@, ukey@, pos as int);
                    }
                    let vstart = upos + ukey.len();
                    let mut quote: Vec<char> = Vec::new();
                    quote.push('"');
                    proof {
                        assert(quote@ =~= seq!['"']);
                    }
                    match find_from(json, &quote, vstart) {
                        None => None,
                        Some(q1) => {
                            proof {
                                lemma_find_from_found(json@, quote@, vstart as int);
                            }
                            match find_from(json, &quote, q1 + 1) {
                                None => None,
                                Some(q2) => {
                                    proof {
                                        lemma_find_from_found(json@, quote@, q1 + 1);
                                    }
                                    let sub = subvec(json, q1 + 1, q2);
                                    Some(norm_amp_slash(&sub))
                                },
                            }
                        },
                    }
                },
            }
        },
    }
}

/// The data attribute value of a container element matched by `pat`: the
/// tag text runs to its closing angle bracket (or a bounded window), the
/// character after `data-blob=` decides the quote style, and the value is
/// entity-normalized.
pub open spec fn pagedata_blob_with(html: Seq<char>, pat: Seq<char>) -> Option<Seq<char>> {
    match find_from_spec(html, pat, 0) {
        None => None,
        Some(div_pos) => {
            let tag_end = match find_from_spec(html, seq!['>'], div_pos) {
                Some(g) => g,
                None => if div_pos + 2000 <= html.len() {
                    div_pos + 2000
                } else {
                    html.len() as int
                },
            };
            let div_tag = html.subrange(div_pos, tag_end);
            match find_from_spec(div_tag, "data-blob="@, 0) {
                None => None,
                Some(b) => {
                    let quote = if b + 10 < div_tag.len() {
                        div_tag[b + 10]
                    } else {
                        '"'
                    };
                    let content_start = b + 11;
                    if content_start > div_tag.len() {
                        None
                    } else {
                        match find_from_spec(div_tag, seq![quote], content_start) {
                            None => None,
                            Some(e) => Some(unescape_html_spec(div_tag.subrange(content_start, e))),
                        }
                    }
                },
            }
        },
    }
}

/// The object assigned to the legacy inline script variable matched by
/// `pat`, located by the brace matcher from the assignment's opening brace.
pub open spec fn tralbum_blob_with(html: Seq<char>, pat: Seq<char>) -> Option<Seq<char>> {
    match find_from_spec(html, pat, 0) {
        None => None,
        Some(p) => extract_json_object_spec(html.skip(p + pat.len() - 1)),
    }
}

/// The value between `start` and the next occurrence of the quote.
pub open spec fn blob_to_quote(html: Seq<char>, start: int, q: char) -> Option<Seq<char>> {
    match find_from_spec(html, seq![q], start) {
        Some(e) => Some(html.subrange(start, e)),
        None => None,
    }
}

/// The first data attribute value in the page, double-quote spelling
/// preferred, not yet entity-normalized.
pub open spec fn data_blob_spec(html: Seq<char>) -> Option<Seq<char>> {
    match find_from_spec(html, "data-blob=\""@, 0) {
        Some(p) => blob_to_quote(html, p + "data-blob=\""@.len(), '"'),
        None => match find_from_spec(html, "data-blob='"@, 0) {
            Some(p) => blob_to_quote(html, p + "data-blob='"@.len(), '\''),
            None => None,
        },
    }
}

/// Locates the first data attribute value, as `data_blob_spec` gives it.
pub fn locate_data_blob(html: &Vec<char>) -> (r: Option<Vec<char>>)
    ensures
        match r {
            Some(v) => data_blob_spec(html@) == Some(v@),
            None => data_blob_spec(html@) is None,
        },
{
    let pd = to_chars("data-blob=\"");
    let ps = to_chars("data-blob='");
    match find_from(html, &pd, 0) {
        Some(p) => {
            let mut qv: Vec<char> = Vec::new();
            qv.push('"');
            proof {
                assert(qv@ =~= seq!['"']);
            }
            match find_from(html, &qv, p + pd.len()) {
                Some(e) => Some(subvec(html, p + pd.len(), e)),
                None => None,
            }
        },
        None => {
            match find_from(html, &ps, 0) {
                Some(p) => {
                    let mut qv: Vec<char> = Vec::new();
                    qv.push('\'');
                    proof {
                        assert(qv@ =~= seq!['\'']);
                    }
                    match find_from(html, &qv, p + ps.len()) {
                        Some(e) => Some(subvec(html, p + ps.len(), e)),
                        None => None,
                    }
                },
                None => None,
            }
        },
    }
}

/// A page-level flag that the requested format is already transcoded.
pub open spec fn page_ready_spec(html: Seq<char>) -> bool {
    contains_spec(html, "\"ready\":true"@) || contains_spec(html, "\"ready\": true"@)
}

/// The status response reports a finished encode.
pub open spec fn stat_ok_spec(body: Seq<char>) -> bool {
    contains_spec(body, "\"result\":\"ok\""@) || contains_spec(body, "\"result\": \"ok\""@)
}

/// The status response reports that the signed URL has gone stale.
pub open spec fn stat_expired_spec(body: Seq<char>) -> bool {
    contains_spec(body, "\"errortype\":\"ExpirationError\""@)
}

/// The final URL embedded in a successful status response.
pub open spec fn stat_url_spec(body: Seq<char>) -> Option<Seq<char>> {
    match find_from_spec(body, "\"download_url\":\""@, 0) {
        None => None,
        Some(p) => {
            let start = p + "\"download_url\":\""@.len();
            match find_from_spec(body, seq!['"'], start) {
                None => None,
                Some(e) => Some(norm_slash_spec(body.subrange(start, e))),
            }
        },
    }
}

/// Locates the container element's attribute value for one pattern.
pub fn locate_pagedata_blob(html: &Vec<char>, pat: &Vec<char>) -> (r: Option<Vec<char>>)
    ensures
        match r {
            Some(v) => pagedata_blob_with(html@, pat@) == Some(v@),
            None => pagedata_blob_with(html@, pat@) is None,
        },
{
    match find_from(html, pat, 0) {
        None => None,
        Some(div_pos) => {
            let mut gtv: Vec<char> = Vec::new();
            gtv.push('>');
            proof {
                assert(gtv@ =~= seq!['>']);
            }
            let tag_end: usize = match find_from(html, &gtv, div_pos) {
                Some(g) => g,
                None => if html.len() - div_pos >= 2000 {
                    div_pos + 2000
                } else {
                    html.len()
                },
            };
            let div_tag = subvec(html, div_pos, tag_end);
            let dkey = to_chars("data-blob=");
            match find_from(&div_tag, &dkey, 0) {
                None => None,
                Some(b) => {
                    proof {
                        reveal_strlit("data-blob=");
                    }
                    let quote: char = if b + 10 < div_tag.len() {
                        div_tag[b + 10]
                    } else {
                        '"'
                    };
                    let content_start = b + 11;
                    if content_start > div_tag.len() {
                        None
                    } else {
                        let mut qv: Vec<char> = Vec::new();
                        qv.push(quote);
                        proof {
                            assert(qv@ =~= seq![quote]);
                        }
                        match find_from(&div_tag, &qv, content_start) {
                            None => None,
                            Some(e) => {
                                let blob = subvec(&div_tag, content_start, e);
                                Some(unescape_html(&blob))
                            },
                        }
                    }
                },
            }
        },
    }
}

/// Locates the inline script object for one assignment pattern.
pub fn locate_tralbum_blob(html: &Vec<char>, pat: &Vec<char>) -> (r: Option<Vec<char>>)
    requires
        pat@.len() >= 1,
    ensures
        match r {
            Some(v) => tralbum_blob_with(html@, pat@) == Some(v@),
            None => tralbum_blob_with(html@, pat@) is None,
        },
{
    match find_from(html, pat, 0) {
        None => None,
        Some(p) => {
            let json_start = p + pat.len() - 1;
            let tail = subvec(html, json_start, html.len());
            proof {
                assert(tail@ =~= html@.skip(p + pat@.len() - 1));
            }
            extract_json_object(&tail)
        },
    }
}

/// Page-level ready flag.
pub fn page_is_ready(html: &Vec<char>) -> (r: bool)
    ensures
        r == page_ready_spec(html@),
{
    let p1 = to_chars("\"ready\":true");
    let p2 = to_chars("\"ready\": true");
    contains(html, &p1) || contains(html, &p2)
}

/// Success marker in a status response.
pub fn stat_is_ok(body: &Vec<char>) -> (r: bool)
    ensures
        r == stat_ok_spec(body@),
{
    let p1 = to_chars("\"result\":\"ok\"");
    let p2 = to_chars("\"result\": \"ok\"");
    contains(body, &p1) || contains(body, &p2)
}

/// Expiration marker in a status response.
pub fn stat_is_expired(body: &Vec<char>) -> (r: bool)
    ensures
        r == stat_expired_spec(body@),
{
    let p = to_chars("\"errortype\":\"ExpirationError\"");
    contains(body, &p)
}

/// The final URL embedded in a successful status response.
pub fn stat_download_url(body: &Vec<char>) -> (r: Option<Vec<char>>)
    ensures
        match r {
            Some(v) => stat_url_spec(body@) == Some(v@),
            None => stat_url_spec(body@) is None,
        },
{
    let key = to_chars("\"download_url\":\"");
    match find_from(body, &key, 0) {
        None => None,
        Some(p) => {
            let start = p + key.len();
            let mut qv: Vec<char> = Vec::new();
            qv.push('"');
            proof {
                assert(qv@ =~= seq!['"']);
            }
            match find_from(body, &qv, start) {
                None => None,
                Some(e) => {
                    let sub = subvec(body, start, e);
                    Some(norm_slash(&sub))
                },
            }
        },
    }
}

} // verus!
