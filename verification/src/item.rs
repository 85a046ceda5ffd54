//! Library items and credentials.

use vstd::prelude::*;
use crate::chars::{replace_all, replace_all_spec, to_chars, to_string};
use crate::formats::{extension_spec, AudioFormat, ItemType};

verus! {

/// One purchased unit of the collection, immutable once constructed.
#[derive(Debug, Clone)]
pub struct LibraryItem {
    /// Stable identifier: the sale item id printed in decimal.
    pub id: String,
    pub item_type: ItemType,
    pub title: String,
    pub artist: String,
    pub artist_id: String,
    /// Artist subdomain, for URL-based filtering.
    pub artist_subdomain: Option<String>,
    /// URL slug of the item, for URL-based filtering.
    pub slug: Option<String>,
    /// Full item URL, when the collection reported one.
    pub item_url: Option<String>,
    /// Entry point for encoding resolution; not itself a final asset URL.
    pub download_url: String,
    pub available_formats: Vec<AudioFormat>,
    pub is_preorder: bool,
    pub is_hidden: bool,
}

/// Mathematical image of a library item.
pub struct LibraryItemModel {
    pub id: Seq<char>,
    pub item_type: ItemType,
    pub title: Seq<char>,
    pub artist: Seq<char>,
    pub artist_id: Seq<char>,
    pub artist_subdomain: Option<Seq<char>>,
    pub slug: Option<Seq<char>>,
    pub item_url: Option<Seq<char>>,
    pub download_url: Seq<char>,
    pub available_formats: Seq<AudioFormat>,
    pub is_preorder: bool,
    pub is_hidden: bool,
}

pub open spec fn opt_view(o: Option<String>) -> Option<Seq<char>> {
    match o {
        Some(s) => Some(s@),
        None => None,
    }
}

impl View for LibraryItem {
    type V = LibraryItemModel;

    open spec fn view(&self) -> LibraryItemModel {
        LibraryItemModel {
            id: self.id@,
            item_type: self.item_type,
            title: self.title@,
            artist: self.artist@,
            artist_id: self.artist_id@,
            artist_subdomain: opt_view(self.artist_subdomain),
            slug: opt_view(self.slug),
            item_url: opt_view(self.item_url),
            download_url: self.download_url@,
            available_formats: self.available_formats@,
            is_preorder: self.is_preorder,
            is_hidden: self.is_hidden,
        }
    }
}

/// Identity token plus the numeric account identifier resolved at login.
/// Validation builds a whole new credential; nothing mutates one in place.
#[derive(Debug, Clone)]
pub struct Credentials {
    pub identity_cookie: String,
    pub client_id: Option<String>,
    pub fan_id: Option<String>,
}

impl Credentials {
    pub fn new(identity_cookie: String) -> (r: Credentials)
        ensures
            r.identity_cookie@ == identity_cookie@,
            r.client_id is None,
            r.fan_id is None,
    {
        Credentials { identity_cookie, client_id: None, fan_id: None }
    }

    /// The credential as re-validation replaces it: same cookie, new account id.
    pub fn with_fan_id(self, fan_id: String) -> (r: Credentials)
        ensures
            r.identity_cookie@ == self.identity_cookie@,
            r.client_id == self.client_id,
            r.fan_id matches Some(f) && f@ == fan_id@,
    {
        Credentials { identity_cookie: self.identity_cookie, client_id: self.client_id, fan_id: Some(fan_id) }
    }
}

/// The extension part a filename template substitutes for `{ext}`: present,
/// with its dot, only for single tracks.
pub open spec fn ext_part_spec(t: ItemType, f: AudioFormat) -> Seq<char> {
    if t == ItemType::Track {
        seq!['.'] + extension_spec(f)
    } else {
        Seq::<char>::empty()
    }
}

/// The template used when the caller supplies none.
pub open spec fn default_template_spec(t: ItemType) -> Seq<char> {
    if t == ItemType::Track {
        "{artist} - {title}{ext}"@
    } else {
        "{artist} - {title}"@
    }
}

/// The on-disk name: the template with `{artist}`, `{title}`, `{ext}` and
/// `{id}` substituted in that order.
pub open spec fn filename_spec(
    item: LibraryItem,
    f: AudioFormat,
    custom: Option<Seq<char>>,
) -> Seq<char> {
    let tmpl = match custom {
        Some(t) => t,
        None => default_template_spec(item.item_type),
    };
    replace_all_spec(
        replace_all_spec(
            replace_all_spec(
                replace_all_spec(tmpl, "{artist}"@, item.artist@),
                "{title}"@,
                item.title@,
            ),
            "{ext}"@,
            ext_part_spec(item.item_type, f),
        ),
        "{id}"@,
        item.id@,
    )
}

fn dup_opt(o: &Option<String>) -> (r: Option<String>)
    ensures
        opt_view(r) == opt_view(*o),
{
    match o {
        Some(s) => Some(s.clone()),
        None => None,
    }
}

impl LibraryItem {
    /// A second value equal to this one.
    pub fn duplicate(&self) -> (r: LibraryItem)
        ensures
            r@ == self@,
    {
        let mut fmts: Vec<AudioFormat> = Vec::new();
        let mut i: usize = 0;
        while i < self.available_formats.len()
            invariant
                i <= self.available_formats@.len(),
                fmts@ == self.available_formats@.subrange(0, i as int),
            decreases self.available_formats@.len() - i,
        {
            fmts.push(self.available_formats[i]);
            assert(fmts@ =~= self.available_formats@.subrange(0, i + 1));
            i += 1;
        }
        assert(fmts@ =~= self.available_formats@);
        LibraryItem {
            id: self.id.clone(),
            item_type: self.item_type,
            title: self.title.clone(),
            artist: self.artist.clone(),
            artist_id: self.artist_id.clone(),
            artist_subdomain: dup_opt(&self.artist_subdomain),
            slug: dup_opt(&self.slug),
            item_url: dup_opt(&self.item_url),
            download_url: self.download_url.clone(),
            available_formats: fmts,
            is_preorder: self.is_preorder,
            is_hidden: self.is_hidden,
        }
    }

    /// Constructs the folder or file name the item will be downloaded as.
    pub fn construct_filename(&self, format: AudioFormat, custom_format: Option<&str>) -> (r:
        String)
        ensures
            r@ == filename_spec(*self, format, match custom_format {
                Some(t) => Some(t@),
                None => None,
            }),
    {
        proof {
            reveal_strlit("{artist}");
            reveal_strlit("{title}");
            reveal_strlit("{ext}");
            reveal_strlit("{id}");
        }
        let mut ext_part: Vec<char> = Vec::new();
        if self.item_type == ItemType::Track {
            ext_part.push('.');
            let e = to_chars(format.extension());
            crate::chars::append_all(&mut ext_part, &e);
            proof {
                assert(ext_part@ =~= ext_part_spec(self.item_type, format));
            }
        } else {
            proof {
                assert(ext_part@ =~= ext_part_spec(self.item_type, format));
            }
        }
        let tmpl: Vec<char> = match custom_format {
            Some(t) => to_chars(t),
            None => {
                if self.item_type == ItemType::Track {
                    to_chars("{artist} - {title}{ext}")
                } else {
                    to_chars("{artist} - {title}")
                }
            },
        };
        let pat_artist = to_chars("{artist}");
        let pat_title = to_chars("{title}");
        let pat_ext = to_chars("{ext}");
        let pat_id = to_chars("{id}");
        let artist = to_chars(self.artist.as_str());
        let title = to_chars(self.title.as_str());
        let id = to_chars(self.id.as_str());
        let s1 = replace_all(&tmpl, &pat_artist, &artist);
        let s2 = replace_all(&s1, &pat_title, &title);
        let s3 = replace_all(&s2, &pat_ext, &ext_part);
        let s4 = replace_all(&s3, &pat_id, &id);
        to_string(&s4)
    }
}

} // verus!
