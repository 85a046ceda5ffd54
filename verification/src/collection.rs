//! Paginated retrieval of the purchase collection.
//!
//! Pages arrive strictly sequentially (each continuation token depends on
//! the previous response); the driver performs the requests and hands each
//! decoded page to `CollectionState::apply_page`, which deduplicates by
//! sale-item identifier, last-seen occurrence winning. No partial result
//! survives an error: the driver drops the whole state.

use vstd::prelude::*;
use crate::chars::{append_all, to_chars, to_string};
use crate::digits::{all_digits, dec_chars, digits_to_nat, parse_u64_digits, u64_to_chars};
use crate::errors::BandcampError;
use crate::formats::{AudioFormat, ItemType};
use crate::item::{opt_view, LibraryItem, LibraryItemModel};

verus! {

/// One raw item as a collection page reports it.
#[derive(Debug, Clone)]
pub struct RawItem {
    pub sale_item_id: u64,
    pub sale_item_type: String,
    pub band_name: String,
    pub item_title: String,
    pub band_id: u64,
    pub tralbum_type: String,
    pub is_preorder: bool,
    pub hidden: Option<bool>,
    pub artist_subdomain: Option<String>,
    pub slug: Option<String>,
    pub item_url: Option<String>,
}

pub struct RawItemModel {
    pub sale_item_id: u64,
    pub sale_item_type: Seq<char>,
    pub band_name: Seq<char>,
    pub item_title: Seq<char>,
    pub band_id: u64,
    pub tralbum_type: Seq<char>,
    pub is_preorder: bool,
    pub hidden: Option<bool>,
    pub artist_subdomain: Option<Seq<char>>,
    pub slug: Option<Seq<char>>,
    pub item_url: Option<Seq<char>>,
}

impl View for RawItem {
    type V = RawItemModel;

    open spec fn view(&self) -> RawItemModel {
        RawItemModel {
            sale_item_id: self.sale_item_id,
            sale_item_type: self.sale_item_type@,
            band_name: self.band_name@,
            item_title: self.item_title@,
            band_id: self.band_id,
            tralbum_type: self.tralbum_type@,
            is_preorder: self.is_preorder,
            hidden: self.hidden,
            artist_subdomain: opt_view(self.artist_subdomain),
            slug: opt_view(self.slug),
            item_url: opt_view(self.item_url),
        }
    }
}

/// One decoded response page: a batch of raw items, whether more are
/// available, the next continuation token, and the pre-signed redownload
/// URLs keyed by `{saleItemType}{saleItemId}`.
#[derive(Debug)]
pub struct CollectionPage {
    pub items: Vec<RawItem>,
    pub more_available: bool,
    pub last_token: Option<String>,
    pub redownload_urls: Vec<(String, String)>,
}

pub struct CollectionPageModel {
    pub items: Seq<RawItemModel>,
    pub more_available: bool,
    pub last_token: Option<Seq<char>>,
    pub redownload_urls: Seq<(Seq<char>, Seq<char>)>,
}

pub open spec fn pairs_model(v: Seq<(String, String)>) -> Seq<(Seq<char>, Seq<char>)> {
    v.map_values(|p: (String, String)| (p.0@, p.1@))
}

impl View for CollectionPage {
    type V = CollectionPageModel;

    open spec fn view(&self) -> CollectionPageModel {
        CollectionPageModel {
            items: self.items@.map_values(|it: RawItem| it@),
            more_available: self.more_available,
            last_token: opt_view(self.last_token),
            redownload_urls: pairs_model(self.redownload_urls@),
        }
    }
}

/// First value in the association list under the key.
pub open spec fn assoc_lookup(urls: Seq<(Seq<char>, Seq<char>)>, key: Seq<char>) -> Option<
    Seq<char>,
>
    decreases urls.len(),
{
    if urls.len() == 0 {
        None
    } else if urls[0].0 == key {
        Some(urls[0].1)
    } else {
        assoc_lookup(urls.skip(1), key)
    }
}

/// The item kind a tralbum type letter denotes; anything unknown counts as
/// an album.
pub open spec fn item_type_spec(t: Seq<char>) -> ItemType {
    if t == "t"@ {
        ItemType::Track
    } else if t == "p"@ {
        ItemType::Package
    } else {
        ItemType::Album
    }
}

/// The composite redownload key `{saleItemType}{saleItemId}`.
pub open spec fn redownload_key_spec(it: RawItemModel) -> Seq<char> {
    it.sale_item_type + dec_chars(it.sale_item_id as nat)
}

/// The fallback collection-download URL synthesized from the sale item id.
pub open spec fn fallback_url_spec(sale_item_id: u64) -> Seq<char> {
    "https://bandcamp.com/download?from=collection&payment_id="@ + dec_chars(sale_item_id as nat)
        + "&sitem_id="@ + dec_chars(sale_item_id as nat)
}

/// The library item a raw item converts to, given the page's redownload
/// URLs: identifiers in decimal, the kind from the tralbum type, the
/// redownload URL from the map or synthesized, and every format offered.
pub open spec fn convert_spec(
    it: RawItemModel,
    urls: Seq<(Seq<char>, Seq<char>)>,
) -> LibraryItemModel {
    LibraryItemModel {
        id: dec_chars(it.sale_item_id as nat),
        item_type: item_type_spec(it.tralbum_type),
        title: it.item_title,
        artist: it.band_name,
        artist_id: dec_chars(it.band_id as nat),
        artist_subdomain: it.artist_subdomain,
        slug: it.slug,
        item_url: it.item_url,
        download_url: match assoc_lookup(urls, redownload_key_spec(it)) {
            Some(u) => u,
            None => fallback_url_spec(it.sale_item_id),
        },
        available_formats: seq![
            AudioFormat::Flac,
            AudioFormat::Mp3320,
            AudioFormat::Mp3V0,
            AudioFormat::Aac,
            AudioFormat::OggVorbis,
            AudioFormat::Alac,
            AudioFormat::Wav,
            AudioFormat::Aiff,
        ],
        is_preorder: it.is_preorder,
        is_hidden: match it.hidden {
            Some(h) => h,
            None => false,
        },
    }
}

fn lookup_url(urls: &Vec<(String, String)>, key: &String) -> (r: Option<String>)
    ensures
        match r {
            Some(u) => assoc_lookup(pairs_model(urls@), key@) == Some(u@),
            None => assoc_lookup(pairs_model(urls@), key@) is None,
        },
{
    let mut i: usize = 0;
    proof {
        assert(pairs_model(urls@).skip(0) =~= pairs_model(urls@));
    }
    while i < urls.len()
        invariant
            i <= urls@.len(),
            assoc_lookup(pairs_model(urls@), key@) == assoc_lookup(
                pairs_model(urls@).skip(i as int),
                key@,
            ),
        decreases urls@.len() - i,
    {
        proof {
            assert(pairs_model(urls@).skip(i as int)[0] == pairs_model(urls@)[i as int]);
            assert(pairs_model(urls@).skip(i as int).skip(1) =~= pairs_model(urls@).skip(i + 1));
        }
        if urls[i].0 == *key {
            return Some(urls[i].1.clone());
        }
        i += 1;
    }
    None
}

/// Converts one raw item against the page's redownload URLs, exactly as
/// `convert_spec` gives it.
pub fn convert_collection_item(it: &RawItem, urls: &Vec<(String, String)>) -> (r: LibraryItem)
    ensures
        r@ == convert_spec(it@, pairs_model(urls@)),
{
    let item_type = if it.tralbum_type == String::from_str("t") {
        ItemType::Track
    } else if it.tralbum_type == String::from_str("p") {
        ItemType::Package
    } else {
        ItemType::Album
    };
    let id_digits = u64_to_chars(it.sale_item_id);
    let id_str = to_string(&id_digits);
    let mut key_chars = to_chars(it.sale_item_type.as_str());
    append_all(&mut key_chars, &id_digits);
    let key = to_string(&key_chars);
    proof {
        assert(key@ =~= redownload_key_spec(it@));
    }
    let download_url = match lookup_url(urls, &key) {
        Some(u) => u,
        None => {
            let u = String::from_str("https://bandcamp.com/download?from=collection&payment_id=")
                .concat(id_str.as_str()).concat("&sitem_id=").concat(id_str.as_str());
            proof {
                assert(u@ =~= fallback_url_spec(it@.sale_item_id));
            }
            u
        },
    };
    let is_hidden = match it.hidden {
        Some(h) => h,
        None => false,
    };
    let r = LibraryItem {
        id: id_str,
        item_type,
        title: it.item_title.clone(),
        artist: it.band_name.clone(),
        artist_id: to_string(&u64_to_chars(it.band_id)),
        artist_subdomain: match &it.artist_subdomain {
            Some(s) => Some(s.clone()),
            None => None,
        },
        slug: match &it.slug {
            Some(s) => Some(s.clone()),
            None => None,
        },
        item_url: match &it.item_url {
            Some(s) => Some(s.clone()),
            None => None,
        },
        download_url,
        available_formats: AudioFormat::all_formats(),
        is_preorder: it.is_preorder,
        is_hidden,
    };
    r
}

/// Index of the entry with this identifier, if one is present.
pub open spec fn find_id_spec(s: Seq<LibraryItemModel>, id: Seq<char>) -> Option<int>
    decreases s.len(),
{
    if s.len() == 0 {
        None
    } else if s[0].id == id {
        Some(0)
    } else {
        match find_id_spec(s.skip(1), id) {
            Some(j) => Some(j + 1),
            None => None,
        }
    }
}

/// Identifier-keyed insertion: an entry with the same identifier is
/// overwritten in place, a new identifier is appended.
pub open spec fn upsert_spec(s: Seq<LibraryItemModel>, it: LibraryItemModel) -> Seq<
    LibraryItemModel,
> {
    match find_id_spec(s, it.id) {
        Some(j) => s.update(j, it),
        None => s.push(it),
    }
}

/// Upserts, front first.
pub open spec fn upsert_run(s: Seq<LibraryItemModel>, cs: Seq<LibraryItemModel>) -> Seq<
    LibraryItemModel,
>
    decreases cs.len(),
{
    if cs.len() == 0 {
        s
    } else {
        upsert_run(upsert_spec(s, cs[0]), cs.skip(1))
    }
}

/// The converted items of one batch, in order.
pub open spec fn convs_of(
    items: Seq<RawItemModel>,
    urls: Seq<(Seq<char>, Seq<char>)>,
) -> Seq<LibraryItemModel> {
    items.map_values(|it: RawItemModel| convert_spec(it, urls))
}

/// The deduplicated collection under construction.
#[derive(Debug)]
pub struct CollectionState {
    pub items: Vec<LibraryItem>,
}

impl View for CollectionState {
    type V = Seq<LibraryItemModel>;

    open spec fn view(&self) -> Seq<LibraryItemModel> {
        self.items@.map_values(|it: LibraryItem| it@)
    }
}

impl CollectionState {
    pub fn new() -> (r: CollectionState)
        ensures
            r@ == Seq::<LibraryItemModel>::empty(),
    {
        let r = CollectionState { items: Vec::new() };
        proof {
            assert(r@ =~= Seq::<LibraryItemModel>::empty());
        }
        r
    }

    fn upsert(&mut self, it: LibraryItem)
        ensures
            final(self)@ == upsert_spec(old(self)@, it@),
    {
        let ghost pre = self@;
        let mut j: usize = 0;
        while j < self.items.len()
            invariant
                j <= self.items@.len(),
                self@ == pre,
                pre == old(self)@,
                forall|l: int| 0 <= l < j ==> pre[l].id != it@.id,
            decreases self.items@.len() - j,
        {
            if self.items[j].id == it.id {
                proof {
                    lemma_find_id_here(pre, it@.id, j as int);
                }
                self.items[j] = it;
                proof {
                    assert(self@ =~= pre.update(j as int, it@));
                }
                return ;
            }
            j += 1;
        }
        proof {
            lemma_find_id_none(pre, it@.id);
        }
        self.items.push(it);
        proof {
            assert(self@ =~= pre.push(it@));
        }
    }

    /// Folds one page's batch into the collection: each raw item is
    /// converted and upserted in order, so a duplicate identifier simply
    /// overwrites what an earlier page brought.
    pub fn apply_page(&mut self, page: &CollectionPage)
        ensures
            final(self)@ == upsert_run(old(self)@, convs_of(page@.items, page@.redownload_urls)),
    {
        let ghost convs = convs_of(page@.items, page@.redownload_urls);
        let mut k: usize = 0;
        proof {
            assert(convs.skip(0) =~= convs);
        }
        while k < page.items.len()
            invariant
                k <= page.items@.len(),
                convs == convs_of(page@.items, page@.redownload_urls),
                upsert_run(old(self)@, convs) == upsert_run(self@, convs.skip(k as int)),
            decreases page.items@.len() - k,
        {
            let it = convert_collection_item(&page.items[k], &page.redownload_urls);
            proof {
                assert(convs.skip(k as int)[0] == convs[k as int]);
                assert(convs[k as int] == it@);
                assert(convs.skip(k as int).skip(1) =~= convs.skip(k + 1));
            }
            self.upsert(it);
            k += 1;
        }
        proof {
            assert(convs.skip(k as int) =~= Seq::<LibraryItemModel>::empty());
        }
    }

    /// The collection fetched so far, handed over whole.
    pub fn into_items(self) -> (r: Vec<LibraryItem>)
        ensures
            r@.map_values(|it: LibraryItem| it@) == self@,
    {
        self.items
    }
}

/// An identifier occurs at most once.
pub open spec fn unique_ids(s: Seq<LibraryItemModel>) -> bool {
    forall|j: int, l: int| 0 <= j < l < s.len() ==> s[j].id != s[l].id
}

/// No later record carries the same identifier.
pub open spec fn is_last_occurrence(convs: Seq<LibraryItemModel>, k: int) -> bool {
    forall|l: int| k < l < convs.len() ==> (#[trigger] convs[l]).id != convs[k].id
}

/// The record at `j` is the last-seen occurrence of its identifier.
pub open spec fn retained_at(
    result: Seq<LibraryItemModel>,
    convs: Seq<LibraryItemModel>,
    j: int,
) -> bool {
    exists|k: int| 0 <= k < convs.len() && result[j] == #[trigger] convs[k] && is_last_occurrence(
        convs,
        k,
    )
}

/// Every retained record is the last-seen occurrence of its identifier.
pub open spec fn retained_from(
    result: Seq<LibraryItemModel>,
    convs: Seq<LibraryItemModel>,
) -> bool {
    forall|j: int| 0 <= j < result.len() ==> #[trigger] retained_at(result, convs, j)
}

/// Some record carries the identifier.
pub open spec fn has_id(result: Seq<LibraryItemModel>, id: Seq<char>) -> bool {
    exists|j: int| 0 <= j < result.len() && (#[trigger] result[j]).id == id
}

/// Every identifier that occurred is present.
pub open spec fn covers_all(result: Seq<LibraryItemModel>, convs: Seq<LibraryItemModel>) -> bool {
    forall|k: int| 0 <= k < convs.len() ==> has_id(result, (#[trigger] convs[k]).id)
}

/// The deduplication contract: each identifier exactly once, nothing
/// dropped, and the last-seen occurrence retained.
pub open spec fn dedup_ok(result: Seq<LibraryItemModel>, convs: Seq<LibraryItemModel>) -> bool {
    &&& unique_ids(result)
    &&& retained_from(result, convs)
    &&& covers_all(result, convs)
}

proof fn lemma_find_id_props(s: Seq<LibraryItemModel>, id: Seq<char>)
    ensures
        match find_id_spec(s, id) {
            Some(j) => 0 <= j < s.len() && s[j].id == id,
            None => forall|l: int| 0 <= l < s.len() ==> s[l].id != id,
        },
    decreases s.len(),
{
    if s.len() > 0 && s[0].id != id {
        lemma_find_id_props(s.skip(1), id);
        match find_id_spec(s.skip(1), id) {
            Some(j) => {
                assert(s.skip(1)[j] == s[j + 1]);
            },
            None => {
                assert forall|l: int| 0 <= l < s.len() implies s[l].id != id by {
                    if l > 0 {
                        assert(s.skip(1)[l - 1] == s[l]);
                    }
                }
            },
        }
    }
}

proof fn lemma_upsert_unique(r: Seq<LibraryItemModel>, c: LibraryItemModel)
    requires
        unique_ids(r),
    ensures
        unique_ids(upsert_spec(r, c)),
{
    let r2 = upsert_spec(r, c);
    lemma_find_id_props(r, c.id);
    match find_id_spec(r, c.id) {
        Some(j0) => {
            assert forall|j: int, l: int| 0 <= j < l < r2.len() implies r2[j].id != r2[l].id by {
                assert(r2[j].id == r[j].id);
                assert(r2[l].id == r[l].id);
            }
        },
        None => {
            assert forall|j: int, l: int| 0 <= j < l < r2.len() implies r2[j].id != r2[l].id by {
                if l < r.len() {
                    assert(r2[j] == r[j] && r2[l] == r[l]);
                } else {
                    assert(r2[j] == r[j] && r2[l] == c);
                }
            }
        },
    }
}

proof fn lemma_upsert_retained(
    r: Seq<LibraryItemModel>,
    cs: Seq<LibraryItemModel>,
    c: LibraryItemModel,
)
    requires
        unique_ids(r),
        retained_from(r, cs),
    ensures
        retained_from(upsert_spec(r, c), cs.push(c)),
{
    let r2 = upsert_spec(r, c);
    let cs2 = cs.push(c);
    lemma_find_id_props(r, c.id);
    let appended = find_id_spec(r, c.id) is None;
    let j0: int = if appended {
        r.len() as int
    } else {
        find_id_spec(r, c.id).unwrap()
    };
    assert forall|j: int| 0 <= j < r2.len() implies #[trigger] retained_at(r2, cs2, j) by {
        if j == j0 {
            let kk = cs.len() as int;
            assert(cs2[kk] == c);
            assert(r2[j] == c);
            assert(is_last_occurrence(cs2, kk));
        } else {
            assert(r2[j] == r[j]);
            assert(retained_at(r, cs, j));
            let kk = choose|k: int|
                0 <= k < cs.len() && r[j] == #[trigger] cs[k] && is_last_occurrence(cs, k);
            assert(cs2[kk] == cs[kk]);
            assert(r[j].id != c.id) by {
                if appended {
                } else {
                    if j < j0 {
                        assert(r[j].id != r[j0].id);
                    } else {
                        assert(r[j0].id != r[j].id);
                    }
                }
            }
            assert(is_last_occurrence(cs2, kk)) by {
                assert forall|l: int| kk < l < cs2.len() implies (#[trigger] cs2[l]).id
                    != cs2[kk].id by {
                    if l < cs.len() {
                        assert(cs2[l] == cs[l]);
                        assert(is_last_occurrence(cs, kk));
                        assert(cs[l].id != cs[kk].id);
                    } else {
                        assert(cs2[l] == c);
                    }
                }
            }
            assert(0 <= kk < cs2.len() && r2[j] == cs2[kk] && is_last_occurrence(cs2, kk));
        }
    }
}

proof fn lemma_upsert_covers(
    r: Seq<LibraryItemModel>,
    cs: Seq<LibraryItemModel>,
    c: LibraryItemModel,
)
    requires
        covers_all(r, cs),
    ensures
        covers_all(upsert_spec(r, c), cs.push(c)),
{
    let r2 = upsert_spec(r, c);
    let cs2 = cs.push(c);
    lemma_find_id_props(r, c.id);
    let appended = find_id_spec(r, c.id) is None;
    let j0: int = if appended {
        r.len() as int
    } else {
        find_id_spec(r, c.id).unwrap()
    };
    assert(r2[j0] == c);
    assert forall|k: int| 0 <= k < cs2.len() implies has_id(r2, (#[trigger] cs2[k]).id) by {
        if k < cs.len() {
            assert(cs2[k] == cs[k]);
            assert(has_id(r, cs[k].id));
            let j = choose|j: int| 0 <= j < r.len() && (#[trigger] r[j]).id == cs[k].id;
            if j == j0 {
                assert(r2[j0].id == c.id);
                assert(r[j0].id == c.id);
                assert(r2[j0].id == cs2[k].id);
            } else {
                assert(r2[j] == r[j]);
            }
        } else {
            assert(cs2[k] == c);
            assert(r2[j0].id == c.id);
        }
    }
}

/// One upsert keeps the deduplication contract, the new record becoming
/// the last-seen occurrence of its identifier.
proof fn lemma_upsert_keeps_dedup(
    r: Seq<LibraryItemModel>,
    cs: Seq<LibraryItemModel>,
    c: LibraryItemModel,
)
    requires
        dedup_ok(r, cs),
    ensures
        dedup_ok(upsert_spec(r, c), cs.push(c)),
{
    lemma_upsert_unique(r, c);
    lemma_upsert_retained(r, cs, c);
    lemma_upsert_covers(r, cs, c);
}

/// Appending one record to the batch is one more upsert at the end.
proof fn lemma_upsert_run_push(
    s: Seq<LibraryItemModel>,
    cs: Seq<LibraryItemModel>,
    c: LibraryItemModel,
)
    ensures
        upsert_run(s, cs.push(c)) == upsert_spec(upsert_run(s, cs), c),
    decreases cs.len(),
{
    if cs.len() == 0 {
        assert(cs.push(c)[0] == c);
        assert(cs.push(c).skip(1) =~= Seq::<LibraryItemModel>::empty());
        assert(upsert_run(s, cs.push(c)) == upsert_run(upsert_spec(s, c), cs.push(c).skip(1)));
        assert(upsert_run(upsert_spec(s, c), cs.push(c).skip(1)) == upsert_spec(s, c));
    } else {
        assert(cs.push(c)[0] == cs[0]);
        assert(cs.push(c).skip(1) =~= cs.skip(1).push(c));
        lemma_upsert_run_push(upsert_spec(s, cs[0]), cs.skip(1), c);
        assert(upsert_run(s, cs.push(c)) == upsert_run(upsert_spec(s, cs[0]), cs.skip(1).push(c)));
        assert(upsert_run(s, cs) == upsert_run(upsert_spec(s, cs[0]), cs.skip(1)));
    }
}

/// Pagination dedup: folding any batch of converted records into an empty
/// collection, in order, yields a collection that holds each sale-item
/// identifier exactly once, holds every identifier the batch brought, and
/// retains for each identifier exactly the record of its last-seen
/// occurrence.
pub proof fn lemma_pagination_dedup(cs: Seq<LibraryItemModel>)
    ensures
        dedup_ok(upsert_run(Seq::<LibraryItemModel>::empty(), cs), cs),
    decreases cs.len(),
{
    if cs.len() == 0 {
    } else {
        let front = cs.drop_last();
        lemma_pagination_dedup(front);
        lemma_upsert_run_push(Seq::<LibraryItemModel>::empty(), front, cs.last());
        assert(front.push(cs.last()) =~= cs);
        lemma_upsert_keeps_dedup(
            upsert_run(Seq::<LibraryItemModel>::empty(), front),
            front,
            cs.last(),
        );
    }
}

/// Folding one page after another into an empty collection honors the
/// deduplication contract over both batches together: each identifier
/// once, nothing dropped, later page's records overwriting the earlier
/// page's.
pub proof fn lemma_two_pages_dedup(a: Seq<LibraryItemModel>, b: Seq<LibraryItemModel>)
    ensures
        dedup_ok(upsert_run(upsert_run(Seq::<LibraryItemModel>::empty(), a), b), a + b),
{
    lemma_upsert_run_concat(Seq::<LibraryItemModel>::empty(), a, b);
    lemma_pagination_dedup(a + b);
}

/// Upserting two batches one after the other is upserting their
/// concatenation: a later page's records overwrite an earlier page's.
pub proof fn lemma_upsert_run_concat(
    s: Seq<LibraryItemModel>,
    a: Seq<LibraryItemModel>,
    b: Seq<LibraryItemModel>,
)
    ensures
        upsert_run(s, a + b) == upsert_run(upsert_run(s, a), b),
    decreases a.len(),
{
    if a.len() == 0 {
        assert(a + b =~= b);
    } else {
        assert((a + b)[0] == a[0]);
        assert((a + b).skip(1) =~= a.skip(1) + b);
        lemma_upsert_run_concat(upsert_spec(s, a[0]), a.skip(1), b);
    }
}

/// What to do after a page: continue with the next continuation token, or
/// stop.
#[derive(Debug)]
pub enum NextPage {
    Continue { token: String },
    Done,
}

/// The fetch continues exactly while the page reports more available and
/// supplies a next token.
pub fn next_page_decision(page: &CollectionPage) -> (r: NextPage)
    ensures
        match r {
            NextPage::Continue { token } => page@.more_available && page@.last_token == Some(
                token@,
            ),
            NextPage::Done => !page@.more_available || page@.last_token is None,
        },
{
    if page.more_available {
        match &page.last_token {
            Some(t) => NextPage::Continue { token: t.clone() },
            None => NextPage::Done,
        }
    } else {
        NextPage::Done
    }
}

/// The continuation token for the first request: a timestamp one day in
/// the future, so the most recent page comes first.
pub open spec fn initial_token_spec(now_unix: int) -> Seq<char> {
    dec_chars((now_unix + 86400) as nat) + "::a::"@
}

pub fn initial_token(now_unix: i64) -> (r: String)
    requires
        0 <= now_unix <= i64::MAX - 86400,
    ensures
        r@ == initial_token_spec(now_unix as int),
{
    let n: u64 = (now_unix + 86400) as u64;
    let digits = u64_to_chars(n);
    let ds = to_string(&digits);
    ds.concat("::a::")
}

/// The numeric account id a credential's text denotes: its decimal value,
/// or zero where the text is empty, non-decimal, or too large.
pub open spec fn fan_id_number_spec(s: Seq<char>) -> u64 {
    if s.len() > 0 && all_digits(s) && digits_to_nat(s) <= u64::MAX {
        digits_to_nat(s) as u64
    } else {
        0
    }
}

pub fn fan_id_number(s: &str) -> (r: u64)
    ensures
        r == fan_id_number_spec(s@),
{
    let v = to_chars(s);
    if v.len() == 0 {
        return 0;
    }
    let mut k: usize = 0;
    while k < v.len()
        invariant
            k <= v@.len(),
            v@ == s@,
            forall|l: int| 0 <= l < k ==> crate::digits::is_digit_char(v@[l]),
        decreases v@.len() - k,
    {
        let c = v[k];
        let cv: u32 = c as u32;
        if cv < 48 || cv > 57 {
            return 0;
        }
        k += 1;
    }
    match parse_u64_digits(&v) {
        Some(n) => n,
        None => 0,
    }
}

/// Backslash and double-quote escaping for embedding text in a JSON
/// string literal.
pub open spec fn json_escape_spec(s: Seq<char>) -> Seq<char> {
    crate::chars::replace_all_spec(
        crate::chars::replace_all_spec(s, "\\"@, "\\\\"@),
        "\""@,
        "\\\""@,
    )
}

/// The request body for one collection page.
pub open spec fn request_body_spec(fan_id: u64, token: Seq<char>) -> Seq<char> {
    "{\"fan_id\":"@ + dec_chars(fan_id as nat) + ",\"count\":100,\"older_than_token\":\""@
        + json_escape_spec(token) + "\"}"@
}

pub fn collection_request_body(fan_id: u64, token: &str) -> (r: String)
    ensures
        r@ == request_body_spec(fan_id, token@),
{
    proof {
        reveal_strlit("\\");
        reveal_strlit("\"");
    }
    let tc = to_chars(token);
    let p1 = to_chars("\\");
    let r1 = to_chars("\\\\");
    let e1 = crate::chars::replace_all(&tc, &p1, &r1);
    let p2 = to_chars("\"");
    let r2 = to_chars("\\\"");
    let e2 = crate::chars::replace_all(&e1, &p2, &r2);
    let escaped = to_string(&e2);
    let digits = to_string(&u64_to_chars(fan_id));
    String::from_str("{\"fan_id\":").concat(digits.as_str()).concat(
        ",\"count\":100,\"older_than_token\":\"",
    ).concat(escaped.as_str()).concat("\"}")
}

/// The error a non-success collection status maps to: a 401 ends the
/// session, a 503 reports the service unavailable, anything else is a
/// network error naming the status.
pub fn collection_status_error(status: u16) -> (r: BandcampError)
    requires
        !crate::resolver::status_success(status),
    ensures
        status == 401 ==> r@ == crate::errors::ErrorModel::SessionExpired,
        status == 503 ==> r@ == crate::errors::ErrorModel::ServiceUnavailable,
        status != 401 && status != 503 ==> r@ == crate::errors::ErrorModel::Network(
            "HTTP "@ + dec_chars(status as nat),
        ),
{
    if status == 401 {
        BandcampError::SessionExpired
    } else if status == 503 {
        BandcampError::ServiceUnavailable
    } else {
        let digits = to_string(&u64_to_chars(status as u64));
        BandcampError::NetworkError(String::from_str("HTTP ").concat(digits.as_str()))
    }
}

/// The page's more-available flag, as `serde_json` reads it: `Some` only
/// when the body is JSON with a boolean there. A function of the text
/// alone, as are all the collection-page lookups below.
pub uninterp spec fn page_more_available_of(body: Seq<char>) -> Option<bool>;

/// Relies on `serde_json::from_str` and the `Value` accessors `get` and
/// `as_bool`: the boolean under `more_available`.
#[verifier::external_body]
fn pg_more_available(body: &str) -> (r: Option<bool>)
    ensures
        r == page_more_available_of(body@),
{
    let v: serde_json::Value = serde_json::from_str(body).ok()?;
    v.get("more_available")?.as_bool()
}

/// The page's continuation token, when one is present.
pub uninterp spec fn page_last_token_of(body: Seq<char>) -> Option<Seq<char>>;

/// Relies on `serde_json::from_str` and the `Value` accessors `get` and
/// `as_str`: the string under `last_token`.
#[verifier::external_body]
fn pg_last_token(body: &str) -> (r: Option<String>)
    ensures
        match r {
            Some(t) => page_last_token_of(body@) == Some(t@),
            None => page_last_token_of(body@) is None,
        },
{
    let v: serde_json::Value = serde_json::from_str(body).ok()?;
    Some(v.get("last_token")?.as_str()?.to_string())
}

/// How many raw items the page carries, when `items` is an array.
pub uninterp spec fn page_items_len_of(body: Seq<char>) -> Option<usize>;

/// Relies on `serde_json::from_str` and the `Value` accessors `get` and
/// `as_array`: the length of the `items` array.
#[verifier::external_body]
fn pg_items_len(body: &str) -> (r: Option<usize>)
    ensures
        r == page_items_len_of(body@),
{
    let v: serde_json::Value = serde_json::from_str(body).ok()?;
    Some(v.get("items")?.as_array()?.len())
}

/// The sale item id of the `i`-th raw item.
pub uninterp spec fn item_sale_id_of(body: Seq<char>, i: int) -> Option<u64>;

/// Relies on `serde_json::from_str` and the `Value` accessors `get` and
/// `as_u64`: the number under `items[i].sale_item_id`.
#[verifier::external_body]
fn it_sale_id(body: &str, i: usize) -> (r: Option<u64>)
    ensures
        r == item_sale_id_of(body@, i as int),
{
    let v: serde_json::Value = serde_json::from_str(body).ok()?;
    v.get("items")?.get(i)?.get("sale_item_id")?.as_u64()
}

/// The sale item type letter of the `i`-th raw item.
pub uninterp spec fn item_sale_type_of(body: Seq<char>, i: int) -> Option<Seq<char>>;

/// Relies on `serde_json::from_str` and the `Value` accessors `get` and
/// `as_str`: the string under `items[i].sale_item_type`.
#[verifier::external_body]
fn it_sale_type(body: &str, i: usize) -> (r: Option<String>)
    ensures
        match r {
            Some(t) => item_sale_type_of(body@, i as int) == Some(t@),
            None => item_sale_type_of(body@, i as int) is None,
        },
{
    let v: serde_json::Value = serde_json::from_str(body).ok()?;
    Some(v.get("items")?.get(i)?.get("sale_item_type")?.as_str()?.to_string())
}

/// The band name of the `i`-th raw item.
pub uninterp spec fn item_band_name_of(body: Seq<char>, i: int) -> Option<Seq<char>>;

/// Relies on `serde_json::from_str` and the `Value` accessors `get` and
/// `as_str`: the string under `items[i].band_name`.
#[verifier::external_body]
fn it_band_name(body: &str, i: usize) -> (r: Option<String>)
    ensures
        match r {
            Some(t) => item_band_name_of(body@, i as int) == Some(t@),
            None => item_band_name_of(body@, i as int) is None,
        },
{
    let v: serde_json::Value = serde_json::from_str(body).ok()?;
    Some(v.get("items")?.get(i)?.get("band_name")?.as_str()?.to_string())
}

/// The title of the `i`-th raw item.
pub uninterp spec fn item_title_of(body: Seq<char>, i: int) -> Option<Seq<char>>;

/// Relies on `serde_json::from_str` and the `Value` accessors `get` and
/// `as_str`: the string under `items[i].item_title`.
#[verifier::external_body]
fn it_title(body: &str, i: usize) -> (r: Option<String>)
    ensures
        match r {
            Some(t) => item_title_of(body@, i as int) == Some(t@),
            None => item_title_of(body@, i as int) is None,
        },
{
    let v: serde_json::Value = serde_json::from_str(body).ok()?;
    Some(v.get("items")?.get(i)?.get("item_title")?.as_str()?.to_string())
}

/// The band id of the `i`-th raw item.
pub uninterp spec fn item_band_id_of(body: Seq<char>, i: int) -> Option<u64>;

/// Relies on `serde_json::from_str` and the `Value` accessors `get` and
/// `as_u64`: the number under `items[i].band_id`.
#[verifier::external_body]
fn it_band_id(body: &str, i: usize) -> (r: Option<u64>)
    ensures
        r == item_band_id_of(body@, i as int),
{
    let v: serde_json::Value = serde_json::from_str(body).ok()?;
    v.get("items")?.get(i)?.get("band_id")?.as_u64()
}

/// The tralbum type letter of the `i`-th raw item.
pub uninterp spec fn item_tralbum_type_of(body: Seq<char>, i: int) -> Option<Seq<char>>;

/// Relies on `serde_json::from_str` and the `Value` accessors `get` and
/// `as_str`: the string under `items[i].tralbum_type`.
#[verifier::external_body]
fn it_tralbum_type(body: &str, i: usize) -> (r: Option<String>)
    ensures
        match r {
            Some(t) => item_tralbum_type_of(body@, i as int) == Some(t@),
            None => item_tralbum_type_of(body@, i as int) is None,
        },
{
    let v: serde_json::Value = serde_json::from_str(body).ok()?;
    Some(v.get("items")?.get(i)?.get("tralbum_type")?.as_str()?.to_string())
}

/// The preorder flag of the `i`-th raw item, where the page carries one.
pub uninterp spec fn item_preorder_of(body: Seq<char>, i: int) -> Option<bool>;

/// Relies on `serde_json::from_str` and the `Value` accessors `get` and
/// `as_bool`: the boolean under `items[i].is_preorder`.
#[verifier::external_body]
fn it_preorder(body: &str, i: usize) -> (r: Option<bool>)
    ensures
        r == item_preorder_of(body@, i as int),
{
    let v: serde_json::Value = serde_json::from_str(body).ok()?;
    v.get("items")?.get(i)?.get("is_preorder")?.as_bool()
}

/// The hidden flag of the `i`-th raw item, where the page carries one.
pub uninterp spec fn item_hidden_of(body: Seq<char>, i: int) -> Option<bool>;

/// Relies on `serde_json::from_str` and the `Value` accessors `get` and
/// `as_bool`: the boolean under `items[i].hidden`.
#[verifier::external_body]
fn it_hidden(body: &str, i: usize) -> (r: Option<bool>)
    ensures
        r == item_hidden_of(body@, i as int),
{
    let v: serde_json::Value = serde_json::from_str(body).ok()?;
    v.get("items")?.get(i)?.get("hidden")?.as_bool()
}

/// The artist subdomain hint of the `i`-th raw item, where one is given.
pub uninterp spec fn item_subdomain_of(body: Seq<char>, i: int) -> Option<Seq<char>>;

/// Relies on `serde_json::from_str` and the `Value` accessors `get` and
/// `as_str`: the string under `items[i].url_hints.subdomain`.
#[verifier::external_body]
fn it_subdomain(body: &str, i: usize) -> (r: Option<String>)
    ensures
        match r {
            Some(t) => item_subdomain_of(body@, i as int) == Some(t@),
            None => item_subdomain_of(body@, i as int) is None,
        },
{
    let v: serde_json::Value = serde_json::from_str(body).ok()?;
    Some(v.get("items")?.get(i)?.get("url_hints")?.get("subdomain")?.as_str()?.to_string())
}

/// The slug hint of the `i`-th raw item, where one is given.
pub uninterp spec fn item_slug_of(body: Seq<char>, i: int) -> Option<Seq<char>>;

/// Relies on `serde_json::from_str` and the `Value` accessors `get` and
/// `as_str`: the string under `items[i].url_hints.slug`.
#[verifier::external_body]
fn it_slug(body: &str, i: usize) -> (r: Option<String>)
    ensures
        match r {
            Some(t) => item_slug_of(body@, i as int) == Some(t@),
            None => item_slug_of(body@, i as int) is None,
        },
{
    let v: serde_json::Value = serde_json::from_str(body).ok()?;
    Some(v.get("items")?.get(i)?.get("url_hints")?.get("slug")?.as_str()?.to_string())
}

/// The full item URL of the `i`-th raw item, where the page carries one.
pub uninterp spec fn item_url_field_of(body: Seq<char>, i: int) -> Option<Seq<char>>;

/// Relies on `serde_json::from_str` and the `Value` accessors `get` and
/// `as_str`: the string under `items[i].item_url`.
#[verifier::external_body]
fn it_item_url(body: &str, i: usize) -> (r: Option<String>)
    ensures
        match r {
            Some(t) => item_url_field_of(body@, i as int) == Some(t@),
            None => item_url_field_of(body@, i as int) is None,
        },
{
    let v: serde_json::Value = serde_json::from_str(body).ok()?;
    Some(v.get("items")?.get(i)?.get("item_url")?.as_str()?.to_string())
}

/// The pre-signed redownload URL under the composite key, where the page
/// carries one.
pub uninterp spec fn redownload_url_of(body: Seq<char>, key: Seq<char>) -> Option<Seq<char>>;

/// Relies on `serde_json::from_str` and the `Value` accessors `get` and
/// `as_str`: the string under `redownload_urls.<key>`.
#[verifier::external_body]
fn rd_lookup(body: &str, key: &str) -> (r: Option<String>)
    ensures
        match r {
            Some(u) => redownload_url_of(body@, key@) == Some(u@),
            None => redownload_url_of(body@, key@) is None,
        },
{
    let v: serde_json::Value = serde_json::from_str(body).ok()?;
    Some(v.get("redownload_urls")?.get(key)?.as_str()?.to_string())
}

/// The `i`-th raw item a body decodes to: present exactly when the six
/// required fields are; the optional fields default as the platform's
/// responses leave them out.
pub open spec fn raw_item_of(body: Seq<char>, i: int) -> Option<RawItemModel> {
    if item_sale_id_of(body, i) is Some && item_sale_type_of(body, i) is Some && item_band_name_of(
        body,
        i,
    ) is Some && item_title_of(body, i) is Some && item_band_id_of(body, i) is Some
        && item_tralbum_type_of(body, i) is Some {
        Some(
            RawItemModel {
                sale_item_id: item_sale_id_of(body, i).unwrap(),
                sale_item_type: item_sale_type_of(body, i).unwrap(),
                band_name: item_band_name_of(body, i).unwrap(),
                item_title: item_title_of(body, i).unwrap(),
                band_id: item_band_id_of(body, i).unwrap(),
                tralbum_type: item_tralbum_type_of(body, i).unwrap(),
                is_preorder: match item_preorder_of(body, i) {
                    Some(b) => b,
                    None => false,
                },
                hidden: item_hidden_of(body, i),
                artist_subdomain: item_subdomain_of(body, i),
                slug: item_slug_of(body, i),
                item_url: item_url_field_of(body, i),
            },
        )
    } else {
        None
    }
}

/// Every raw item up to `n` decodes.
pub open spec fn page_items_ok(body: Seq<char>, n: int) -> bool {
    forall|i: int| 0 <= i < n ==> raw_item_of(body, i) is Some
}

/// The raw items a body decodes to, in order.
pub open spec fn page_items_seq(body: Seq<char>, n: int) -> Seq<RawItemModel> {
    Seq::new(n as nat, |i: int| raw_item_of(body, i).unwrap())
}

/// The redownload pairs a body yields for its first `n` items: each
/// item's composite key looked up in the page's map, hits in item order.
pub open spec fn page_redownload_pairs(body: Seq<char>, n: int) -> Seq<(Seq<char>, Seq<char>)>
    decreases n,
{
    if n <= 0 {
        Seq::empty()
    } else {
        let rest = page_redownload_pairs(body, n - 1);
        match raw_item_of(body, n - 1) {
            Some(it) => match redownload_url_of(body, redownload_key_spec(it)) {
                Some(u) => rest.push((redownload_key_spec(it), u)),
                None => rest,
            },
            None => rest,
        }
    }
}

/// The page a body decodes to: present exactly when the body is JSON with
/// a boolean more-available flag, an items array, and every item's
/// required fields.
pub open spec fn page_of(body: Seq<char>) -> Option<CollectionPageModel> {
    match (page_more_available_of(body), page_items_len_of(body)) {
        (Some(m), Some(n)) => if page_items_ok(body, n as int) {
            Some(
                CollectionPageModel {
                    items: page_items_seq(body, n as int),
                    more_available: m,
                    last_token: page_last_token_of(body),
                    redownload_urls: page_redownload_pairs(body, n as int),
                },
            )
        } else {
            None
        },
        _ => None,
    }
}

/// Decodes one collection response body, exactly as `page_of` gives it: a
/// body that does not decode whole — not JSON, no boolean more-available
/// flag, no items array, or any item missing a required field — is a
/// parse error with its exact text, and no partial page survives.
pub fn parse_collection_page(body: &str) -> (r: Result<CollectionPage, BandcampError>)
    ensures
        r is Ok <==> page_of(body@) is Some,
        r matches Ok(p) ==> page_of(body@) == Some(p@),
        r matches Err(e) ==> e matches BandcampError::ParseError(m) && m@
            == "Failed to parse collection response"@,
{
    let more_available = match pg_more_available(body) {
        Some(b) => b,
        None => {
            return Err(
                BandcampError::ParseError(String::from_str("Failed to parse collection response")),
            );
        },
    };
    let n = match pg_items_len(body) {
        Some(n) => n,
        None => {
            return Err(
                BandcampError::ParseError(String::from_str("Failed to parse collection response")),
            );
        },
    };
    let last_token = pg_last_token(body);
    let mut items: Vec<RawItem> = Vec::new();
    let mut redownload_urls: Vec<(String, String)> = Vec::new();
    let mut idx: usize = 0;
    while idx < n
        invariant
            idx <= n,
            page_more_available_of(body@) == Some(more_available),
            page_items_len_of(body@) == Some(n),
            items@.len() == idx,
            forall|j: int| 0 <= j < idx ==> (#[trigger] raw_item_of(body@, j)) is Some,
            forall|j: int|
                0 <= j < idx ==> (#[trigger] items@[j])@ == raw_item_of(body@, j).unwrap(),
            pairs_model(redownload_urls@) == page_redownload_pairs(body@, idx as int),
        decreases n - idx,
    {
        let sale_item_id = match it_sale_id(body, idx) {
            Some(x) => x,
            None => {
                proof {
                    assert(raw_item_of(body@, idx as int) is None);
                    assert(!page_items_ok(body@, n as int));
                }
                return Err(
                    BandcampError::ParseError(
                        String::from_str("Failed to parse collection response"),
                    ),
                );
            },
        };
        let sale_item_type = match it_sale_type(body, idx) {
            Some(x) => x,
            None => {
                proof {
                    assert(raw_item_of(body@, idx as int) is None);
                    assert(!page_items_ok(body@, n as int));
                }
                return Err(
                    BandcampError::ParseError(
                        String::from_str("Failed to parse collection response"),
                    ),
                );
            },
        };
        let band_name = match it_band_name(body, idx) {
            Some(x) => x,
            None => {
                proof {
                    assert(raw_item_of(body@, idx as int) is None);
                    assert(!page_items_ok(body@, n as int));
                }
                return Err(
                    BandcampError::ParseError(
                        String::from_str("Failed to parse collection response"),
                    ),
                );
            },
        };
        let item_title = match it_title(body, idx) {
            Some(x) => x,
            None => {
                proof {
                    assert(raw_item_of(body@, idx as int) is None);
                    assert(!page_items_ok(body@, n as int));
                }
                return Err(
                    BandcampError::ParseError(
                        String::from_str("Failed to parse collection response"),
                    ),
                );
            },
        };
        let band_id = match it_band_id(body, idx) {
            Some(x) => x,
            None => {
                proof {
                    assert(raw_item_of(body@, idx as int) is None);
                    assert(!page_items_ok(body@, n as int));
                }
                return Err(
                    BandcampError::ParseError(
                        String::from_str("Failed to parse collection response"),
                    ),
                );
            },
        };
        let tralbum_type = match it_tralbum_type(body, idx) {
            Some(x) => x,
            None => {
                proof {
                    assert(raw_item_of(body@, idx as int) is None);
                    assert(!page_items_ok(body@, n as int));
                }
                return Err(
                    BandcampError::ParseError(
                        String::from_str("Failed to parse collection response"),
                    ),
                );
            },
        };
        let is_preorder = match it_preorder(body, idx) {
            Some(b) => b,
            None => false,
        };
        let hidden = it_hidden(body, idx);
        let artist_subdomain = it_subdomain(body, idx);
        let slug = it_slug(body, idx);
        let item_url = it_item_url(body, idx);
        let it = RawItem {
            sale_item_id,
            sale_item_type,
            band_name,
            item_title,
            band_id,
            tralbum_type,
            is_preorder,
            hidden,
            artist_subdomain,
            slug,
            item_url,
        };
        proof {
            assert(raw_item_of(body@, idx as int) == Some(it@));
        }
        let id_digits = u64_to_chars(it.sale_item_id);
        let mut key_chars = to_chars(it.sale_item_type.as_str());
        append_all(&mut key_chars, &id_digits);
        let key = to_string(&key_chars);
        proof {
            assert(key@ =~= redownload_key_spec(it@));
        }
        match rd_lookup(body, key.as_str()) {
            Some(u) => {
                redownload_urls.push((key, u));
                proof {
                    assert(pairs_model(redownload_urls@) =~= pairs_model(
                        redownload_urls@.drop_last(),
                    ).push((redownload_key_spec(it@), u@)));
                }
            },
            None => {},
        }
        let ghost pre_items = items@;
        items.push(it);
        proof {
            assert(items@ == pre_items.push(it));
            assert forall|j: int|
                0 <= j < idx + 1 implies (#[trigger] raw_item_of(body@, j)) is Some by {
                if j == idx {
                    assert(raw_item_of(body@, j) == Some(it@));
                }
            }
            assert forall|j: int|
                0 <= j < idx + 1 implies (#[trigger] items@[j])@ == raw_item_of(
                body@,
                j,
            ).unwrap() by {
                if j < idx {
                    assert(pre_items.push(it)[j] == pre_items[j]);
                    assert(pre_items[j]@ == raw_item_of(body@, j).unwrap());
                } else {
                    assert(pre_items.push(it)[j] == it);
                    assert(raw_item_of(body@, j) == Some(it@));
                }
            }
        }
        idx += 1;
    }
    proof {
        assert(page_items_ok(body@, n as int));
        assert(items@.map_values(|it: RawItem| it@).len() == n);
        assert(page_items_seq(body@, n as int).len() == n);
        assert forall|j: int|
            0 <= j < n implies items@.map_values(|it: RawItem| it@)[j] == page_items_seq(
            body@,
            n as int,
        )[j] by {
            assert(items@[j]@ == raw_item_of(body@, j).unwrap());
            assert(items@.map_values(|it: RawItem| it@)[j] == items@[j]@);
            assert(page_items_seq(body@, n as int)[j] == raw_item_of(body@, j).unwrap());
        }
        assert(items@.map_values(|it: RawItem| it@) =~= page_items_seq(body@, n as int));
    }
    let page = CollectionPage { items, more_available, last_token, redownload_urls };
    proof {
        assert(page@.items == page_items_seq(body@, n as int));
        assert(page_of(body@) == Some(page@));
    }
    Ok(page)
}

proof fn lemma_find_id_here(s: Seq<LibraryItemModel>, id: Seq<char>, j: int)
    requires
        0 <= j < s.len(),
        s[j].id == id,
        forall|l: int| 0 <= l < j ==> s[l].id != id,
    ensures
        find_id_spec(s, id) == Some(j),
    decreases j,
{
    if j == 0 {
    } else {
        assert(s.skip(1)[j - 1] == s[j]);
        assert forall|l: int| 0 <= l < j - 1 implies s.skip(1)[l].id != id by {
            assert(s.skip(1)[l] == s[l + 1]);
        }
        lemma_find_id_here(s.skip(1), id, j - 1);
    }
}

proof fn lemma_find_id_none(s: Seq<LibraryItemModel>, id: Seq<char>)
    requires
        forall|l: int| 0 <= l < s.len() ==> s[l].id != id,
    ensures
        find_id_spec(s, id) is None,
    decreases s.len(),
{
    if s.len() > 0 {
        assert forall|l: int| 0 <= l < s.skip(1).len() implies s.skip(1)[l].id != id by {
            assert(s.skip(1)[l] == s[l + 1]);
        }
        lemma_find_id_none(s.skip(1), id);
    }
}

} // verus!
