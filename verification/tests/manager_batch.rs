use bannedcamp::errors::BandcampError;
use bannedcamp::formats::{AudioFormat, ItemType};
use bannedcamp::item::LibraryItem;
use bannedcamp::manager::{asset_status_error, summarize, DownloadBatch, ItemOutcome};

fn item(id: &str, title: &str) -> LibraryItem {
    LibraryItem {
        id: id.to_string(),
        item_type: ItemType::Album,
        title: title.to_string(),
        artist: "Artist".to_string(),
        artist_id: "9".to_string(),
        artist_subdomain: None,
        slug: None,
        item_url: None,
        download_url: "https://h.example/download/x".to_string(),
        available_formats: vec![AudioFormat::Flac],
        is_preorder: false,
        is_hidden: false,
    }
}

#[test]
fn admission_never_exceeds_parallelism() {
    let mut b = DownloadBatch::new(5, 2);
    assert_eq!(b.remaining, 5);
    assert_eq!(b.start_next(), Some(0));
    assert_eq!(b.start_next(), Some(1));
    assert!(b.in_flight <= b.parallel);
    // no free slot: a third worker may not start
    assert_eq!(b.start_next(), None);
    b.finish_one();
    assert_eq!(b.remaining, 4);
    assert_eq!(b.start_next(), Some(2));
    assert!(b.in_flight <= b.parallel);
    assert_eq!(b.start_next(), None);
    b.finish_one();
    b.finish_one();
    assert_eq!(b.start_next(), Some(3));
    assert_eq!(b.start_next(), Some(4));
    assert_eq!(b.start_next(), None);
    b.finish_one();
    b.finish_one();
    assert!(b.is_done());
    assert_eq!(b.remaining, 0);
}

#[test]
fn remaining_counts_down_per_finish_whatever_the_outcome() {
    let mut b = DownloadBatch::new(2, 1);
    assert_eq!(b.start_next(), Some(0));
    b.finish_one();
    assert_eq!(b.remaining, 1);
    assert_eq!(b.start_next(), Some(1));
    b.finish_one();
    assert_eq!(b.remaining, 0);
    assert!(b.is_done());
}

#[test]
fn one_failure_isolated_from_batch() {
    let items = vec![item("1", "First"), item("2", "Second"), item("3", "Third")];
    let results = vec![
        ItemOutcome::Success { path: "out/First".to_string() },
        ItemOutcome::Failure { error: "HTTP 403".to_string() },
        ItemOutcome::Success { path: "out/Third".to_string() },
    ];
    let summary = summarize(&items, &results);
    assert_eq!(summary.success_count(), 2);
    assert_eq!(summary.failure_count(), 1);
    assert_eq!(summary.total(), 3);
    // the failing item's error text references its own title
    assert_eq!(summary.failed[0].0.id, "2");
    assert!(summary.failed[0].1.contains("Second"));
    assert_eq!(summary.failed[0].1, "Second: HTTP 403");
}

#[test]
fn summary_keeps_item_order_and_paths() {
    let items = vec![item("1", "A"), item("2", "B")];
    let results = vec![
        ItemOutcome::Success { path: "out/A".to_string() },
        ItemOutcome::Success { path: "out/B".to_string() },
    ];
    let summary = summarize(&items, &results);
    assert_eq!(summary.succeeded.len(), 2);
    assert_eq!(summary.succeeded[0].0.id, "1");
    assert_eq!(summary.succeeded[0].1, "out/A");
    assert_eq!(summary.succeeded[1].0.id, "2");
    assert_eq!(summary.succeeded[1].1, "out/B");
    assert_eq!(summary.failed.len(), 0);
}

#[test]
fn every_item_lands_in_exactly_one_list() {
    let items = vec![item("1", "A"), item("2", "B"), item("3", "C"), item("4", "D")];
    let results = vec![
        ItemOutcome::Failure { error: "x".to_string() },
        ItemOutcome::Success { path: "p".to_string() },
        ItemOutcome::Failure { error: "y".to_string() },
        ItemOutcome::Success { path: "q".to_string() },
    ];
    let summary = summarize(&items, &results);
    assert_eq!(summary.success_count() + summary.failure_count(), items.len());
    let mut seen: Vec<String> = summary
        .succeeded
        .iter()
        .map(|p| p.0.id.clone())
        .chain(summary.failed.iter().map(|p| p.0.id.clone()))
        .collect();
    seen.sort();
    assert_eq!(seen, vec!["1", "2", "3", "4"]);
}

#[test]
fn asset_error_names_the_status() {
    assert_eq!(
        asset_status_error(403),
        BandcampError::DownloadError("HTTP 403".to_string())
    );
}

#[test]
fn empty_batch_summary_is_empty() {
    let summary = summarize(&vec![], &vec![]);
    assert_eq!(summary.success_count(), 0);
    assert_eq!(summary.failure_count(), 0);
}

#[test]
fn temp_file_name_is_item_keyed() {
    assert_eq!(bannedcamp::manager::temp_file_name("12345"), ".12345.tmp");
}
