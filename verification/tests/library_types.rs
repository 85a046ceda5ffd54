use bannedcamp::errors::BandcampError;
use bannedcamp::formats::{AudioFormat, ItemType};
use bannedcamp::item::{Credentials, LibraryItem};
use bannedcamp::ui::Spinner;
use bannedcamp::urls::{item_matches_urls, BandcampUrl};

fn item(artist: &str, title: &str, ty: ItemType) -> LibraryItem {
    LibraryItem {
        id: "12345".to_string(),
        item_type: ty,
        title: title.to_string(),
        artist: artist.to_string(),
        artist_id: "1".to_string(),
        artist_subdomain: Some("badmathhk".to_string()),
        slug: Some("missing-narrative".to_string()),
        item_url: None,
        download_url: "https://h.example/download/x".to_string(),
        available_formats: vec![AudioFormat::Flac],
        is_preorder: false,
        is_hidden: false,
    }
}

#[test]
fn extension_is_total_over_formats() {
    assert_eq!(AudioFormat::Flac.extension(), "flac");
    assert_eq!(AudioFormat::Mp3V0.extension(), "mp3");
    assert_eq!(AudioFormat::Mp3320.extension(), "mp3");
    assert_eq!(AudioFormat::Aac.extension(), "m4a");
    assert_eq!(AudioFormat::OggVorbis.extension(), "ogg");
    assert_eq!(AudioFormat::Alac.extension(), "m4a");
    assert_eq!(AudioFormat::Wav.extension(), "wav");
    assert_eq!(AudioFormat::Aiff.extension(), "aiff");
}

#[test]
fn encoding_token_is_total_over_formats() {
    assert_eq!(AudioFormat::Flac.bandcamp_encoding(), "flac");
    assert_eq!(AudioFormat::Mp3V0.bandcamp_encoding(), "mp3-v0");
    assert_eq!(AudioFormat::Mp3320.bandcamp_encoding(), "mp3-320");
    assert_eq!(AudioFormat::Aac.bandcamp_encoding(), "aac-hi");
    assert_eq!(AudioFormat::OggVorbis.bandcamp_encoding(), "vorbis");
    assert_eq!(AudioFormat::Alac.bandcamp_encoding(), "alac");
    assert_eq!(AudioFormat::Wav.bandcamp_encoding(), "wav");
    assert_eq!(AudioFormat::Aiff.bandcamp_encoding(), "aiff-lossless");
}

#[test]
fn display_names_cover_all_formats() {
    let all = AudioFormat::all_formats();
    assert_eq!(all.len(), 8);
    for f in &all {
        assert!(!f.display_name().is_empty());
    }
    assert_eq!(AudioFormat::Flac.display_name(), "FLAC (lossless)");
    assert_eq!(AudioFormat::Mp3320.display_name(), "MP3 320kbps");
}

#[test]
fn filename_for_a_track_takes_the_extension() {
    let it = item("Clark Rainbow", "Chainsaw", ItemType::Track);
    assert_eq!(
        it.construct_filename(AudioFormat::Flac, None),
        "Clark Rainbow - Chainsaw.flac"
    );
}

#[test]
fn filename_for_an_album_has_no_extension() {
    let it = item("Bad Math", "Missing Narrative", ItemType::Album);
    assert_eq!(
        it.construct_filename(AudioFormat::Flac, None),
        "Bad Math - Missing Narrative"
    );
}

#[test]
fn filename_honors_a_custom_template() {
    let it = item("Bad Math", "Missing Narrative", ItemType::Album);
    assert_eq!(
        it.construct_filename(AudioFormat::Mp3320, Some("{artist}/{title} [{id}]{ext}")),
        "Bad Math/Missing Narrative [12345]"
    );
    let tr = item("A", "B", ItemType::Track);
    assert_eq!(
        tr.construct_filename(AudioFormat::Mp3320, Some("{title}{ext}")),
        "B.mp3"
    );
}

#[test]
fn bandcamp_url_parses_artist_and_slug() {
    let u = BandcampUrl::parse("https://badmathhk.bandcamp.com/album/missing-narrative").unwrap();
    assert_eq!(u.artist, "badmathhk");
    assert_eq!(u.slug.as_deref(), Some("missing-narrative"));
    assert!(!u.is_artist_url());
}

#[test]
fn bandcamp_url_artist_only() {
    let u = BandcampUrl::parse("https://badmathhk.bandcamp.com").unwrap();
    assert_eq!(u.artist, "badmathhk");
    assert!(u.is_artist_url());
}

#[test]
fn bandcamp_url_rejects_other_hosts() {
    assert!(BandcampUrl::parse("https://example.com/album/x").is_none());
    assert!(BandcampUrl::parse("not a url").is_none());
}

#[test]
fn items_match_urls_case_insensitively() {
    let it = item("Bad Math", "Missing Narrative", ItemType::Album);
    let artist_url = BandcampUrl::parse("https://BadMathHK.bandcamp.com").unwrap();
    assert!(item_matches_urls(&it, &vec![artist_url]));
    let album_url =
        BandcampUrl::parse("https://badmathhk.bandcamp.com/album/Missing-Narrative").unwrap();
    assert!(item_matches_urls(&it, &vec![album_url]));
    let other = BandcampUrl::parse("https://someoneelse.bandcamp.com").unwrap();
    assert!(!item_matches_urls(&it, &vec![other]));
    assert!(!item_matches_urls(&it, &vec![]));
}

#[test]
fn credentials_replace_wholesale() {
    let c = Credentials::new("cookievalue".to_string());
    assert_eq!(c.identity_cookie, "cookievalue");
    assert!(c.fan_id.is_none());
    let validated = c.with_fan_id("42".to_string());
    assert_eq!(validated.identity_cookie, "cookievalue");
    assert_eq!(validated.fan_id.as_deref(), Some("42"));
}

#[test]
fn error_messages_name_their_cause() {
    assert_eq!(BandcampError::SessionExpired.message(), "Session expired");
    assert_eq!(BandcampError::NotLoggedIn.message(), "Not logged in");
    assert_eq!(BandcampError::InvalidCredentials.message(), "Invalid credentials");
    assert_eq!(BandcampError::ServiceUnavailable.message(), "Service unavailable");
    assert_eq!(
        BandcampError::AuthError("bad cookie".to_string()).message(),
        "Authentication failed: bad cookie"
    );
    assert_eq!(
        BandcampError::DownloadError("x".to_string()).message(),
        "Download failed: x"
    );
    assert_eq!(BandcampError::IoError("disk".to_string()).message(), "IO error: disk");
    assert_eq!(
        BandcampError::NetworkError("timeout".to_string()).message(),
        "Network error: timeout"
    );
    assert_eq!(BandcampError::ParseError("p".to_string()).message(), "Parse error: p");
}

#[test]
fn spinner_cycles_through_ten_frames() {
    let mut s = Spinner::new();
    let first = s.current();
    let mut frames = vec![first.to_string()];
    for _ in 0..9 {
        s.tick();
        frames.push(s.current().to_string());
    }
    s.tick();
    assert_eq!(s.current(), first);
    frames.sort();
    frames.dedup();
    assert_eq!(frames.len(), 10);
}
