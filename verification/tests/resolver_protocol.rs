use bannedcamp::errors::BandcampError;
use bannedcamp::formats::AudioFormat;
use bannedcamp::resolver::{EncodingResolver, ResolverAction, ResolverEvent, ResolverState};

const PAGE_NOT_READY: &str =
    "x \"flac\": y \"url\":\"https://h.example/download/item?sig=1\" z";
const PAGE_READY: &str =
    "x \"ready\":true \"flac\": y \"url\":\"https://h.example/download/item?sig=2\" z";

fn new_resolver(max: u32) -> EncodingResolver {
    EncodingResolver::new("Artist".to_string(), "Title".to_string(), AudioFormat::Flac, max)
}

fn page(status: u16, body: &str) -> ResolverEvent {
    ResolverEvent::Page { status, body: body.to_string() }
}

fn poll(body: &str) -> ResolverEvent {
    ResolverEvent::PollBody { body: body.to_string() }
}

#[test]
fn poll_termination_after_exact_budget() {
    let max = 3;
    let mut r = new_resolver(max);
    assert!(matches!(r.step(&ResolverEvent::Started, 0), ResolverAction::FetchPage));
    let url = match r.step(&page(200, PAGE_NOT_READY), 0) {
        ResolverAction::Trigger { url } => url,
        other => panic!("expected a trigger, got {:?}", other),
    };
    assert_eq!(url, "https://h.example/download/item?sig=1");
    let mut polls = 0;
    match r.step(&ResolverEvent::Triggered, 11) {
        ResolverAction::Poll { url } => {
            polls += 1;
            assert_eq!(url, "https://h.example/statdownload/item?sig=1&.rand=11&.vrs=1");
        }
        other => panic!("expected a poll, got {:?}", other),
    }
    loop {
        match r.step(&poll("{\"result\":\"err\"}"), 12) {
            ResolverAction::Sleep => {}
            ResolverAction::Fail { err } => {
                let msg = err.message();
                assert!(msg.contains("Artist - Title"));
                assert!(msg.contains("not ready after 3 attempts"));
                break;
            }
            other => panic!("unexpected action {:?}", other),
        }
        match r.step(&ResolverEvent::Slept, 13) {
            ResolverAction::Poll { .. } => polls += 1,
            other => panic!("expected a poll, got {:?}", other),
        }
    }
    // failed after exactly `max` polls, never more, never fewer
    assert_eq!(polls, max);
}

#[test]
fn expiration_recovery_returns_refreshed_url() {
    let mut r = new_resolver(30);
    r.step(&ResolverEvent::Started, 0);
    r.step(&page(200, PAGE_NOT_READY), 0);
    r.step(&ResolverEvent::Triggered, 1);
    // poll 1 answers with the expiration marker
    match r.step(&poll("{\"errortype\":\"ExpirationError\"}"), 2) {
        ResolverAction::FetchPage => {}
        other => panic!("expected a page refetch, got {:?}", other),
    }
    // the refetched page is already ready: resolved at once
    match r.step(&page(200, PAGE_READY), 3) {
        ResolverAction::Done { url } => {
            assert_eq!(url, "https://h.example/download/item?sig=2")
        }
        other => panic!("expected done, got {:?}", other),
    }
}

#[test]
fn already_ready_page_skips_trigger_and_poll() {
    let mut r = new_resolver(30);
    assert!(matches!(r.step(&ResolverEvent::Started, 0), ResolverAction::FetchPage));
    match r.step(&page(200, PAGE_READY), 0) {
        ResolverAction::Done { url } => {
            assert_eq!(url, "https://h.example/download/item?sig=2")
        }
        other => panic!("expected done without trigger or poll, got {:?}", other),
    }
    assert!(matches!(r.state(), ResolverState::Resolved { .. }));
}

#[test]
fn poll_success_yields_embedded_url() {
    let mut r = new_resolver(5);
    r.step(&ResolverEvent::Started, 0);
    r.step(&page(200, PAGE_NOT_READY), 0);
    r.step(&ResolverEvent::Triggered, 1);
    match r.step(&poll("{\"result\":\"ok\",\"download_url\":\"https:\\/\\/h.example\\/final\"}"), 2)
    {
        ResolverAction::Done { url } => assert_eq!(url, "https://h.example/final"),
        other => panic!("expected done, got {:?}", other),
    }
}

#[test]
fn session_expiry_fails_the_resolution() {
    let mut r = new_resolver(5);
    r.step(&ResolverEvent::Started, 0);
    match r.step(&page(401, ""), 0) {
        ResolverAction::Fail { err } => assert_eq!(err, BandcampError::SessionExpired),
        other => panic!("expected failure, got {:?}", other),
    }
}

#[test]
fn service_unavailable_fails_the_resolution() {
    let mut r = new_resolver(5);
    r.step(&ResolverEvent::Started, 0);
    match r.step(&page(503, ""), 0) {
        ResolverAction::Fail { err } => assert_eq!(err, BandcampError::ServiceUnavailable),
        other => panic!("expected failure, got {:?}", other),
    }
}

#[test]
fn other_page_status_is_a_download_error() {
    let mut r = new_resolver(5);
    r.step(&ResolverEvent::Started, 0);
    match r.step(&page(404, ""), 0) {
        ResolverAction::Fail { err } => {
            assert_eq!(
                err,
                BandcampError::DownloadError("Failed to fetch download page: HTTP 404".to_string())
            )
        }
        other => panic!("expected failure, got {:?}", other),
    }
}

#[test]
fn unextractable_page_is_a_parse_error() {
    let mut r = new_resolver(5);
    r.step(&ResolverEvent::Started, 0);
    match r.step(&page(200, "<html>no urls</html>"), 0) {
        ResolverAction::Fail { err } => {
            assert!(matches!(err, BandcampError::ParseError(_)))
        }
        other => panic!("expected failure, got {:?}", other),
    }
}

#[test]
fn zero_attempt_budget_fails_at_trigger() {
    let mut r = new_resolver(0);
    r.step(&ResolverEvent::Started, 0);
    assert!(matches!(
        r.step(&page(200, PAGE_NOT_READY), 0),
        ResolverAction::Trigger { .. }
    ));
    match r.step(&ResolverEvent::Triggered, 0) {
        ResolverAction::Fail { err } => {
            assert!(err.message().contains("not ready after 0 attempts"))
        }
        other => panic!("expected failure, got {:?}", other),
    }
}

#[test]
fn ok_marker_without_url_keeps_polling() {
    let mut r = new_resolver(2);
    r.step(&ResolverEvent::Started, 0);
    r.step(&page(200, PAGE_NOT_READY), 0);
    r.step(&ResolverEvent::Triggered, 1);
    // success marker but no download_url field: treated as not ready yet
    assert!(matches!(
        r.step(&poll("{\"result\":\"ok\"}"), 2),
        ResolverAction::Sleep
    ));
}

#[test]
fn stale_url_replaced_after_not_ready_refresh() {
    let fresh_page = "x \"flac\": y \"url\":\"https://h.example/download/item?sig=9\" z";
    let mut r = new_resolver(5);
    r.step(&ResolverEvent::Started, 0);
    r.step(&page(200, PAGE_NOT_READY), 0);
    r.step(&ResolverEvent::Triggered, 1);
    assert!(matches!(
        r.step(&poll("{\"errortype\":\"ExpirationError\"}"), 2),
        ResolverAction::FetchPage
    ));
    // the refreshed page is not ready: polling continues with the fresh URL
    assert!(matches!(r.step(&page(200, fresh_page), 3), ResolverAction::Sleep));
    match r.step(&ResolverEvent::Slept, 44) {
        ResolverAction::Poll { url } => {
            assert_eq!(url, "https://h.example/statdownload/item?sig=9&.rand=44&.vrs=1")
        }
        other => panic!("expected a poll on the fresh URL, got {:?}", other),
    }
}

#[test]
fn refresh_status_maps_like_the_first_fetch() {
    let mut r = new_resolver(5);
    r.step(&ResolverEvent::Started, 0);
    r.step(&page(200, PAGE_NOT_READY), 0);
    r.step(&ResolverEvent::Triggered, 1);
    r.step(&poll("{\"errortype\":\"ExpirationError\"}"), 2);
    match r.step(&page(503, ""), 3) {
        ResolverAction::Fail { err } => assert_eq!(err, BandcampError::ServiceUnavailable),
        other => panic!("expected failure, got {:?}", other),
    }
}

#[test]
fn unextractable_refresh_is_a_parse_error() {
    let mut r = new_resolver(5);
    r.step(&ResolverEvent::Started, 0);
    r.step(&page(200, PAGE_NOT_READY), 0);
    r.step(&ResolverEvent::Triggered, 1);
    r.step(&poll("{\"errortype\":\"ExpirationError\"}"), 2);
    match r.step(&page(200, "<html>no urls here</html>"), 3) {
        ResolverAction::Fail { err } => {
            assert!(matches!(err, BandcampError::ParseError(_)))
        }
        other => panic!("expected failure, got {:?}", other),
    }
}
