use bannedcamp::formats::AudioFormat;
use bannedcamp::jsonpath::{extract_download_url, extract_fan_id, extract_url_from_json};

const WANT: &str = "https://p4.example.com/download/album?id=1&ts=2";

fn pagedata_double() -> String {
    let blob = "{&quot;digital_items&quot;:[{&quot;downloads&quot;:{&quot;flac&quot;:{&quot;url&quot;:&quot;https://p4.example.com/download/album?id=1&amp;ts=2&quot;}}}]}";
    format!("<html><body><div id=\"pagedata\" data-blob=\"{}\"></div></body></html>", blob)
}

fn pagedata_single() -> String {
    let blob = "{&quot;digital_items&quot;:[{&quot;downloads&quot;:{&quot;flac&quot;:{&quot;url&quot;:&quot;https://p4.example.com/download/album?id=1&amp;ts=2&quot;}}}]}";
    format!("<html><body><div id='pagedata' data-blob='{}'></div></body></html>", blob)
}

#[test]
fn pagedata_strategy_double_quotes() {
    let html = pagedata_double();
    let url = extract_download_url(&html, AudioFormat::Flac).unwrap();
    assert_eq!(url, WANT);
}

#[test]
fn pagedata_strategy_single_quotes() {
    let html = pagedata_single();
    let url = extract_download_url(&html, AudioFormat::Flac).unwrap();
    assert_eq!(url, WANT);
}

#[test]
fn pagedata_strategy_quote_styles_agree() {
    let a = extract_download_url(&pagedata_double(), AudioFormat::Flac).unwrap();
    let b = extract_download_url(&pagedata_single(), AudioFormat::Flac).unwrap();
    assert_eq!(a, b);
}

fn datablob_page(quote: char) -> String {
    let blob = "{&quot;download_items&quot;:[{&quot;downloads&quot;:{&quot;flac&quot;:{&quot;url&quot;:&quot;https://p4.example.com/download/album?id=1&amp;ts=2&quot;}}}]}";
    format!("<html><span data-blob={q}{}{q}></span></html>", blob, q = quote)
}

#[test]
fn datablob_strategy_double_quotes() {
    let url = extract_download_url(&datablob_page('"'), AudioFormat::Flac).unwrap();
    assert_eq!(url, WANT);
}

#[test]
fn datablob_strategy_single_quotes() {
    let url = extract_download_url(&datablob_page('\''), AudioFormat::Flac).unwrap();
    assert_eq!(url, WANT);
}

#[test]
fn tralbum_strategy() {
    let html = "<script>var TralbumData = {\"a\":\"x{y\\\"}\",\"downloads\":{\"flac\":{\"url\":\"https://p4.example.com/download/album?id=1&ts=2\"}}};</script>";
    let url = extract_download_url(html, AudioFormat::Flac).unwrap();
    assert_eq!(url, WANT);
}

#[test]
fn direct_pattern_strategy() {
    let html = "no json here at all \"flac\": something \"url\":\"https:\\/\\/p4.example.com\\/download\\/album?id=1\\u0026ts=2\" trailing";
    let url = extract_download_url(html, AudioFormat::Flac).unwrap();
    assert_eq!(url, WANT);
}

#[test]
fn extraction_fails_closed() {
    let r = extract_download_url("<html>nothing to see</html>", AudioFormat::Flac);
    match r {
        Err(e) => {
            let msg = e.message();
            assert!(msg.contains("Could not find download URL for format 'flac' in page"));
        }
        Ok(_) => panic!("expected a parse error"),
    }
}

#[test]
fn extraction_names_the_format() {
    let r = extract_download_url("<html></html>", AudioFormat::OggVorbis);
    match r {
        Err(e) => assert!(e.message().contains("'vorbis'")),
        Ok(_) => panic!("expected a parse error"),
    }
}

#[test]
fn url_from_json_tree_lookup() {
    let json = "{\"digital_items\":[{\"downloads\":{\"mp3-320\":{\"url\":\"https://x/a?b=1&c=2\"}}}]}";
    let url = extract_url_from_json(json, "mp3-320").unwrap();
    assert_eq!(url, "https://x/a?b=1&c=2");
}

#[test]
fn url_from_json_flat_downloads() {
    let json = "{\"downloads\":{\"wav\":{\"url\":\"https://x/w\"}}}";
    assert_eq!(extract_url_from_json(json, "wav").unwrap(), "https://x/w");
}

#[test]
fn url_from_json_text_fallback() {
    // not valid JSON as a whole, so only the text-level scan can find it
    let json = "garbage \"aac-hi\": {\"url\":\"https:\\/\\/x\\/m4a\"} garbage";
    assert_eq!(extract_url_from_json(json, "aac-hi").unwrap(), "https://x/m4a");
}

#[test]
fn url_from_json_missing_format() {
    let json = "{\"downloads\":{\"flac\":{\"url\":\"https://x/f\"}}}";
    assert!(extract_url_from_json(json, "alac").is_none());
}

#[test]
fn fan_id_direct_pattern() {
    let html = "<html>stuff \"fan_id\":123456, more</html>";
    assert_eq!(extract_fan_id(html).unwrap(), 123456);
}

#[test]
fn fan_id_from_data_blob() {
    let html = "<div data-blob=\"{&quot;fan_data&quot;:{&quot;fan_id&quot;:98765,&quot;name&quot;:&quot;x&quot;}}\"></div>";
    assert_eq!(extract_fan_id(html).unwrap(), 98765);
}

#[test]
fn fan_id_missing() {
    let r = extract_fan_id("<html>no ids at all</html>");
    match r {
        Err(e) => assert_eq!(e.message(), "Parse error: Could not find fan_id in page"),
        Ok(_) => panic!("expected a parse error"),
    }
}

#[test]
fn fan_id_digits_at_end_of_text_do_not_count() {
    // the digit run is only accepted when a non-digit follows it
    assert!(extract_fan_id("\"fan_id\":42").is_err());
}

#[test]
fn tree_lookup_prefers_digital_items_path() {
    let json = "{\"digital_items\":[{\"downloads\":{\"flac\":{\"url\":\"https://x/first\"}}}],\
                 \"downloads\":{\"flac\":{\"url\":\"https://x/second\"}}}";
    assert_eq!(extract_url_from_json(json, "flac").unwrap(), "https://x/first");
}

#[test]
fn tree_lookup_prefers_download_items_over_flat_map() {
    let json = "{\"download_items\":[{\"downloads\":{\"wav\":{\"url\":\"https://x/first\"}}}],\
                 \"downloads\":{\"wav\":{\"url\":\"https://x/second\"}}}";
    assert_eq!(extract_url_from_json(json, "wav").unwrap(), "https://x/first");
}
