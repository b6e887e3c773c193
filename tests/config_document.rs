use nq_server::config::{config, config_document};
use nq_server::settings::AppInfo;

fn settings(port: Option<&str>, host: Option<&str>) -> AppInfo {
    AppInfo::from_settings(port, host.map(|h| h.to_string())).unwrap()
}

#[test]
fn frames_document() {
    let doc = config_document("\"a\"", "\"b\"", "\"c\"");
    assert_eq!(
        doc,
        "{\"version\":1,\"urls\":{\"small_download_url\":\"a\",\"large_download_url\":\"b\",\"upload_url\":\"c\"}}"
    );
}

#[test]
fn default_document() {
    let doc = config(&settings(None, None));
    assert_eq!(
        doc,
        "{\"version\":1,\"urls\":{\"small_download_url\":\"http://localhost:3000/api/v1/small\",\
\"large_download_url\":\"http://localhost:3000/api/v1/large\",\
\"upload_url\":\"http://localhost:3000/api/v1/upload\"}}"
    );
}

#[test]
fn document_parses_into_shape() {
    let doc = config(&settings(Some("443"), Some("nq.example.com")));
    let v: serde_json::Value = serde_json::from_str(&doc).unwrap();
    assert_eq!(v["version"].as_u64(), Some(1));
    let urls = v["urls"].as_object().unwrap();
    assert_eq!(urls.len(), 3);
    assert_eq!(urls["small_download_url"], "https://nq.example.com/api/v1/small");
    assert_eq!(urls["large_download_url"], "https://nq.example.com/api/v1/large");
    assert_eq!(urls["upload_url"], "https://nq.example.com/api/v1/upload");
    assert!(urls["small_download_url"].as_str().unwrap().ends_with("/api/v1/small"));
    assert!(urls["large_download_url"].as_str().unwrap().ends_with("/api/v1/large"));
    assert!(urls["upload_url"].as_str().unwrap().ends_with("/api/v1/upload"));
}

#[test]
fn document_is_idempotent() {
    let info = settings(Some("8080"), Some("host"));
    assert_eq!(config(&info), config(&info));
    let again = settings(Some("8080"), Some("host"));
    assert_eq!(config(&info), config(&again));
}

#[test]
fn host_that_needs_escaping_stays_valid_json() {
    let doc = config(&settings(None, Some("we\"ird\\host\n")));
    assert!(doc.contains("we\\\"ird\\\\host\\n"));
    let v: serde_json::Value = serde_json::from_str(&doc).unwrap();
    assert_eq!(v["urls"]["upload_url"], "http://we\"ird\\host\n:3000/api/v1/upload");
}

#[test]
fn speed_example_document() {
    let doc = config(&settings(Some("443"), Some("speed.example.com")));
    assert_eq!(
        doc,
        "{\"version\":1,\"urls\":{\"small_download_url\":\"https://speed.example.com/api/v1/small\",\
\"large_download_url\":\"https://speed.example.com/api/v1/large\",\
\"upload_url\":\"https://speed.example.com/api/v1/upload\"}}"
    );
}

#[test]
fn control_characters_are_escaped() {
    let doc = config(&settings(Some("80"), Some("a\u{1}b\tc\u{7f}d/e\u{8}\u{c}\r\u{1f}é")));
    assert!(doc.contains("\"http://a\\u0001b\\tc\u{7f}d/e\\b\\f\\r\\u001fé/api/v1/small\""));
    let v: serde_json::Value = serde_json::from_str(&doc).unwrap();
    assert_eq!(v["urls"]["small_download_url"], "http://a\u{1}b\tc\u{7f}d/e\u{8}\u{c}\r\u{1f}é/api/v1/small");
}

#[test]
fn document_has_exactly_the_documented_keys() {
    let doc = config(&settings(None, Some("h\"x")));
    let v: serde_json::Value = serde_json::from_str(&doc).unwrap();
    let top = v.as_object().unwrap();
    let mut keys: Vec<&String> = top.keys().collect();
    keys.sort();
    assert_eq!(keys, vec!["urls", "version"]);
    let mut url_keys: Vec<&String> = v["urls"].as_object().unwrap().keys().collect();
    url_keys.sort();
    assert_eq!(url_keys, vec!["large_download_url", "small_download_url", "upload_url"]);
}
