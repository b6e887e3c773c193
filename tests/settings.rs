use nq_server::settings::{listen_port, parse_port, push_decimal, AppInfo, SettingsError};

#[test]
fn parses_plain_ports() {
    assert_eq!(parse_port("3000"), Ok(3000));
    assert_eq!(parse_port("0"), Ok(0));
    assert_eq!(parse_port("65535"), Ok(65535));
    assert_eq!(parse_port("00080"), Ok(80));
    assert_eq!(parse_port("+443"), Ok(443));
}

#[test]
fn rejects_bad_ports() {
    for s in ["", "+", "-1", "65536", "99999999999", "12a", " 80", "80 ", "++1", "٣"] {
        assert_eq!(parse_port(s), Err(SettingsError::InvalidPort), "{s:?}");
        assert!(s.parse::<u16>().is_err());
    }
}

#[test]
fn parse_agrees_with_std() {
    for s in ["1", "+0", "08", "65534", "1000", "+65535"] {
        assert_eq!(parse_port(s).ok(), s.parse::<u16>().ok(), "{s:?}");
    }
}

#[test]
fn listen_port_defaults_to_3000() {
    assert_eq!(listen_port(None), Ok(3000));
    assert_eq!(listen_port(Some("8080")), Ok(8080));
    assert_eq!(listen_port(Some("eighty")), Err(SettingsError::InvalidPort));
}

#[test]
fn writes_decimal() {
    let mut s = String::from("port ");
    push_decimal(&mut s, 0);
    assert_eq!(s, "port 0");
    let mut s = String::new();
    push_decimal(&mut s, 65535);
    assert_eq!(s, "65535");
    let mut s = String::new();
    push_decimal(&mut s, 3000);
    assert_eq!(s, "3000");
}

#[test]
fn default_settings() {
    let info = AppInfo::from_settings(None, None).unwrap();
    assert_eq!(info.protocol, "http");
    assert_eq!(info.hostname, "localhost");
    assert_eq!(info.port, Some(3000));
    assert_eq!(info.base_url(), "http://localhost:3000");
}

#[test]
fn tls_port_uses_https_without_port() {
    let info = AppInfo::from_settings(Some("443"), Some("nq.example.com".to_string())).unwrap();
    assert_eq!(info.protocol, "https");
    assert_eq!(info.port, None);
    assert_eq!(info.base_url(), "https://nq.example.com");
}

#[test]
fn http_port_is_not_shown() {
    let info = AppInfo::from_settings(Some("80"), Some("example.org".to_string())).unwrap();
    assert_eq!(info.base_url(), "http://example.org");
}

#[test]
fn other_port_is_shown() {
    let info = AppInfo::from_settings(Some("8443"), Some("10.0.0.1".to_string())).unwrap();
    assert_eq!(info.base_url(), "http://10.0.0.1:8443");
}

#[test]
fn invalid_port_setting() {
    assert!(matches!(
        AppInfo::from_settings(Some("port"), None),
        Err(SettingsError::InvalidPort)
    ));
}
