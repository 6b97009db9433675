use chrono::TimeZone;

use rust_motd::component::compose_report;
use rust_motd::component::negotiate_width;
use rust_motd::component::prepare_all;
use rust_motd::component::PanelData;
use rust_motd::config::parse_config;
use rust_motd::global_config::GlobalConfig;
use rust_motd::ssl_certs::SortMethod;
use rust_motd::ssl_certs::SSLCerts;

const RED: &str = "\u{1b}[38;5;1m";
const YELLOW: &str = "\u{1b}[38;5;3m";
const GREEN: &str = "\u{1b}[38;5;2m";
const RESET: &str = "\u{1b}[m";

/// A self-signed certificate whose notAfter is the given Unix second.
fn pem_cert_expiring_at(ts: i64) -> Vec<u8> {
    let rsa = openssl::rsa::Rsa::generate(2048).expect("key generation");
    let pkey = openssl::pkey::PKey::from_rsa(rsa).expect("key wrapping");
    let mut builder = openssl::x509::X509Builder::new().expect("builder");
    let not_before = openssl::asn1::Asn1Time::from_unix(ts - 864000).expect("notBefore");
    let not_after = openssl::asn1::Asn1Time::from_unix(ts).expect("notAfter");
    builder.set_not_before(&not_before).expect("set notBefore");
    builder.set_not_after(&not_after).expect("set notAfter");
    builder.set_pubkey(&pkey).expect("set key");
    builder
        .sign(&pkey, openssl::hash::MessageDigest::sha256())
        .expect("sign");
    builder.build().to_pem().expect("encode")
}

fn default_global() -> GlobalConfig {
    match parse_config("") {
        Ok(c) => c.global,
        Err(_) => panic!("an empty document should parse"),
    }
}

fn expected_time(ts: i64) -> String {
    match chrono::Utc.timestamp_opt(ts, 0) {
        chrono::offset::LocalResult::Single(dt) => {
            format!("{}", dt.format("%Y-%m-%d %H:%M:%S"))
        }
        _ => panic!("timestamp in range"),
    }
}

#[test]
fn certificates_sort_by_ascending_expiration() {
    let now = chrono::Utc::now().timestamp();
    let late = now + 86400 * 700;
    let mid = now + 86400 * 400;
    let soon = now + 86400 * 100;
    let cfg = SSLCerts {
        sort_method: SortMethod::Expiration,
        certs: vec![
            ("zeta".to_string(), "zeta.pem".to_string()),
            ("alpha".to_string(), "alpha.pem".to_string()),
            ("mike".to_string(), "mike.pem".to_string()),
        ],
    };
    let files = vec![
        Ok(pem_cert_expiring_at(late)),
        Ok(pem_cert_expiring_at(soon)),
        Ok(pem_cert_expiring_at(mid)),
    ];
    let global = default_global();
    let lines = match cfg.print_or_error(&global, now, files) {
        Ok(v) => v,
        Err(e) => panic!("panel must succeed: {}", e.message()),
    };
    assert_eq!(lines.len(), 4);
    assert_eq!(lines[0], "SSL Certificates:");
    assert!(lines[1].starts_with("  alpha "));
    assert!(lines[2].starts_with("  mike "));
    assert!(lines[3].starts_with("  zeta "));
}

#[test]
fn certificates_sort_alphabetically_or_keep_manual_order() {
    let now = chrono::Utc::now().timestamp();
    let certs = vec![
        ("bravo".to_string(), "b.pem".to_string()),
        ("alpha".to_string(), "a.pem".to_string()),
    ];
    let global = default_global();

    let manual = SSLCerts { sort_method: SortMethod::Manual, certs: certs.clone() };
    let files = vec![
        Ok(pem_cert_expiring_at(now + 86400 * 100)),
        Ok(pem_cert_expiring_at(now + 86400 * 200)),
    ];
    let lines = match manual.print_or_error(&global, now, files) {
        Ok(v) => v,
        Err(e) => panic!("panel must succeed: {}", e.message()),
    };
    assert!(lines[1].starts_with("  bravo "));
    assert!(lines[2].starts_with("  alpha "));

    let alpha = SSLCerts { sort_method: SortMethod::Alphabetical, certs };
    let files = vec![
        Ok(pem_cert_expiring_at(now + 86400 * 100)),
        Ok(pem_cert_expiring_at(now + 86400 * 200)),
    ];
    let lines = match alpha.print_or_error(&global, now, files) {
        Ok(v) => v,
        Err(e) => panic!("panel must succeed: {}", e.message()),
    };
    assert!(lines[1].starts_with("  alpha "));
    assert!(lines[2].starts_with("  bravo "));
}

#[test]
fn status_is_expired_expiring_or_valid_with_exact_line() {
    let now = chrono::Utc::now().timestamp();
    let global = default_global();

    let expired_at = now - 86400 * 2;
    let expiring_at = now + 86400 * 10;
    let valid_at = now + 86400 * 90;
    let cfg = SSLCerts {
        sort_method: SortMethod::Manual,
        certs: vec![
            ("old".to_string(), "old.pem".to_string()),
            ("close".to_string(), "close.pem".to_string()),
            ("fresh".to_string(), "fresh.pem".to_string()),
        ],
    };
    let files = vec![
        Ok(pem_cert_expiring_at(expired_at)),
        Ok(pem_cert_expiring_at(expiring_at)),
        Ok(pem_cert_expiring_at(valid_at)),
    ];
    let lines = match cfg.print_or_error(&global, now, files) {
        Ok(v) => v,
        Err(e) => panic!("panel must succeed: {}", e.message()),
    };
    assert_eq!(
        lines[1],
        format!("  old {}expired on{} {}", RED, RESET, expected_time(expired_at))
    );
    assert_eq!(
        lines[2],
        format!("  close {}expiring on{} {}", YELLOW, RESET, expected_time(expiring_at))
    );
    assert_eq!(
        lines[3],
        format!("  fresh {}valid until{} {}", GREEN, RESET, expected_time(valid_at))
    );
}

#[test]
fn garbage_bytes_are_a_single_certificate_error() {
    let now = chrono::Utc::now().timestamp();
    let global = default_global();
    let cfg = SSLCerts {
        sort_method: SortMethod::Manual,
        certs: vec![("broken".to_string(), "broken.pem".to_string())],
    };
    let files = vec![Ok(b"not a certificate".to_vec())];
    match cfg.print_or_error(&global, now, files) {
        Ok(_) => panic!("garbage bytes must fail"),
        Err(e) => assert!(!e.message().is_empty()),
    }
}

#[test]
fn unreadable_certificate_panel_is_one_error_line_and_uptime_still_prints() {
    let text = "[s_s_l_certs]\n[s_s_l_certs.certs]\nexample = \"/no/such.pem\"\n[uptime]\n";
    let config = match parse_config(text) {
        Ok(c) => c,
        Err(e) => panic!("configuration should parse: {}", e.message()),
    };
    let global = config.global;
    let (comps, cons) = prepare_all(config.components, &global);
    let width = negotiate_width(&cons);
    assert_eq!(width, None);
    let data = vec![
        PanelData::Certs(1700000000, vec![Err("permission denied".to_string())]),
        PanelData::Lines(Ok(vec!["up 3 days".to_string()])),
    ];
    let sections = compose_report(comps, &global, width, data);
    assert_eq!(sections.len(), 2);
    assert_eq!(
        sections[0],
        vec!["SSL Certificate error: permission denied".to_string(), String::new()]
    );
    assert_eq!(sections[1], vec!["up 3 days".to_string(), String::new()]);
}

#[test]
fn certificate_panel_parses_from_a_document_and_renders() {
    let now = chrono::Utc::now().timestamp();
    let ts = now + 86400 * 90;
    let text = "[global]\ntime_format = \"%Y-%m-%d\"\n[s_s_l_certs]\nsort_method = \"expiration\"\n[s_s_l_certs.certs]\nexample = \"example.pem\"\n";
    let config = match parse_config(text) {
        Ok(c) => c,
        Err(e) => panic!("configuration should parse: {}", e.message()),
    };
    let global = config.global;
    let (comps, cons) = prepare_all(config.components, &global);
    let width = negotiate_width(&cons);
    let data = vec![PanelData::Certs(now, vec![Ok(pem_cert_expiring_at(ts))])];
    let sections = compose_report(comps, &global, width, data);
    assert_eq!(sections.len(), 1);
    assert_eq!(sections[0].len(), 3);
    assert_eq!(sections[0][0], "SSL Certificates:");
    let expected_day = match chrono::Utc.timestamp_opt(ts, 0) {
        chrono::offset::LocalResult::Single(dt) => format!("{}", dt.format("%Y-%m-%d")),
        _ => panic!("timestamp in range"),
    };
    assert_eq!(
        sections[0][1],
        format!("  example {}valid until{} {}", GREEN, RESET, expected_day)
    );
    assert_eq!(sections[0][2], "");
}
