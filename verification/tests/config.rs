//! Configuration handling: target sanitization, target-list normalization
//! and argument processing.

use unimap::args::Args;
use unimap::misc::{normalize_targets, sanitize_target_string};

fn plain_args() -> Args {
    Args {
        target: None,
        files: Vec::new(),
        output: false,
        unique_output: None,
        quiet: false,
        threads: None,
        custom_resolvers: Vec::new(),
        ports: None,
        min_rate: None,
        fast_scan: false,
        logs_dir: "unimap_logs".to_string(),
        no_keep_nmap_logs: false,
        raw_output: false,
        url_output: false,
        stdin: false,
    }
}

#[test]
fn sanitize_strips_scheme_www_and_slashes() {
    assert_eq!(
        sanitize_target_string("https://www.example.com/".to_string()),
        "example.com"
    );
    assert_eq!(sanitize_target_string("http://x/y/".to_string()), "xy");
    assert_eq!(sanitize_target_string("example.com".to_string()), "example.com");
}

#[test]
fn sanitize_removes_every_occurrence() {
    assert_eq!(sanitize_target_string("awww.b".to_string()), "ab");
    assert_eq!(
        sanitize_target_string("www.www.example.com".to_string()),
        "example.com"
    );
}

#[test]
fn normalize_lowercases_and_collapses_duplicates() {
    let lines = vec![
        "A.COM".to_string(),
        "a.com".to_string(),
        "B.org".to_string(),
        "b.ORG".to_string(),
    ];
    assert_eq!(
        normalize_targets(&lines),
        vec!["a.com".to_string(), "b.org".to_string()]
    );
}

#[test]
fn processed_target_is_sanitized() {
    let mut args = plain_args();
    args.target = Some("https://www.Example.com/".to_string());
    let p = args.into_processed_args();
    assert_eq!(p.target, "Example.com");
    assert!(p.targets.is_empty());
}

#[test]
fn thread_default_is_thirty_with_explicit_ports() {
    let mut args = plain_args();
    args.ports = Some("80,443".to_string());
    let p = args.into_processed_args();
    assert_eq!(p.threads, 30);
    assert!(p.custom_ports_range);
    assert_eq!(p.ports, "80,443");
}

#[test]
fn thread_default_is_fifty_without_ports() {
    let p = plain_args().into_processed_args();
    assert_eq!(p.threads, 50);
    assert!(!p.custom_ports_range);
    assert_eq!(p.ports, "");
}

#[test]
fn explicit_thread_count_wins() {
    let mut args = plain_args();
    args.ports = Some("80".to_string());
    args.threads = Some(7);
    let p = args.into_processed_args();
    assert_eq!(p.threads, 7);
}

#[test]
fn dated_log_file_name_sits_in_the_logs_dir() {
    let mut args = plain_args();
    args.output = true;
    let p = args.into_processed_args();
    assert!(p.file_name.starts_with("unimap_logs/unimap-log-"));
    assert!(p.file_name.ends_with(".csv"));
    assert!(p.with_output);
    assert!(!p.unique_output_flag);
}

#[test]
fn unique_output_file_name_is_kept() {
    let mut args = plain_args();
    args.unique_output = Some("out.csv".to_string());
    let p = args.into_processed_args();
    assert_eq!(p.file_name, "out.csv");
    assert!(p.with_output);
    assert!(p.unique_output_flag);
}

#[test]
fn default_resolvers_are_used_when_none_are_given() {
    let p = plain_args().into_processed_args();
    assert!(!p.custom_resolvers);
    assert_eq!(
        p.resolvers,
        vec![
            "1.1.1.1".to_string(),
            "1.0.0.1".to_string(),
            "8.8.8.8".to_string(),
            "8.8.4.4".to_string(),
            "9.9.9.9".to_string(),
            "149.112.112.112".to_string(),
            "208.67.222.222".to_string(),
            "208.67.220.220".to_string(),
        ]
    );
}

#[test]
fn custom_resolvers_are_kept() {
    let mut args = plain_args();
    args.custom_resolvers = vec!["resolvers.txt".to_string()];
    let p = args.into_processed_args();
    assert!(p.custom_resolvers);
    assert_eq!(p.resolvers, vec!["resolvers.txt".to_string()]);
}
