//! Pipeline behaviour: dedup, eligibility filtering, scan dispatch and
//! result remapping.

use unimap::errors::PipelineError;
use unimap::ipv4::{is_eligible_address, is_private, parse_ipv4, Ipv4};
use unimap::resolver_engine::{
    artifact_path, collect_scan_results, create_resolvers, dispatch_and_remap, fqdn_of,
    remap_scan_results, resolution_record, retain_open_ports, scan_plan, ScanOutcome,
};
use unimap::structs::{Port, ResolvData, Service, State};

fn port(id: &str, state: &str, name: &str) -> Port {
    Port {
        portid: id.to_string(),
        state: State { state: state.to_string() },
        service: Some(Service {
            name: name.to_string(),
            version: None,
            product: None,
            ostype: None,
            extrainfo: None,
        }),
    }
}

#[test]
fn parse_ipv4_accepts_dotted_quads() {
    assert_eq!(
        parse_ipv4("93.184.216.34"),
        Some(Ipv4 { a: 93, b: 184, c: 216, d: 34 })
    );
    assert_eq!(parse_ipv4("0.0.0.0"), Some(Ipv4 { a: 0, b: 0, c: 0, d: 0 }));
    assert_eq!(
        parse_ipv4("255.255.255.255"),
        Some(Ipv4 { a: 255, b: 255, c: 255, d: 255 })
    );
}

#[test]
fn parse_ipv4_rejects_malformed_strings() {
    assert_eq!(parse_ipv4(""), None);
    assert_eq!(parse_ipv4("1.2.3"), None);
    assert_eq!(parse_ipv4("1.2.3.4.5"), None);
    assert_eq!(parse_ipv4("999.1.1.1"), None);
    assert_eq!(parse_ipv4("256.0.0.1"), None);
    assert_eq!(parse_ipv4("01.2.3.4"), None);
    assert_eq!(parse_ipv4("a.b.c.d"), None);
    assert_eq!(parse_ipv4("1..2.3"), None);
    assert_eq!(parse_ipv4("1.2.3."), None);
    assert_eq!(parse_ipv4(".1.2.3"), None);
}

#[test]
fn private_ranges_are_recognized() {
    assert!(is_private(&Ipv4 { a: 10, b: 0, c: 0, d: 1 }));
    assert!(is_private(&Ipv4 { a: 172, b: 16, c: 0, d: 1 }));
    assert!(is_private(&Ipv4 { a: 172, b: 31, c: 255, d: 255 }));
    assert!(is_private(&Ipv4 { a: 192, b: 168, c: 1, d: 5 }));
    assert!(!is_private(&Ipv4 { a: 172, b: 15, c: 0, d: 1 }));
    assert!(!is_private(&Ipv4 { a: 172, b: 32, c: 0, d: 1 }));
    assert!(!is_private(&Ipv4 { a: 11, b: 0, c: 0, d: 1 }));
    assert!(!is_private(&Ipv4 { a: 8, b: 8, c: 8, d: 8 }));
}

#[test]
fn eligibility_requires_public_parsable_address() {
    assert!(!is_eligible_address(&String::new()));
    assert!(!is_eligible_address(&"192.168.1.5".to_string()));
    assert!(!is_eligible_address(&"10.1.2.3".to_string()));
    assert!(!is_eligible_address(&"not an ip".to_string()));
    assert!(is_eligible_address(&"8.8.8.8".to_string()));
    assert!(is_eligible_address(&"93.184.216.34".to_string()));
}

#[test]
fn eligibility_filter_is_idempotent_on_address_lists() {
    let addrs = vec![
        "8.8.8.8".to_string(),
        "192.168.0.1".to_string(),
        String::new(),
        "1.1.1.1".to_string(),
        "999.9.9.9".to_string(),
    ];
    let once: Vec<String> = addrs.iter().filter(|a| is_eligible_address(a)).cloned().collect();
    let twice: Vec<String> = once.iter().filter(|a| is_eligible_address(a)).cloned().collect();
    assert_eq!(once, twice);
    assert_eq!(once, vec!["8.8.8.8".to_string(), "1.1.1.1".to_string()]);
}

#[test]
fn create_resolvers_parses_every_entry() {
    let list = vec!["1.1.1.1".to_string(), "8.8.8.8".to_string()];
    let ips = create_resolvers(&list).unwrap();
    assert_eq!(
        ips,
        vec![Ipv4 { a: 1, b: 1, c: 1, d: 1 }, Ipv4 { a: 8, b: 8, c: 8, d: 8 }]
    );
}

#[test]
fn create_resolvers_reports_the_bad_entry() {
    let list = vec!["1.1.1.1".to_string(), "bad".to_string()];
    match create_resolvers(&list) {
        Err(PipelineError::UnparsableResolverAddress(s)) => assert_eq!(s, "bad"),
        other => panic!("expected a configuration error, got {:?}", other),
    }
}

#[test]
fn fqdn_appends_one_dot() {
    assert_eq!(fqdn_of(&"example.com".to_string()), "example.com.");
}

#[test]
fn artifact_path_names_by_address() {
    assert_eq!(
        artifact_path(&"unimap_logs".to_string(), &"8.8.8.8".to_string()),
        "unimap_logs/8.8.8.8.xml"
    );
}

#[test]
fn resolution_record_keeps_target_and_address() {
    let (t, d) = resolution_record("a.example.com".to_string(), "8.8.8.8".to_string());
    assert_eq!(t, "a.example.com");
    assert_eq!(d.ip, "8.8.8.8");
    assert!(d.ports_data.is_empty());
}

#[test]
fn shared_address_is_planned_once() {
    let records = vec![
        resolution_record("a.example.com".to_string(), "93.184.216.34".to_string()),
        resolution_record("b.example.com".to_string(), "93.184.216.34".to_string()),
        resolution_record("c.example.com".to_string(), "93.184.216.34".to_string()),
        resolution_record("d.example.com".to_string(), "93.184.216.34".to_string()),
        resolution_record("e.example.com".to_string(), "93.184.216.34".to_string()),
    ];
    let plan = scan_plan(&records).unwrap();
    assert_eq!(plan, vec!["93.184.216.34".to_string()]);
}

#[test]
fn private_and_unparsable_addresses_never_enter_the_plan() {
    let records = vec![
        resolution_record("x.local".to_string(), "192.168.1.5".to_string()),
        resolution_record("y.corp".to_string(), "10.0.0.9".to_string()),
        resolution_record("z.odd".to_string(), "999.1.1.1".to_string()),
        resolution_record("gone.example".to_string(), String::new()),
        resolution_record("pub.example".to_string(), "8.8.8.8".to_string()),
    ];
    let plan = scan_plan(&records).unwrap();
    assert_eq!(plan, vec!["8.8.8.8".to_string()]);
}

#[test]
fn all_ineligible_addresses_end_the_run() {
    let records = vec![
        resolution_record("x.local".to_string(), "192.168.1.5".to_string()),
        resolution_record("gone.example".to_string(), String::new()),
    ];
    match scan_plan(&records) {
        Err(e) => {
            assert_eq!(e, PipelineError::NoEligibleAddresses);
            assert_ne!(e.exit_code(), 0);
        },
        Ok(plan) => panic!("expected a fatal empty plan, got {:?}", plan),
    }
}

#[test]
fn only_open_ports_survive() {
    let raw = vec![
        port("80", "open", "http"),
        port("25", "filtered", "smtp"),
        port("443", "open", "https"),
        port("23", "closed", "telnet"),
    ];
    let open = retain_open_ports(&raw);
    assert_eq!(open, vec![port("80", "open", "http"), port("443", "open", "https")]);
}

#[test]
fn failed_scans_degrade_to_empty_port_lists() {
    let plan = vec!["8.8.8.8".to_string(), "9.9.9.9".to_string()];
    let outcomes = vec![ScanOutcome::Failed, ScanOutcome::Completed(vec![port("53", "open", "domain")])];
    let results = collect_scan_results(&plan, &outcomes);
    assert_eq!(results.len(), 2);
    assert_eq!(results[0].0, "8.8.8.8");
    assert!(results[0].1.is_empty());
    assert_eq!(results[1].0, "9.9.9.9");
    assert_eq!(results[1].1, vec![port("53", "open", "domain")]);
}

#[test]
fn targets_sharing_an_address_get_identical_ports() {
    let records = vec![
        resolution_record("a.example.com".to_string(), "93.184.216.34".to_string()),
        resolution_record("b.example.com".to_string(), "93.184.216.34".to_string()),
    ];
    let plan = scan_plan(&records).unwrap();
    assert_eq!(plan.len(), 1);
    let outcomes = vec![ScanOutcome::Completed(vec![
        port("80", "open", "http"),
        port("443", "open", "https"),
        port("8080", "closed", "http-proxy"),
    ])];
    let results = collect_scan_results(&plan, &outcomes);
    let out = remap_scan_results(&records, &results);
    assert_eq!(out.len(), 2);
    let expected = vec![port("80", "open", "http"), port("443", "open", "https")];
    assert_eq!(out[0].0, "a.example.com");
    assert_eq!(out[0].1.ip, "93.184.216.34");
    assert_eq!(out[0].1.ports_data, expected);
    assert_eq!(out[1].0, "b.example.com");
    assert_eq!(out[1].1.ip, "93.184.216.34");
    assert_eq!(out[1].1.ports_data, out[0].1.ports_data);
}

#[test]
fn private_addresses_keep_their_address_and_no_ports() {
    let records = vec![resolution_record("x.local".to_string(), "192.168.1.5".to_string())];
    let out = remap_scan_results(&records, &Vec::new());
    assert_eq!(out.len(), 1);
    assert_eq!(out[0].0, "x.local");
    assert_eq!(out[0].1.ip, "192.168.1.5");
    assert!(out[0].1.ports_data.is_empty());
}

#[test]
fn unresolved_targets_get_empty_address_and_ports() {
    let records = vec![resolution_record("bad.nonexistent".to_string(), String::new())];
    let out = remap_scan_results(&records, &Vec::new());
    assert_eq!(out.len(), 1);
    assert_eq!(out[0].0, "bad.nonexistent");
    assert_eq!(out[0].1.ip, "");
    assert!(out[0].1.ports_data.is_empty());
}

#[test]
fn dispatch_remaps_every_kind_of_target() {
    let records = vec![
        resolution_record("a.example.com".to_string(), "93.184.216.34".to_string()),
        resolution_record("b.example.com".to_string(), "93.184.216.34".to_string()),
        resolution_record("x.local".to_string(), "192.168.1.5".to_string()),
        resolution_record("bad.nonexistent".to_string(), String::new()),
    ];
    let plan = scan_plan(&records).unwrap();
    assert_eq!(plan, vec!["93.184.216.34".to_string()]);
    let outcomes = vec![ScanOutcome::Completed(vec![
        port("80", "open", "http"),
        port("22", "filtered", "ssh"),
    ])];
    let out = dispatch_and_remap(&records, &plan, &outcomes);
    assert_eq!(out.len(), 4);
    let expected = vec![port("80", "open", "http")];
    assert_eq!(out[0].1.ports_data, expected);
    assert_eq!(out[1].1.ports_data, expected);
    assert_eq!(out[2].1.ip, "192.168.1.5");
    assert!(out[2].1.ports_data.is_empty());
    assert_eq!(out[3].1.ip, "");
    assert!(out[3].1.ports_data.is_empty());
}

#[test]
fn every_configuration_error_is_fatal() {
    assert_ne!(
        PipelineError::UnparsableResolverAddress("x".to_string()).exit_code(),
        0
    );
    assert_ne!(PipelineError::LogsDirUnavailable.exit_code(), 0);
    assert_ne!(PipelineError::NoEligibleAddresses.exit_code(), 0);
}

#[test]
fn resolv_data_default_is_empty() {
    let d = ResolvData::default();
    assert_eq!(d.ip, "");
    assert!(d.ports_data.is_empty());
}
