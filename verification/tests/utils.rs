use tldcheck::utils::port_from_protocol;
use tldcheck::utils::validate_fqdn_or_ip;
use tldcheck::utils::FqdnError;

#[test]
fn known_ports() {
    assert_eq!(port_from_protocol("http"), 80);
    assert_eq!(port_from_protocol("https"), 443);
    assert_eq!(port_from_protocol("ftp"), 21);
    assert_eq!(port_from_protocol("ssh"), 22);
    assert_eq!(port_from_protocol("smtp"), 25);
    assert_eq!(port_from_protocol("pop3"), 110);
    assert_eq!(port_from_protocol("imap"), 143);
}

#[test]
fn ports_ignore_case_and_unknown_is_zero() {
    assert_eq!(port_from_protocol("HTTPS"), 443);
    assert_eq!(port_from_protocol("Http"), 80);
    assert_eq!(port_from_protocol("gopher"), 0);
    assert_eq!(port_from_protocol(""), 0);
}

#[test]
fn fqdn_accepts_addresses_verbatim() {
    assert!(validate_fqdn_or_ip("10.0.0.1").is_ok());
    assert!(validate_fqdn_or_ip("::1").is_ok());
    assert!(validate_fqdn_or_ip("fe80::dead:beef").is_ok());
}

#[test]
fn fqdn_accepts_well_formed_names() {
    assert!(validate_fqdn_or_ip("example.com").is_ok());
    assert!(validate_fqdn_or_ip("a-b.example.co.uk").is_ok());
    assert!(validate_fqdn_or_ip("x").is_ok());
}

#[test]
fn fqdn_rejects_each_fault() {
    assert_eq!(validate_fqdn_or_ip(""), Err(FqdnError::Empty));
    let long = "a.".repeat(127) + "toolong";
    assert!(long.len() > 255);
    assert_eq!(validate_fqdn_or_ip(&long), Err(FqdnError::TooLong));
    assert_eq!(validate_fqdn_or_ip("example.com."), Err(FqdnError::TrailingDot));
    assert_eq!(validate_fqdn_or_ip("ex..com"), Err(FqdnError::EmptyLabel));
    let label = "a".repeat(64);
    assert_eq!(
        validate_fqdn_or_ip(&format!("{label}.com")),
        Err(FqdnError::LabelTooLong)
    );
    assert_eq!(validate_fqdn_or_ip("-a.com"), Err(FqdnError::HyphenEdge));
    assert_eq!(validate_fqdn_or_ip("a-.com"), Err(FqdnError::HyphenEdge));
    assert_eq!(validate_fqdn_or_ip("a_b.com"), Err(FqdnError::InvalidChar));
    assert_eq!(validate_fqdn_or_ip("ex\u{e4}mple.com"), Err(FqdnError::InvalidChar));
}

#[test]
fn fqdn_reports_the_first_fault() {
    // the empty second label is hit before the bad character further right
    assert_eq!(validate_fqdn_or_ip("ok..a_b"), Err(FqdnError::EmptyLabel));
}
