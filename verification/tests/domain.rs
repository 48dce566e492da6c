use tldcheck::domain::Domain;
use tldcheck::domain::SyntaxError;

#[test]
fn accepts_plain_domain() {
    let d = Domain::new("example.com".to_string()).unwrap();
    assert_eq!(d.as_str(), "example.com.");
    assert_eq!(d.tld(), Some("com"));
    assert_eq!(d.root_domain(), "example.com");
}

#[test]
fn normalizes_to_lowercase() {
    let d = Domain::new("ExAmPlE.CoM".to_string()).unwrap();
    assert_eq!(d.as_str(), "example.com.");
    assert_eq!(d.tld(), Some("com"));
}

#[test]
fn subdomains_keep_root() {
    let d = Domain::new("a.b.example.org".to_string()).unwrap();
    assert_eq!(d.as_str(), "a.b.example.org.");
    assert_eq!(d.tld(), Some("org"));
    assert_eq!(d.root_domain(), "example.org");
}

#[test]
fn single_label_is_its_own_tld() {
    let d = Domain::new("com".to_string()).unwrap();
    assert_eq!(d.as_str(), "com.");
    assert_eq!(d.tld(), Some("com"));
    assert_eq!(d.root_domain(), "com");
}

#[test]
fn rejects_ipv4_literal() {
    let r = Domain::new("10.0.0.1".to_string());
    assert!(matches!(r, Err(SyntaxError::IpAddress)));
}

#[test]
fn rejects_ipv6_literals() {
    assert!(matches!(Domain::new("::1".to_string()), Err(SyntaxError::IpAddress)));
    assert!(matches!(Domain::new("fe80::1".to_string()), Err(SyntaxError::IpAddress)));
    assert!(matches!(
        Domain::new("1:2:3:4:5:6:7:8".to_string()),
        Err(SyntaxError::IpAddress)
    ));
    assert!(matches!(
        Domain::new("::ffff:192.168.0.1".to_string()),
        Err(SyntaxError::IpAddress)
    ));
    assert!(matches!(
        Domain::new("1:2:3:4:5:6:192.168.0.1".to_string()),
        Err(SyntaxError::IpAddress)
    ));
}

#[test]
fn near_miss_address_is_a_domain() {
    // 256 is no octet and 04 has a leading zero, so neither reads as IPv4.
    assert!(matches!(Domain::new("256.1.1.1".to_string()), Err(SyntaxError::TldLength)));
    let d = Domain::new("1.2.3.04".to_string()).unwrap();
    assert_eq!(d.tld(), Some("04"));
    // nine groups are one too many for IPv6
    assert!(Domain::new("1:2:3:4:5:6:7:8:9".to_string()).is_ok());
}

#[test]
fn rejects_overlong_label() {
    let label = "a".repeat(64);
    let r = Domain::new(format!("{label}.com"));
    assert!(matches!(r, Err(SyntaxError::LabelLength)));
    let fine = "a".repeat(63);
    assert!(Domain::new(format!("{fine}.com")).is_ok());
}

#[test]
fn rejects_bad_tld_length() {
    assert!(matches!(Domain::new("example.c".to_string()), Err(SyntaxError::TldLength)));
    let long = "t".repeat(64);
    assert!(matches!(
        Domain::new(format!("example.{long}")),
        Err(SyntaxError::TldLength)
    ));
    let edge = "t".repeat(63);
    assert!(Domain::new(format!("example.{edge}")).is_ok());
}

#[test]
fn rejects_empty_and_trailing_dot() {
    // a trailing dot leaves an empty rightmost label
    assert!(matches!(
        Domain::new("example.com.".to_string()),
        Err(SyntaxError::TldLength)
    ));
    assert!(matches!(Domain::new("".to_string()), Err(SyntaxError::TldLength)));
    assert!(matches!(Domain::new("ex..com".to_string()), Err(SyntaxError::LabelLength)));
}

#[test]
fn is_rfc_compliant_checks_labels_only() {
    assert!(Domain::is_rfc_compliant("example.com").is_ok());
    assert!(matches!(
        Domain::is_rfc_compliant("a.b"),
        Err(SyntaxError::TldLength)
    ));
    assert!(matches!(
        Domain::is_rfc_compliant("..com"),
        Err(SyntaxError::LabelLength)
    ));
    // the label check alone does not reject an address shape
    assert!(Domain::is_rfc_compliant("10.0.0.12").is_ok());
}
