use tldcheck::domain::Domain;
use tldcheck::snapshot::TldSnapshot;
use tldcheck::validator::DomainValidator;
use tldcheck::validator::RefreshOutcome;
use tldcheck::validator::ValidationError;
use tldcheck::validator::ValidationStep;

fn dom(s: &str) -> Domain {
    Domain::new(s.to_string()).unwrap()
}

#[test]
fn seeded_tld_is_accepted_locally() {
    let mut v = DomainValidator::new(TldSnapshot::parse("com\nnet"));
    let step = v.validate(&dom("example.com"));
    assert_eq!(step, ValidationStep::Accept);
    // no fetch was started and none has completed
    assert!(!v.is_refreshing());
    assert!(!v.has_refreshed());
    assert_eq!(v.validate(&dom("example.net")), ValidationStep::Accept);
}

#[test]
fn scenario_seed_refresh_then_authoritative_miss() {
    let mut v = DomainValidator::new(TldSnapshot::parse("com\nnet"));
    assert_eq!(v.validate(&dom("example.com")), ValidationStep::Accept);

    // an unknown TLD makes this caller the owner of the one refresh
    let d_zz = dom("example.zz");
    assert_eq!(v.validate(&d_zz), ValidationStep::StartRefresh);
    assert!(v.is_refreshing());

    // the network returns {com, net, zz}
    let (outcome, waiters) = v.finish_refresh(Some("com\nnet\nzz"));
    assert_eq!(outcome, RefreshOutcome::Success);
    assert_eq!(waiters, 0);
    assert!(v.has_refreshed());
    assert!(!v.is_refreshing());
    assert_eq!(v.resolve_after_refresh(&d_zz, outcome), Ok(()));

    // a miss is now authoritative: no further fetch is attempted
    assert_eq!(
        v.validate(&dom("example.qq")),
        ValidationStep::Reject(ValidationError::InvalidTld)
    );
    assert!(!v.is_refreshing());
}

#[test]
fn concurrent_misses_share_one_fetch() {
    let mut v = DomainValidator::new(TldSnapshot::parse("com"));
    let d1 = dom("one.zz");
    let d2 = dom("two.zz");
    let d3 = dom("three.zz");

    // only the first caller starts a fetch; the rest become waiters
    assert_eq!(v.validate(&d1), ValidationStep::StartRefresh);
    assert_eq!(v.validate(&d2), ValidationStep::AwaitRefresh);
    assert_eq!(v.validate(&d3), ValidationStep::AwaitRefresh);
    assert!(v.is_refreshing());

    let (outcome, waiters) = v.finish_refresh(Some("com\nzz"));
    assert_eq!(outcome, RefreshOutcome::Success);
    assert_eq!(waiters, 2);

    // every caller settles consistently with the one outcome
    assert_eq!(v.resolve_after_refresh(&d1, outcome), Ok(()));
    assert_eq!(v.resolve_after_refresh(&d2, outcome), Ok(()));
    assert_eq!(v.resolve_after_refresh(&d3, outcome), Ok(()));
}

#[test]
fn failed_fetch_reaches_every_waiter_and_recovers() {
    let mut v = DomainValidator::new(TldSnapshot::parse("com"));
    let d1 = dom("one.zz");
    let d2 = dom("two.zz");

    assert_eq!(v.validate(&d1), ValidationStep::StartRefresh);
    assert_eq!(v.validate(&d2), ValidationStep::AwaitRefresh);

    let (outcome, waiters) = v.finish_refresh(None);
    assert_eq!(outcome, RefreshOutcome::Failure);
    assert_eq!(waiters, 1);
    assert_eq!(
        v.resolve_after_refresh(&d1, outcome),
        Err(ValidationError::RefreshFailed)
    );
    assert_eq!(
        v.resolve_after_refresh(&d2, outcome),
        Err(ValidationError::RefreshFailed)
    );

    // the coordinator is idle again: the next caller may attempt a fresh
    // refresh instead of hanging, and the snapshot is unchanged
    assert!(!v.is_refreshing());
    assert!(!v.has_refreshed());
    assert_eq!(v.validate(&dom("example.com")), ValidationStep::Accept);
    assert_eq!(v.validate(&dom("three.zz")), ValidationStep::StartRefresh);

    // the second attempt may succeed
    let (outcome2, _) = v.finish_refresh(Some("com\nzz"));
    assert_eq!(outcome2, RefreshOutcome::Success);
    assert_eq!(v.validate(&dom("four.zz")), ValidationStep::Accept);
}

#[test]
fn local_is_always_accepted() {
    let mut empty = DomainValidator::new(TldSnapshot::parse(""));
    assert_eq!(empty.validate(&dom("server.local")), ValidationStep::Accept);

    let mut seeded = DomainValidator::new(TldSnapshot::parse("com"));
    assert_eq!(seeded.validate(&dom("printer.local")), ValidationStep::Accept);
    assert!(seeded.is_valid_tld("local"));

    // still accepted after a refresh that does not list it
    assert_eq!(seeded.validate(&dom("a.zz")), ValidationStep::StartRefresh);
    let (outcome, _) = seeded.finish_refresh(Some("com"));
    assert_eq!(outcome, RefreshOutcome::Success);
    assert_eq!(seeded.validate(&dom("printer.local")), ValidationStep::Accept);
}

#[test]
fn is_valid_tld_queries_the_snapshot() {
    let v = DomainValidator::new(TldSnapshot::parse("com\nnet"));
    assert!(v.is_valid_tld("com"));
    assert!(v.is_valid_tld("net"));
    assert!(!v.is_valid_tld("org"));
    // membership is over the lowercased snapshot entries, verbatim
    assert!(!v.is_valid_tld("COM"));
    assert!(!v.is_valid_tld(""));
}

#[test]
fn registry_listing_is_filtered_and_lowercased() {
    let listing = "# TLD list, fetched upstream\nCOM\nNet\n\nzz\r\n# trailing note";
    let mut v = DomainValidator::new(TldSnapshot::parse(listing));
    assert!(v.is_valid_tld("com"));
    assert!(v.is_valid_tld("net"));
    assert!(v.is_valid_tld("zz"));
    assert!(!v.is_valid_tld("COM"));
    assert!(!v.is_valid_tld(""));
    assert!(!v.is_valid_tld("# TLD list, fetched upstream".to_lowercase().as_str()));
    assert_eq!(v.validate(&dom("example.zz")), ValidationStep::Accept);

    // a comment line in a fetched body is ignored too
    assert_eq!(v.validate(&dom("a.qq")), ValidationStep::StartRefresh);
    let (outcome, _) = v.finish_refresh(Some("# qq\ncom"));
    assert_eq!(outcome, RefreshOutcome::Success);
    assert_eq!(
        v.validate(&dom("a.qq")),
        ValidationStep::Reject(ValidationError::InvalidTld)
    );
}
