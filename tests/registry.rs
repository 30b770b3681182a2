use worker_registry::clock::now_seconds;
use worker_registry::registry::{AccessError, Contract, RegisterError, Worker};

fn s(text: &str) -> String {
    text.to_string()
}

fn empty_collateral() -> String {
    let mut json = s("{\"pck_crl_issuer_chain\":\"\",\"root_ca_crl\":\"\",\"pck_crl\":\"\",");
    json.push_str("\"tcb_info_issuer_chain\":\"\",\"tcb_info\":\"\",\"tcb_info_signature\":\"\",");
    json.push_str("\"qe_identity_issuer_chain\":\"\",\"qe_identity\":\"\",\"qe_identity_signature\":\"\"}");
    json
}

fn record_of(c: &Contract, account: &str) -> Option<(String, String)> {
    c.get_worker(&s(account))
        .map(|w| (w.checksum().clone(), w.codehash().clone()))
}

#[test]
fn time_is_truncated_to_whole_seconds() {
    assert_eq!(now_seconds(1_699_999_999_500_000_000), 1_699_999_999);
    assert_eq!(now_seconds(999_999_999), 0);
    assert_eq!(now_seconds(1_000_000_000), 1);
    assert_eq!(now_seconds(u64::MAX), 18_446_744_073);
}

#[test]
fn init_sets_owner_and_empty_registry() {
    let c = Contract::init(s("alice"));
    assert_eq!(c.owner_id(), "alice");
    assert!(c.get_worker(&s("alice")).is_none());
    assert!(c.get_worker(&s("bob")).is_none());
}

#[test]
fn worker_accessors() {
    let w = Worker::new(s("sum"), s("hash"));
    assert_eq!(w.checksum(), "sum");
    assert_eq!(w.codehash(), "hash");
}

#[test]
fn scenario_accept_reject_and_guards() {
    let mut c = Contract::init(s("alice"));
    assert!(c.record_verdict(s("bob"), true, s("sum-1"), s("hash-1")));
    assert_eq!(record_of(&c, "bob"), Some((s("sum-1"), s("hash-1"))));

    let r = c.register_worker(s("bob"), s("00"), empty_collateral(), s("sum-2"), s("hash-2"), 1);
    assert_eq!(r, Ok(false));
    assert_eq!(record_of(&c, "bob"), Some((s("sum-1"), s("hash-1"))));

    assert_eq!(c.require_worker(&s("bob"), s("wrong-hash")), Err(AccessError::CodehashMismatch));
    assert_eq!(c.require_worker(&s("bob"), s("hash-1")), Ok(()));
    assert_eq!(c.require_owner(&s("bob")), Err(AccessError::NotOwner));
    assert_eq!(c.require_owner(&s("alice")), Ok(()));
}

#[test]
fn rejected_verdict_changes_nothing() {
    let mut c = Contract::init(s("alice"));
    assert!(!c.record_verdict(s("bob"), false, s("sum"), s("hash")));
    assert!(c.get_worker(&s("bob")).is_none());
}

#[test]
fn rejected_quote_changes_nothing() {
    let mut c = Contract::init(s("alice"));
    let r = c.register_worker(s("bob"), s("deadbeef"), empty_collateral(), s("sum"), s("hash"), 1_699_999_999_500_000_000);
    assert_eq!(r, Ok(false));
    assert!(c.get_worker(&s("bob")).is_none());
}

#[test]
fn unresolvable_collateral_is_an_error() {
    let mut c = Contract::init(s("alice"));
    let r = c.register_worker(s("bob"), s("00"), s("no such bundle"), s("sum"), s("hash"), 0);
    assert_eq!(r, Err(RegisterError::UnresolvableCollateral));
    let r = c.register_worker(s("bob"), s("zz"), s("{}"), s("sum"), s("hash"), 0);
    assert_eq!(r, Err(RegisterError::UnresolvableCollateral));
    assert!(c.get_worker(&s("bob")).is_none());
}

#[test]
fn malformed_quote_is_an_error() {
    let mut c = Contract::init(s("alice"));
    for quote in ["zz", "0", "abc", "0g", "é0"] {
        let r = c.register_worker(s("bob"), s(quote), empty_collateral(), s("sum"), s("hash"), 0);
        assert_eq!(r, Err(RegisterError::MalformedQuote));
    }
    assert!(c.get_worker(&s("bob")).is_none());
}

#[test]
fn well_formed_quote_reaches_verification() {
    let mut c = Contract::init(s("alice"));
    for quote in ["", "00", "AbCdEf", "0123456789abcdef"] {
        let r = c.register_worker(s("bob"), s(quote), empty_collateral(), s("sum"), s("hash"), 0);
        assert_eq!(r, Ok(false));
    }
}

#[test]
fn registering_twice_with_same_inputs_is_idempotent() {
    let mut c = Contract::init(s("alice"));
    assert!(c.record_verdict(s("bob"), true, s("sum"), s("hash")));
    assert!(c.record_verdict(s("bob"), true, s("sum"), s("hash")));
    assert_eq!(record_of(&c, "bob"), Some((s("sum"), s("hash"))));
}

#[test]
fn registering_again_replaces_the_record() {
    let mut c = Contract::init(s("alice"));
    assert!(c.record_verdict(s("bob"), true, s("sum-a"), s("hash-a")));
    assert!(c.record_verdict(s("carol"), true, s("sum-c"), s("hash-c")));
    assert!(c.record_verdict(s("bob"), true, s("sum-b"), s("hash-b")));
    assert_eq!(record_of(&c, "bob"), Some((s("sum-b"), s("hash-b"))));
    assert_eq!(record_of(&c, "carol"), Some((s("sum-c"), s("hash-c"))));
    assert_eq!(c.require_worker(&s("bob"), s("hash-a")), Err(AccessError::CodehashMismatch));
}

#[test]
fn owner_never_changes() {
    let mut c = Contract::init(s("alice"));
    c.record_verdict(s("alice"), true, s("sum"), s("hash"));
    c.record_verdict(s("bob"), true, s("sum"), s("hash"));
    let _ = c.register_worker(s("mallory"), s("00"), empty_collateral(), s("sum"), s("hash"), 0);
    let _ = c.register_worker(s("mallory"), s("zz"), s("x"), s("sum"), s("hash"), 0);
    assert_eq!(c.owner_id(), "alice");
    assert_eq!(c.require_owner(&s("alice")), Ok(()));
    assert_eq!(c.require_owner(&s("mallory")), Err(AccessError::NotOwner));
}

#[test]
fn require_worker_without_record_fails() {
    let mut c = Contract::init(s("alice"));
    assert_eq!(c.require_worker(&s("bob"), s("hash")), Err(AccessError::UnknownWorker));
    c.record_verdict(s("carol"), true, s("sum"), s("hash"));
    assert_eq!(c.require_worker(&s("bob"), s("hash")), Err(AccessError::UnknownWorker));
    assert_eq!(c.require_worker(&s("carol"), s("hash")), Ok(()));
}

#[test]
fn require_owner_checks_exact_identity() {
    let c = Contract::init(s("alice"));
    assert_eq!(c.require_owner(&s("alice")), Ok(()));
    assert_eq!(c.require_owner(&s("Alice")), Err(AccessError::NotOwner));
    assert_eq!(c.require_owner(&s("alice.near")), Err(AccessError::NotOwner));
    assert_eq!(c.require_owner(&s("")), Err(AccessError::NotOwner));
}

#[test]
fn entries_round_trip() {
    let mut c = Contract::init(s("alice"));
    c.record_verdict(s("bob"), true, s("sum-b"), s("hash-b"));
    c.record_verdict(s("carol"), true, s("sum-c"), s("hash-c"));
    c.record_verdict(s("bob"), true, s("sum-b2"), s("hash-b2"));
    let (owner, entries) = c.into_entries();
    assert_eq!(owner, "alice");
    assert_eq!(entries.len(), 2);
    let c = Contract::from_entries(owner, entries).expect("entries are unique");
    assert_eq!(record_of(&c, "bob"), Some((s("sum-b2"), s("hash-b2"))));
    assert_eq!(record_of(&c, "carol"), Some((s("sum-c"), s("hash-c"))));
    assert_eq!(c.require_owner(&s("alice")), Ok(()));
}

#[test]
fn from_entries_refuses_duplicate_accounts() {
    let entries = vec![
        (s("bob"), Worker::new(s("a"), s("b"))),
        (s("carol"), Worker::new(s("c"), s("d"))),
        (s("bob"), Worker::new(s("e"), s("f"))),
    ];
    assert!(Contract::from_entries(s("alice"), entries).is_none());
    let c = Contract::from_entries(s("alice"), Vec::new()).expect("no entries");
    assert!(c.get_worker(&s("bob")).is_none());
}

#[test]
fn worker_clone_keeps_fields() {
    let w = Worker::new(s("sum"), s("hash"));
    let c = w.clone();
    assert_eq!(c.checksum(), "sum");
    assert_eq!(c.codehash(), "hash");
}
