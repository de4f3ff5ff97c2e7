use dyndns::address::{classify_address, looks_like_ipv6, record_type_for, RecordType};
use dyndns::digest::{same_text, secret_digest, to_lower_hex};
use dyndns::handler::{advance, reply_text, status_code, step, Action, DnsChange, Event, HandlerError, Outcome, Phase};
use dyndns::record::{credential_from_item, item_for_record, StoredField, StoredItem, UpdateRequest};

fn digest_text(secret: &str) -> String {
    secret_digest(secret).into_iter().collect()
}

fn text(s: &str) -> StoredField {
    StoredField::Text(s.to_string())
}

fn item(secret_hash: &str, domain: &str, zone_id: &str, last_set: &str) -> StoredItem {
    StoredItem { secret: text(secret_hash), domain: text(domain), zone_id: text(zone_id), last_set: text(last_set) }
}

fn request(key: &str, secret: &str) -> UpdateRequest {
    UpdateRequest { key: key.to_string(), secret: secret.to_string() }
}

fn received(req: Option<UpdateRequest>, source: Option<&str>) -> Event {
    Event::Received { configured: true, request: req, source: source.map(|s| s.to_string()) }
}

fn reply_of(action: Action) -> Result<Outcome, HandlerError> {
    match action {
        Action::Respond(r) => r,
        _ => panic!("expected a reply"),
    }
}

/// Runs one request against an in-memory store; `dns` collects the changes submitted.
fn run(
    store: &mut Option<StoredItem>,
    dns: &mut Vec<DnsChange>,
    req: Option<UpdateRequest>,
    source: Option<&str>,
) -> Result<Outcome, HandlerError> {
    let mut state = advance(Phase::Idle, received(req, source));
    loop {
        let (phase, action) = state;
        let event = match action {
            Action::Respond(r) => return r,
            Action::FetchRecord(_) => Event::Fetched(store.take().map(|i| {
                let copy = clone_item(&i);
                *store = Some(i);
                copy
            })),
            Action::ApplyDns(change) => {
                dns.push(change);
                Event::DnsApplied
            }
            Action::StoreRecord(record) => {
                *store = Some(item_for_record(&record));
                Event::Stored
            }
        };
        state = advance(phase, event);
    }
}

fn clone_field(f: &StoredField) -> StoredField {
    match f {
        StoredField::Missing => StoredField::Missing,
        StoredField::Text(s) => StoredField::Text(s.clone()),
        StoredField::NotText => StoredField::NotText,
    }
}

fn clone_item(i: &StoredItem) -> StoredItem {
    StoredItem {
        secret: clone_field(&i.secret),
        domain: clone_field(&i.domain),
        zone_id: clone_field(&i.zone_id),
        last_set: clone_field(&i.last_set),
    }
}

fn last_set(store: &Option<StoredItem>) -> String {
    match store {
        Some(StoredItem { last_set: StoredField::Text(s), .. }) => s.clone(),
        _ => panic!("no stored address"),
    }
}

#[test]
fn known_scenario_updates_record() {
    let mut store = Some(item(&digest_text("s3cr3t"), "host.example.com", "Z123", "1.2.3.3"));
    let mut dns = Vec::new();
    let r = run(&mut store, &mut dns, Some(request("abc", "s3cr3t")), Some("1.2.3.4"));
    assert_eq!(r, Ok(Outcome::Updated));
    assert_eq!(dns.len(), 1);
    assert_eq!(dns[0].domain, "host.example.com");
    assert_eq!(dns[0].zone_id, "Z123");
    assert_eq!(dns[0].record_type, RecordType::A);
    assert_eq!(dns[0].value, "1.2.3.4");
    assert_eq!(dns[0].ttl, 60);
    assert_eq!(last_set(&store), "1.2.3.4");
    assert_eq!(status_code(&r), 200);
    assert_eq!(reply_text(&r), "Record updated");
}

#[test]
fn same_address_is_unchanged() {
    let mut store = Some(item(&digest_text("pw"), "h.example.com", "Z1", "10.0.0.1"));
    let mut dns = Vec::new();
    let r = run(&mut store, &mut dns, Some(request("k", "pw")), Some("10.0.0.1"));
    assert_eq!(r, Ok(Outcome::Unchanged));
    assert!(dns.is_empty());
    assert_eq!(last_set(&store), "10.0.0.1");
    assert_eq!(reply_text(&r), "No ip change");
}

#[test]
fn repeated_update_is_unchanged() {
    let mut store = Some(item(&digest_text("pw"), "h.example.com", "Z1", "10.0.0.1"));
    let mut dns = Vec::new();
    let first = run(&mut store, &mut dns, Some(request("k", "pw")), Some("10.0.0.2"));
    let second = run(&mut store, &mut dns, Some(request("k", "pw")), Some("10.0.0.2"));
    assert_eq!(first, Ok(Outcome::Updated));
    assert_eq!(second, Ok(Outcome::Unchanged));
    assert_eq!(dns.len(), 1);
}

#[test]
fn wrong_secret_is_unauthorized() {
    for source in ["10.0.0.1", "10.0.0.9", "2001:db8::1"] {
        let mut store = Some(item(&digest_text("pw"), "h.example.com", "Z1", "10.0.0.1"));
        let mut dns = Vec::new();
        let r = run(&mut store, &mut dns, Some(request("k", "other")), Some(source));
        assert_eq!(r, Err(HandlerError::Auth));
        assert!(dns.is_empty());
        assert_eq!(status_code(&r), 401);
    }
}

#[test]
fn unknown_key_is_unauthorized() {
    let mut store = None;
    let mut dns = Vec::new();
    let r = run(&mut store, &mut dns, Some(request("nobody", "pw")), Some("10.0.0.1"));
    assert_eq!(r, Err(HandlerError::Auth));
    assert_eq!(reply_text(&r), "Not authorized");
}

#[test]
fn undecodable_body_is_invalid() {
    let r = reply_of(advance(Phase::Idle, received(None, Some("10.0.0.1"))).1);
    assert_eq!(r, Err(HandlerError::Validation));
    assert_eq!(status_code(&r), 400);
    assert_eq!(reply_text(&r), "Bad Request");
}

#[test]
fn missing_source_is_invalid() {
    let r = reply_of(advance(Phase::Idle, received(Some(request("k", "pw")), None)).1);
    assert_eq!(r, Err(HandlerError::Validation));
}

#[test]
fn unconfigured_store_is_internal_error() {
    let event = Event::Received { configured: false, request: Some(request("k", "pw")), source: Some("1.2.3.4".to_string()) };
    let r = reply_of(advance(Phase::Idle, event).1);
    assert_eq!(r, Err(HandlerError::Internal));
    assert_eq!(status_code(&r), 500);
    assert_eq!(reply_text(&r), "Internal Server Error");
}

#[test]
fn invalid_address_never_reaches_dns() {
    let mut store = Some(item(&digest_text("pw"), "h.example.com", "Z1", "10.0.0.1"));
    let mut dns = Vec::new();
    let r = run(&mut store, &mut dns, Some(request("k", "pw")), Some("not-an-address"));
    assert_eq!(r, Err(HandlerError::Validation));
    assert!(dns.is_empty());
    assert_eq!(last_set(&store), "10.0.0.1");
}

#[test]
fn ipv6_address_gets_aaaa_record() {
    let mut store = Some(item(&digest_text("pw"), "h.example.com", "Z1", "10.0.0.1"));
    let mut dns = Vec::new();
    let r = run(&mut store, &mut dns, Some(request("k", "pw")), Some("2001:db8::1"));
    assert_eq!(r, Ok(Outcome::Updated));
    assert_eq!(dns[0].record_type, RecordType::Aaaa);
    assert_eq!(last_set(&store), "2001:db8::1");
}

#[test]
fn dns_failure_leaves_store_untouched() {
    let (phase, action) = advance(
        Phase::Fetching { request: request("k", "pw"), source: "10.0.0.2".to_string() },
        Event::Fetched(Some(item(&digest_text("pw"), "h.example.com", "Z1", "10.0.0.1"))),
    );
    assert!(matches!(action, Action::ApplyDns(_)));
    let r = reply_of(advance(phase, Event::Failed).1);
    assert_eq!(r, Err(HandlerError::Internal));
}

#[test]
fn store_write_failure_is_internal_error() {
    let r = reply_of(advance(Phase::Storing, Event::Failed).1);
    assert_eq!(r, Err(HandlerError::Internal));
}

#[test]
fn store_read_failure_is_internal_error() {
    let phase = Phase::Fetching { request: request("k", "pw"), source: "10.0.0.2".to_string() };
    let r = reply_of(advance(phase, Event::Failed).1);
    assert_eq!(r, Err(HandlerError::Internal));
}

#[test]
fn damaged_record_is_internal_error() {
    let mut broken = item(&digest_text("pw"), "h.example.com", "Z1", "10.0.0.1");
    broken.zone_id = StoredField::NotText;
    let phase = Phase::Fetching { request: request("k", "pw"), source: "10.0.0.2".to_string() };
    let r = reply_of(advance(phase, Event::Fetched(Some(broken))).1);
    assert_eq!(r, Err(HandlerError::Internal));
}

#[test]
fn record_type_selection() {
    assert_eq!(classify_address("1.2.3.4"), Some(Some(RecordType::A)));
    assert_eq!(classify_address("255.255.255.255"), Some(Some(RecordType::A)));
    assert_eq!(classify_address("2001:db8::1"), Some(Some(RecordType::Aaaa)));
    assert_eq!(classify_address("::1"), Some(Some(RecordType::Aaaa)));
    assert_eq!(classify_address("1.2.3.256"), Some(None));
    assert_eq!(classify_address("1.2.3"), Some(None));
    assert_eq!(classify_address("garbage"), Some(None));
    assert_eq!(classify_address(""), Some(None));
}

#[test]
fn record_type_from_pattern_verdict() {
    assert_eq!(record_type_for("anything", Some(true)), Some(Some(RecordType::A)));
    assert_eq!(record_type_for("fe80::1", Some(false)), Some(Some(RecordType::Aaaa)));
    assert_eq!(record_type_for("fe80::1", None), None);
    assert_eq!(record_type_for("x", Some(false)), Some(None));
}

#[test]
fn ipv6_text_shape() {
    assert!(looks_like_ipv6("2001:0db8:85a3:0000:0000:8a2e:0370:7334"));
    assert!(looks_like_ipv6("::"));
    assert!(!looks_like_ipv6("1:2"));
    assert!(!looks_like_ipv6("12345::1"));
    assert!(!looks_like_ipv6("2001:db8::g"));
    assert!(!looks_like_ipv6("1:2:3:4:5:6:7:8:9"));
    assert!(!looks_like_ipv6("2001:0db8:85a3:0000:0000:8a2e:0370:7334:"));
    assert!(looks_like_ipv6("1:2:3:4:5:6:7:8"));
    assert!(looks_like_ipv6("1::"));
    assert!(looks_like_ipv6("1:2:3:4:5:6:7::"));
    assert!(!looks_like_ipv6("1:2:3"));
    assert!(!looks_like_ipv6(":1::2"));
    assert!(!looks_like_ipv6("1::2:"));
    assert!(!looks_like_ipv6("1::2::3"));
    assert!(!looks_like_ipv6("1:::2"));
    assert!(!looks_like_ipv6("1::2:3:4:5:6:7:8"));
}

#[test]
fn ipv6_text_with_dotted_quad() {
    assert!(looks_like_ipv6("::ffff:1.2.3.4"));
    assert!(looks_like_ipv6("::1.2.3.4"));
    assert!(looks_like_ipv6("1:2:3:4:5:6:10.0.0.255"));
    assert!(looks_like_ipv6("64:ff9b::192.0.2.33"));
    assert!(!looks_like_ipv6("1:2:3:4:5:6:7:1.2.3.4"));
    assert!(!looks_like_ipv6("1:2:3:4:5:1.2.3.4"));
    assert!(!looks_like_ipv6("::ffff:1.2.3.256"));
    assert!(!looks_like_ipv6("::ffff:01.2.3.4"));
    assert!(!looks_like_ipv6("::ffff:1.2.3"));
    assert!(!looks_like_ipv6("::ffff:1.2.3.4.5"));
    assert!(!looks_like_ipv6("::ffff:1..2.3"));
    assert!(!looks_like_ipv6("1.2.3.4"));
    assert!(!looks_like_ipv6("::ffff:1.2.3.4:"));
}

#[test]
fn mixed_ipv6_address_is_updated() {
    assert_eq!(classify_address("::ffff:1.2.3.4"), Some(Some(RecordType::Aaaa)));
    let mut store = Some(item(&digest_text("pw"), "h.example.com", "Z1", "10.0.0.1"));
    let mut dns = Vec::new();
    let r = run(&mut store, &mut dns, Some(request("k", "pw")), Some("::ffff:1.2.3.4"));
    assert_eq!(r, Ok(Outcome::Updated));
    assert_eq!(dns[0].record_type, RecordType::Aaaa);
    assert_eq!(dns[0].value, "::ffff:1.2.3.4");
    assert_eq!(last_set(&store), "::ffff:1.2.3.4");
}

#[test]
fn non_ascii_digits_are_not_ipv4() {
    assert_eq!(classify_address("\u{661}.2.3.4"), Some(None));
    assert_eq!(classify_address("1.2.3.\u{664}"), Some(None));
}

#[test]
fn hex_encoding() {
    let hex: String = to_lower_hex(&vec![0x00, 0xab, 0x0f, 0xff]).into_iter().collect();
    assert_eq!(hex, "00ab0fff");
    assert!(to_lower_hex(&Vec::new()).is_empty());
}

#[test]
fn sha512_digest_text() {
    assert_eq!(
        digest_text("abc"),
        "ddaf35a193617abacc417349ae20413112e6fa4e89a97ea20a9eeee64b55d39a\
         2192992a274fc1a836ba3c23a3feebbd454d4423643ce80e2a9ac94fa54ca49f"
    );
    assert_eq!(digest_text("s3cr3t").len(), 128);
}

#[test]
fn text_comparison() {
    let a: Vec<char> = "abc".chars().collect();
    assert!(same_text(&a, "abc"));
    assert!(!same_text(&a, "abd"));
    assert!(!same_text(&a, "ab"));
}

#[test]
fn record_read_and_written_back() {
    let mut it = item("h", "d", "z", "1.1.1.1");
    let rec = credential_from_item(&"k".to_string(), &it).unwrap();
    assert_eq!(rec.key, "k");
    assert_eq!(rec.secret_hash, "h");
    assert_eq!(rec.domain, "d");
    assert_eq!(rec.zone_id, "z");
    assert_eq!(rec.last_set_address, "1.1.1.1");
    let back = item_for_record(&rec);
    assert!(matches!(back.last_set, StoredField::Text(ref s) if s == "1.1.1.1"));
    it.secret = StoredField::Missing;
    assert!(credential_from_item(&"k".to_string(), &it).is_none());
}

#[test]
fn step_takes_outside_results() {
    let presented: Vec<char> = "beef".chars().collect();
    let phase = Phase::Fetching { request: request("k", "pw"), source: "1.2.3.4".to_string() };
    let (_, action) = step(phase, Event::Fetched(Some(item("beef", "d", "z", "0.0.0.0"))), &presented, Some(true));
    match action {
        Action::ApplyDns(c) => {
            assert_eq!(c.record_type, RecordType::A);
            assert_eq!(c.value, "1.2.3.4");
        }
        _ => panic!("expected a DNS change"),
    }
    let phase = Phase::Fetching { request: request("k", "pw"), source: "1.2.3.4".to_string() };
    let r = reply_of(step(phase, Event::Fetched(Some(item("beef", "d", "z", "0.0.0.0"))), &presented, None).1);
    assert_eq!(r, Err(HandlerError::Internal));
}
