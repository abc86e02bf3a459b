use std::collections::hash_map::DefaultHasher;
use std::hash::Hasher;

use kubizone::delegation::{Delegation, RecordDelegation, ZoneDelegation};
use kubizone::digest::hash_zone;
use kubizone::domain::{DomainName, FullyQualifiedDomainName, PartiallyQualifiedDomainName};
use kubizone::pattern::Pattern;
use kubizone::resource::{
    copy_entries, same_entries, Record, RecordSpec, RecordStatus, Zone, ZoneEntry, ZoneRef,
    ZoneSpec, ZoneStatus,
};
use kubizone::rr::{Class, RecordType};
use kubizone::serial::{next_serial, today, CalendarDate};
use kubizone::text::{decimal_string, push_decimal, push_text};
use kubizone::zone::{
    collect_children, collect_record_entries, find_zone_nameserver_records, make_soa_entry,
    update_zone_status,
};

fn fqdn(text: &str) -> FullyQualifiedDomainName {
    FullyQualifiedDomainName::parse(text).unwrap()
}

fn day(year: i32, month: u8, day: u8) -> CalendarDate {
    CalendarDate { year, month, day }
}

fn spec(fqdn_text: &str, delegations: Vec<Delegation>) -> ZoneSpec {
    ZoneSpec {
        domain_name: DomainName::parse(fqdn_text).unwrap(),
        zone_ref: None,
        delegations,
        ttl: 360,
        refresh: 86400,
        retry: 7200,
        expire: 3600000,
        negative_response_cache: 360,
    }
}

fn open_zone(namespace: &str, name: &str, fqdn_text: &str) -> Zone {
    Zone {
        name: name.to_string(),
        namespace: namespace.to_string(),
        parent_zone: None,
        spec: spec(fqdn_text, vec![Delegation {
            namespaces: vec![],
            records: vec![RecordDelegation { pattern: Pattern::parse("*").unwrap(), types: vec![] }],
            zones: vec![ZoneDelegation { pattern: Pattern::parse("*").unwrap() }],
        }]),
        status: ZoneStatus { entries: vec![], fqdn: Some(fqdn(fqdn_text)), hash: None, serial: None },
    }
}

fn record(namespace: &str, name: &str, fqdn_text: &str, type_: RecordType, rdata: &str) -> Record {
    Record {
        name: name.to_string(),
        namespace: namespace.to_string(),
        parent_zone: None,
        spec: RecordSpec {
            domain_name: DomainName::parse(fqdn_text).unwrap(),
            zone_ref: None,
            type_,
            class: Class::IN,
            ttl: None,
            rdata: rdata.to_string(),
        },
        status: RecordStatus { fqdn: Some(fqdn(fqdn_text)) },
    }
}

fn entry(fqdn_text: &str, type_: RecordType, ttl: u32, rdata: &str) -> ZoneEntry {
    ZoneEntry { fqdn: fqdn(fqdn_text), type_, class: Class::IN, ttl, rdata: rdata.to_string() }
}

#[test]
fn decimal_writes_numbers_as_usual() {
    assert_eq!(decimal_string(0), "0");
    assert_eq!(decimal_string(7), "7");
    assert_eq!(decimal_string(10), "10");
    assert_eq!(decimal_string(2024030500), "2024030500");
    assert_eq!(decimal_string(u64::MAX), "18446744073709551615");
    let mut text = String::from("n=");
    push_decimal(&mut text, 1234567890);
    push_text(&mut text, "!");
    assert_eq!(text, "n=1234567890!");
}

#[test]
fn the_serial_is_dated_and_never_goes_back() {
    // A new day: the first serial of the day.
    assert_eq!(next_serial(true, 0, day(2024, 3, 5)), Some(2024030500));
    assert_eq!(next_serial(true, 2024030407, day(2024, 3, 5)), Some(2024030500));
    assert_eq!(next_serial(true, 2024030499, day(2024, 3, 5)), Some(2024030500));
    // The same day again: one more.
    assert_eq!(next_serial(true, 2024030500, day(2024, 3, 5)), Some(2024030501));
    // A serial from the future: one more.
    assert_eq!(next_serial(true, 2025010100, day(2024, 3, 5)), Some(2025010101));
    // No change: the serial stays.
    assert_eq!(next_serial(false, 2024030407, day(2024, 3, 5)), Some(2024030407));
    assert_eq!(next_serial(false, u32::MAX, day(2024, 3, 5)), Some(u32::MAX));
    assert_eq!(next_serial(false, 0, day(9999, 12, 31)), Some(0));
    // What 32 bits do not hold is not handed out.
    assert_eq!(next_serial(true, u32::MAX, day(2024, 3, 5)), None);
    assert_eq!(next_serial(true, 0, day(4294, 12, 31)), Some(4294123100));
    assert_eq!(next_serial(true, 0, day(4295, 1, 1)), None);
    assert_eq!(next_serial(true, 7, day(-1, 1, 1)), Some(8));
}

#[test]
fn today_is_a_day_of_the_calendar() {
    let now = today();
    assert!((1..=12).contains(&now.month));
    assert!((1..=31).contains(&now.day));
    assert!(now.year >= 2024);
}

#[test]
fn the_soa_entry_names_the_origin_and_the_timers() {
    let soa = make_soa_entry(&fqdn("example.org."), 2024030500, &spec("example.org.", vec![]));
    assert_eq!(soa.fqdn, fqdn("example.org."));
    assert_eq!(soa.type_, RecordType::SOA);
    assert_eq!(soa.class, Class::IN);
    assert_eq!(soa.ttl, 360);
    assert_eq!(soa.rdata, "ns.example.org. noc.example.org. (2024030500 86400 7200 3600000 360)");
}

fn count(n: usize) -> Vec<u8> {
    (n as u64).to_le_bytes().to_vec()
}

fn text(t: &str) -> Vec<u8> {
    let mut out = count(t.len());
    out.extend_from_slice(t.as_bytes());
    out
}

fn texts(ts: &[&str]) -> Vec<u8> {
    let mut out = count(ts.len());
    for t in ts {
        out.extend(text(t));
    }
    out
}

#[test]
fn the_hash_is_the_default_hash_of_the_canonical_bytes() {
    let mut zone_spec = spec("example.org.", vec![Delegation {
        namespaces: vec!["apps".to_string()],
        records: vec![RecordDelegation {
            pattern: Pattern::parse("*.dev").unwrap(),
            types: vec![RecordType::A, RecordType::Other("MX".to_string())],
        }],
        zones: vec![ZoneDelegation { pattern: Pattern::parse("sub").unwrap() }],
    }]);
    zone_spec.zone_ref = Some(ZoneRef { name: "up".to_string(), namespace: None });
    let entries = vec![entry("www.example.org.", RecordType::AAAA, 60, "::1")];

    let mut bytes: Vec<u8> = vec![];
    bytes.push(0);
    bytes.extend(texts(&["example", "org"]));
    bytes.push(1);
    bytes.extend(text("up"));
    bytes.push(0);
    bytes.extend(count(1));
    bytes.extend(texts(&["apps"]));
    bytes.extend(count(1));
    bytes.extend(texts(&["*", "dev"]));
    bytes.extend(count(2));
    bytes.push(0);
    bytes.push(4);
    bytes.extend(text("MX"));
    bytes.extend(count(1));
    bytes.extend(texts(&["sub"]));
    for n in [360u32, 86400, 7200, 3600000, 360] {
        bytes.extend(n.to_le_bytes());
    }
    bytes.extend(count(1));
    bytes.extend(texts(&["www", "example", "org"]));
    bytes.push(1);
    bytes.push(0);
    bytes.extend(60u32.to_le_bytes());
    bytes.extend(text("::1"));
    let mut hasher = DefaultHasher::new();
    hasher.write(&bytes);
    assert_eq!(hash_zone(&zone_spec, &entries), hasher.finish().to_string());
}

#[test]
fn the_hash_follows_description_and_entries() {
    let plain = spec("example.org.", vec![]);
    let a = entry("a.example.org.", RecordType::A, 360, "192.0.2.1");
    let b = entry("b.example.org.", RecordType::A, 360, "192.0.2.2");
    let hash = hash_zone(&plain, &vec![a.clone(), b.clone()]);
    assert!(!hash.is_empty() && hash.chars().all(|c| c.is_ascii_digit()));
    assert_eq!(hash, hash_zone(&plain.clone(), &vec![a.clone(), b.clone()]));
    assert_ne!(hash, hash_zone(&plain, &vec![b.clone(), a.clone()]));
    assert_ne!(hash, hash_zone(&plain, &vec![a.clone()]));
    assert_ne!(hash, hash_zone(&plain, &vec![]));
    let mut slower = spec("example.org.", vec![]);
    slower.refresh = 86401;
    assert_ne!(hash, hash_zone(&slower, &vec![a.clone(), b.clone()]));
    let mut other_data = b.clone();
    other_data.rdata = "192.0.2.3".to_string();
    assert_ne!(hash, hash_zone(&plain, &vec![a, other_data]));
}

#[test]
fn materializing_puts_the_soa_in_front() {
    let mut zone = open_zone("ns", "example-org", "example.org.");
    let adopted = vec![entry("www.example.org.", RecordType::A, 360, "192.0.2.1")];
    let patch = update_zone_status(&zone, copy_entries(&adopted), day(2024, 3, 5)).unwrap();
    assert_eq!(patch.fqdn, fqdn("example.org."));
    assert_eq!(patch.serial, 2024030500);
    assert_eq!(patch.hash, hash_zone(&zone.spec, &adopted));
    assert_eq!(patch.entries.len(), 2);
    assert_eq!(patch.entries[0], make_soa_entry(&fqdn("example.org."), 2024030500, &zone.spec));
    assert_eq!(patch.entries[1], adopted[0]);
    assert!(same_entries(&patch.entries[1..].to_vec(), &adopted));
    assert!(!same_entries(&patch.entries, &adopted));

    // The same again, a day later: nothing moves.
    zone.status.hash = Some(patch.hash.clone());
    zone.status.serial = Some(patch.serial);
    let again = update_zone_status(&zone, copy_entries(&adopted), day(2024, 3, 6)).unwrap();
    assert_eq!(again, patch);

    // A change on the same day: the serial goes up by one.
    let changed = update_zone_status(&zone, vec![], day(2024, 3, 5)).unwrap();
    assert_eq!(changed.serial, 2024030501);
    assert_ne!(changed.hash, patch.hash);
    assert_eq!(changed.entries.len(), 1);

    // Without a name there is nothing to materialize.
    zone.status.fqdn = None;
    assert_eq!(update_zone_status(&zone, vec![], day(2024, 3, 5)), None);
    // Nor with a serial that cannot go up.
    zone.status.fqdn = Some(fqdn("example.org."));
    zone.status.serial = Some(u32::MAX);
    assert_eq!(update_zone_status(&zone, vec![], day(2024, 3, 5)), None);
}

#[test]
fn only_what_the_zone_lets_in_becomes_an_entry() {
    let mut zone = open_zone("ns", "example-org", "example.org.");
    zone.spec.delegations[0].records[0].types = vec![RecordType::A];
    let mut with_ttl = record("ns", "a", "a.example.org.", RecordType::A, "192.0.2.1");
    with_ttl.spec.ttl = Some(30);
    let records = vec![
        with_ttl,
        record("ns", "b", "b.example.org.", RecordType::AAAA, "::1"),
        record("other", "c", "c.example.org.", RecordType::A, "192.0.2.3"),
        record("ns", "d", "d.example.com.", RecordType::A, "192.0.2.4"),
        record("ns", "e", "e.example.org.", RecordType::A, "192.0.2.5"),
    ];
    assert_eq!(
        collect_record_entries(&zone, &records),
        vec![
            entry("a.example.org.", RecordType::A, 30, "192.0.2.1"),
            entry("e.example.org.", RecordType::A, 360, "192.0.2.5"),
        ]
    );
    assert_eq!(collect_record_entries(&zone, &vec![]), vec![]);

    let children = vec![
        open_zone("ns", "sub", "sub.example.org."),
        open_zone("other", "far", "far.example.org."),
        open_zone("ns", "else", "sub.example.com."),
        open_zone("ns", "deep", "deep.sub.example.org."),
    ];
    let adopted = collect_children(&zone, &children);
    assert_eq!(adopted.len(), 2);
    assert_eq!(adopted[0].name, "sub");
    assert_eq!(adopted[1].name, "deep");
}

#[test]
fn name_servers_come_first_and_glue_after() {
    let child = open_zone("ns", "sub", "sub.example.org.");
    let mut at = record("ns", "at", "at.sub.example.org.", RecordType::NS, "ns1.sub.example.org.");
    at.spec.domain_name =
        DomainName::Partial(PartiallyQualifiedDomainName { labels: vec!["@".to_string()] });
    at.status.fqdn = None;
    let mut by_name = record("ns", "by-name", "sub.example.org.", RecordType::NS, "ns2.example.net.");
    by_name.spec.ttl = Some(60);
    let mut chaos = record("ns", "chaos", "sub.example.org.", RecordType::NS, "ns3.sub.example.org.");
    chaos.spec.class = Class::Other("CH".to_string());
    let records = vec![
        record("ns", "glue4", "ns1.sub.example.org.", RecordType::A, "192.0.2.1"),
        at,
        record("ns", "other-ns", "www.sub.example.org.", RecordType::NS, "ns9.sub.example.org."),
        by_name,
        chaos,
        record("ns", "glue6", "ns1.sub.example.org.", RecordType::AAAA, "2001:db8::1"),
        record("ns", "www", "www.sub.example.org.", RecordType::A, "192.0.2.7"),
        record("ns", "txt", "ns1.sub.example.org.", RecordType::Other("TXT".to_string()), "x"),
        record("ns", "glue3", "ns3.sub.example.org.", RecordType::A, "192.0.2.3"),
    ];
    assert_eq!(
        find_zone_nameserver_records(&child, &records, 300),
        vec![
            entry("sub.example.org.", RecordType::NS, 300, "ns1.sub.example.org."),
            entry("sub.example.org.", RecordType::NS, 60, "ns2.example.net."),
            entry("ns1.sub.example.org.", RecordType::A, 300, "192.0.2.1"),
            entry("ns1.sub.example.org.", RecordType::AAAA, 300, "2001:db8::1"),
        ]
    );

    let mut unnamed = open_zone("ns", "sub", "sub.example.org.");
    unnamed.status.fqdn = None;
    assert_eq!(find_zone_nameserver_records(&unnamed, &records, 300), vec![]);
}
