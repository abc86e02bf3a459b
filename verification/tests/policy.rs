use kubizone::delegation::{
    delegations_allow_record, delegations_allow_zone, Delegation, RecordDelegation, ZoneDelegation,
};
use kubizone::domain::{DomainName, FullyQualifiedDomainName};
use kubizone::pattern::Pattern;
use kubizone::resource::{
    Record, RecordSpec, RecordStatus, Zone, ZoneRef, ZoneSpec, ZoneStatus,
};
use kubizone::rr::{Class, RecordType};

fn fqdn(text: &str) -> FullyQualifiedDomainName {
    FullyQualifiedDomainName::parse(text).unwrap()
}

fn entry(pattern: &str, types: Vec<RecordType>) -> RecordDelegation {
    RecordDelegation { pattern: Pattern::parse(pattern).unwrap(), types }
}

fn policy(namespaces: &[&str], records: Vec<RecordDelegation>, zones: &[&str]) -> Delegation {
    Delegation {
        namespaces: namespaces.iter().map(|n| n.to_string()).collect(),
        records,
        zones: zones
            .iter()
            .map(|p| ZoneDelegation { pattern: Pattern::parse(p).unwrap() })
            .collect(),
    }
}

fn zone(namespace: &str, name: &str, fqdn_text: &str, delegations: Vec<Delegation>) -> Zone {
    Zone {
        name: name.to_string(),
        namespace: namespace.to_string(),
        parent_zone: None,
        spec: ZoneSpec {
            domain_name: DomainName::parse(fqdn_text).unwrap(),
            zone_ref: None,
            delegations,
            ttl: 360,
            refresh: 86400,
            retry: 7200,
            expire: 3600000,
            negative_response_cache: 360,
        },
        status: ZoneStatus { entries: vec![], fqdn: Some(fqdn(fqdn_text)), hash: None, serial: None },
    }
}

fn record(namespace: &str, fqdn_text: &str, type_: RecordType) -> Record {
    Record {
        name: "r".to_string(),
        namespace: namespace.to_string(),
        parent_zone: None,
        spec: RecordSpec {
            domain_name: DomainName::parse(fqdn_text).unwrap(),
            zone_ref: None,
            type_,
            class: Class::IN,
            ttl: None,
            rdata: "192.168.0.1".to_string(),
        },
        status: RecordStatus { fqdn: Some(fqdn(fqdn_text)) },
    }
}

#[test]
fn an_empty_namespace_list_covers_the_zones_own_namespace_only() {
    let own = policy(&[], vec![], &[]);
    assert!(own.covers_namespace("dns", "dns"));
    assert!(!own.covers_namespace("dns", "apps"));
    let listed = policy(&["apps", "web"], vec![], &[]);
    assert!(listed.covers_namespace("dns", "apps"));
    assert!(listed.covers_namespace("dns", "web"));
    assert!(!listed.covers_namespace("dns", "dns"));
    assert!(!listed.covers_namespace("dns", "other"));
}

#[test]
fn record_entries_go_by_pattern_and_type() {
    let origin = fqdn("example.org.");
    let any = entry("*", vec![]);
    assert!(any.validate(&origin, &RecordType::A, &fqdn("www.example.org.")));
    assert!(any.validate(&origin, &RecordType::Other("MX".to_string()), &fqdn("www.example.org.")));
    assert!(!any.validate(&origin, &RecordType::A, &fqdn("www.example.com.")));
    let only_a = entry("good", vec![RecordType::A]);
    assert!(only_a.validate(&origin, &RecordType::A, &fqdn("good.example.org.")));
    assert!(!only_a.validate(&origin, &RecordType::AAAA, &fqdn("good.example.org.")));
    assert!(!only_a.validate(&origin, &RecordType::A, &fqdn("bad.example.org.")));
    let mx_txt = entry(
        "*",
        vec![RecordType::Other("MX".to_string()), RecordType::Other("TXT".to_string())],
    );
    assert!(mx_txt.validate(&origin, &RecordType::Other("TXT".to_string()), &fqdn("a.example.org.")));
    assert!(!mx_txt.validate(&origin, &RecordType::Other("SRV".to_string()), &fqdn("a.example.org.")));
}

#[test]
fn a_delegation_without_entries_lets_in_nothing() {
    let origin = fqdn("example.org.");
    let none = policy(&[], vec![], &[]);
    assert!(!none.validate_record(&origin, &RecordType::A, &fqdn("www.example.org.")));
    assert!(!none.validate_zone(&origin, &fqdn("sub.example.org.")));
    let some = policy(&[], vec![entry("bad", vec![]), entry("www", vec![])], &["sub"]);
    assert!(some.validate_record(&origin, &RecordType::A, &fqdn("www.example.org.")));
    assert!(!some.validate_record(&origin, &RecordType::A, &fqdn("ftp.example.org.")));
    assert!(some.validate_zone(&origin, &fqdn("sub.example.org.")));
    assert!(!some.validate_zone(&origin, &fqdn("www.example.org.")));
}

#[test]
fn any_one_delegation_must_hold_as_a_whole() {
    let origin = fqdn("example.org.");
    let delegations = vec![
        policy(&["dev"], vec![entry("*.dev", vec![])], &["*.dev"]),
        policy(&["prod"], vec![entry("*", vec![])], &[]),
    ];
    let a = RecordType::A;
    assert!(delegations_allow_record(&delegations, "root", &origin, &a, &fqdn("good.example.org."), "prod"));
    assert!(!delegations_allow_record(&delegations, "root", &origin, &a, &fqdn("bad.example.org."), "dev"));
    assert!(delegations_allow_record(&delegations, "root", &origin, &a, &fqdn("good.dev.example.org."), "dev"));
    assert!(!delegations_allow_record(&delegations, "root", &origin, &a, &fqdn("good.example.org."), "root"));
    assert!(!delegations_allow_record(&vec![], "root", &origin, &a, &fqdn("good.example.org."), "root"));
    assert!(delegations_allow_zone(&delegations, "root", &origin, &fqdn("x.dev.example.org."), "dev"));
    assert!(!delegations_allow_zone(&delegations, "root", &origin, &fqdn("x.dev.example.org."), "prod"));
}

#[test]
fn a_zone_checks_names_before_delegations() {
    let parent = zone("default", "example-org", "example.org.", vec![policy(
        &["default"],
        vec![entry("*", vec![]), RecordDelegation { pattern: Pattern::origin(), types: vec![] }],
        &["*"],
    )]);
    assert!(parent.validate_record(&record("default", "www.example.org.", RecordType::A)));
    assert!(parent.validate_record(&record("default", "example.org.", RecordType::A)));
    assert!(!parent.validate_record(&record("not-default", "www.example.org.", RecordType::A)));
    assert!(!parent.validate_record(&record("default", "www.test.com.", RecordType::A)));
    let mut unresolved = record("default", "www.example.org.", RecordType::A);
    unresolved.status.fqdn = None;
    assert!(!parent.validate_record(&unresolved));
    let mut unready = zone("default", "example-org", "example.org.", vec![]);
    unready.spec.delegations = vec![policy(&[], vec![entry("*", vec![])], &[])];
    unready.status.fqdn = None;
    assert!(!unready.validate_record(&record("default", "www.example.org.", RecordType::A)));

    let child = zone("default", "sub", "sub.example.org.", vec![]);
    assert!(parent.validate_zone(&child));
    assert!(!parent.validate_zone(&parent));
    assert!(!child.validate_zone(&parent));
    let mut same_name = zone("default", "example-org", "sub.example.org.", vec![]);
    assert!(!parent.validate_zone(&same_name));
    same_name.namespace = "other".to_string();
    assert!(!parent.validate_zone(&same_name));
    let mut no_fqdn = zone("default", "sub", "sub.example.org.", vec![]);
    no_fqdn.status.fqdn = None;
    assert!(!parent.validate_zone(&no_fqdn));
}

#[test]
fn labels_name_namespace_then_name() {
    let full = ZoneRef { name: "example-org".to_string(), namespace: Some("dns".to_string()) };
    assert_eq!(full.as_label(), "dns.example-org");
    let bare = ZoneRef { name: "example-org".to_string(), namespace: None };
    assert_eq!(bare.as_label(), "example-org");
    assert_eq!(ZoneRef::from_label("dns.example-org"), full);
    assert_eq!(ZoneRef::from_label("example-org"), bare);
    assert_eq!(
        ZoneRef::from_label("dns.example.org"),
        ZoneRef { name: "example.org".to_string(), namespace: Some("dns".to_string()) }
    );
    assert!(full.same(&ZoneRef::from_label(&full.as_label())));
    assert!(!full.same(&bare));

    let zone = zone("dns", "example-org", "example.org.", vec![]);
    assert_eq!(zone.zone_ref(), full);
    assert!(zone.is_named("dns", "example-org"));
    assert!(!zone.is_named("dns", "example"));
    assert_eq!(zone.fqdn(), Some(&fqdn("example.org.")));
    assert_eq!(zone.parent(), None);
    let mut child = record("dns", "www.example.org.", RecordType::A);
    assert_eq!(child.parent(), None);
    child.parent_zone = Some("dns.example-org".to_string());
    assert_eq!(child.parent(), Some(full));
    assert_eq!(child.fqdn(), Some(&fqdn("www.example.org.")));
}

#[test]
fn types_and_classes_know_themselves() {
    assert!(RecordType::A.is_a());
    assert!(RecordType::AAAA.is_aaaa());
    assert!(RecordType::NS.is_ns());
    assert!(RecordType::SOA.is_soa());
    assert!(!RecordType::Other("MX".to_string()).is_a());
    assert!(!RecordType::A.is_aaaa());
    assert!(RecordType::Other("MX".to_string()).same(&RecordType::Other("MX".to_string())));
    assert!(!RecordType::Other("MX".to_string()).same(&RecordType::Other("TXT".to_string())));
    assert!(!RecordType::A.same(&RecordType::AAAA));
    assert!(Class::IN.is_internet());
    assert!(!Class::Other("CH".to_string()).is_internet());
    assert!(Class::Other("CH".to_string()).same(&Class::Other("CH".to_string())));
    assert!(!Class::IN.same(&Class::Other("CH".to_string())));
    assert_eq!(RecordType::Other("MX".to_string()).clone(), RecordType::Other("MX".to_string()));
}
