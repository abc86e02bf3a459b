use kubizone::action::{Event, Next, Step, Write};
use kubizone::delegation::{Delegation, RecordDelegation, ZoneDelegation};
use kubizone::domain::{DomainName, FullyQualifiedDomainName, PartiallyQualifiedDomainName};
use kubizone::pattern::Pattern;
use kubizone::record::{reconcile_records, RecordState};
use kubizone::resource::{
    Record, RecordSpec, RecordStatus, Zone, ZoneRef, ZoneSpec, ZoneStatus,
};
use kubizone::rr::{Class, RecordType};
use kubizone::serial::CalendarDate;
use kubizone::zone::{reconcile_zones, reconcile_zones_on, ZoneState};

const REQUEUE: u64 = 1;

/// A cluster in memory: the zones and records that it stores, and the day.
struct Cluster {
    zones: Vec<Zone>,
    records: Vec<Record>,
    today: CalendarDate,
}

fn records_pattern(pattern: &str, types: Vec<RecordType>) -> RecordDelegation {
    RecordDelegation { pattern: Pattern::parse(pattern).unwrap(), types }
}

fn delegation(namespaces: &[&str], records: Vec<RecordDelegation>, zones: &[&str]) -> Delegation {
    Delegation {
        namespaces: namespaces.iter().map(|n| n.to_string()).collect(),
        records,
        zones: zones
            .iter()
            .map(|p| ZoneDelegation { pattern: Pattern::parse(p).unwrap() })
            .collect(),
    }
}

fn zone(namespace: &str, name: &str, fqdn: &str, delegations: Vec<Delegation>) -> Zone {
    Zone {
        name: name.to_string(),
        namespace: namespace.to_string(),
        parent_zone: None,
        spec: ZoneSpec {
            domain_name: DomainName::parse(fqdn).unwrap(),
            zone_ref: None,
            delegations,
            ttl: 360,
            refresh: 86400,
            retry: 7200,
            expire: 3600000,
            negative_response_cache: 360,
        },
        status: ZoneStatus { entries: vec![], fqdn: None, hash: None, serial: None },
    }
}

fn record(namespace: &str, name: &str, domain_name: &str, type_: RecordType) -> Record {
    Record {
        name: name.to_string(),
        namespace: namespace.to_string(),
        parent_zone: None,
        spec: RecordSpec {
            domain_name: DomainName::parse(domain_name).unwrap(),
            zone_ref: None,
            type_,
            class: Class::IN,
            ttl: None,
            rdata: "127.0.0.1".to_string(),
        },
        status: RecordStatus { fqdn: None },
    }
}

fn a_record(namespace: &str, name: &str, domain_name: &str) -> Record {
    record(namespace, name, domain_name, RecordType::A)
}

fn fqdn(text: &str) -> FullyQualifiedDomainName {
    FullyQualifiedDomainName::parse(text).unwrap()
}

impl Cluster {
    fn new() -> Cluster {
        Cluster { zones: vec![], records: vec![], today: CalendarDate { year: 2024, month: 3, day: 5 } }
    }

    fn zone(&self, name: &str) -> &Zone {
        self.zones.iter().find(|z| z.name == name).unwrap()
    }

    fn record(&self, name: &str) -> &Record {
        self.records.iter().find(|r| r.name == name).unwrap()
    }

    fn read(&self, next: &Next) -> Option<Event> {
        match next {
            Next::GetZone { namespace, name } => Some(Event::Zone(
                self.zones.iter().find(|z| &z.namespace == namespace && &z.name == name).cloned(),
            )),
            Next::ListZones => Some(Event::Zones(self.zones.clone())),
            Next::ListRecords { parent_zone } => Some(Event::Records(
                self.records
                    .iter()
                    .filter(|r| r.parent_zone.as_ref() == Some(parent_zone))
                    .cloned()
                    .collect(),
            )),
            Next::ListChildZones { parent_zone } => Some(Event::Zones(
                self.zones
                    .iter()
                    .filter(|z| z.parent_zone.as_ref() == Some(parent_zone))
                    .cloned()
                    .collect(),
            )),
            Next::Requeue { .. } => None,
        }
    }

    /// One pass over the record at `at`. Returns the number of writes.
    fn reconcile_record(&mut self, at: usize) -> usize {
        let seen = self.records[at].clone();
        let mut state = RecordState::Start;
        let mut event = Event::Start;
        let mut written = 0;
        loop {
            let (next_state, step): (RecordState, Step) =
                reconcile_records(&seen, REQUEUE, state, event);
            for write in step.writes {
                written += 1;
                match write {
                    Write::Fqdn(name) => self.records[at].status.fqdn = Some(name),
                    Write::ParentLabel(label) => self.records[at].parent_zone = Some(label),
                    Write::NoParentLabel => self.records[at].parent_zone = None,
                    Write::Status(_) => panic!("a record has no zone status"),
                }
            }
            match self.read(&step.next) {
                Some(found) => event = found,
                None => {
                    assert_eq!(next_state, RecordState::Done);
                    return written;
                }
            }
            state = next_state;
        }
    }

    /// One pass over the zone at `at`. Returns the number of writes.
    fn reconcile_zone(&mut self, at: usize) -> usize {
        let seen = self.zones[at].clone();
        let mut state = ZoneState::Start;
        let mut event = Event::Start;
        let mut written = 0;
        loop {
            let (next_state, step) = reconcile_zones_on(&seen, REQUEUE, state, event, self.today);
            for write in step.writes {
                written += 1;
                match write {
                    Write::Fqdn(name) => self.zones[at].status.fqdn = Some(name),
                    Write::ParentLabel(label) => self.zones[at].parent_zone = Some(label),
                    Write::NoParentLabel => self.zones[at].parent_zone = None,
                    Write::Status(patch) => {
                        self.zones[at].status = ZoneStatus {
                            entries: patch.entries,
                            fqdn: Some(patch.fqdn),
                            hash: Some(patch.hash),
                            serial: Some(patch.serial),
                        }
                    }
                }
            }
            match self.read(&step.next) {
                Some(found) => event = found,
                None => {
                    assert_eq!(next_state, ZoneState::Done);
                    return written;
                }
            }
            state = next_state;
        }
    }

    /// Passes over everything until a whole round writes nothing.
    fn settle(&mut self) {
        for _ in 0..20 {
            let mut written = 0;
            for at in 0..self.zones.len() {
                written += self.reconcile_zone(at);
            }
            for at in 0..self.records.len() {
                written += self.reconcile_record(at);
            }
            if written == 0 {
                return;
            }
        }
        panic!("the cluster does not settle");
    }

    fn has_entry(&self, zone: &str, name: &str) -> bool {
        self.zone(zone)
            .status
            .entries
            .iter()
            .any(|e| !e.type_.is_soa() && e.fqdn == fqdn(name))
    }

    fn has_parent(&self, record: &str, zone: &str) -> bool {
        let zone = self.zone(zone);
        self.record(record).parent() == Some(zone.zone_ref())
    }
}

#[test]
fn record_adoption_main() {
    let mut cluster = Cluster::new();
    cluster.zones.push(zone(
        "kubizone-record-adoption",
        "example-org",
        "example.org.",
        vec![delegation(&[], vec![records_pattern("*", vec![])], &[])],
    ));
    cluster.records.push(a_record("kubizone-record-adoption", "www-example-org", "www.example.org."));
    cluster.settle();

    let www = cluster.record("www-example-org");
    assert_eq!(www.status.fqdn, Some(fqdn("www.example.org.")));
    assert_eq!(www.parent_zone, Some("kubizone-record-adoption.example-org".to_string()));
    assert!(cluster.has_parent("www-example-org", "example-org"));
    let zone = cluster.zone("example-org");
    assert_eq!(zone.status.fqdn, Some(fqdn("example.org.")));
    assert!(zone.status.serial.is_some());
    assert!(cluster.has_entry("example-org", "www.example.org."));
    assert!(zone.status.entries[0].type_.is_soa());
    assert_eq!(zone.status.entries[0].fqdn, fqdn("example.org."));
}

#[test]
fn cross_namespace_adoption_main() {
    let mut cluster = Cluster::new();
    cluster.zones.push(zone(
        "kubizone-local-namespace",
        "example-org",
        "example.org.",
        vec![delegation(
            &["kubizone-foreign-namespace"],
            vec![records_pattern("*", vec![])],
            &[],
        )],
    ));
    cluster.records.push(a_record("kubizone-local-namespace", "bad-example-org", "bad.example.org."));
    cluster.records.push(a_record(
        "kubizone-foreign-namespace",
        "good-example-org",
        "good.example.org.",
    ));
    cluster.settle();

    assert!(cluster.record("bad-example-org").status.fqdn.is_some());
    assert!(!cluster.has_parent("bad-example-org", "example-org"));
    assert_eq!(cluster.record("bad-example-org").parent_zone, None);
    assert!(cluster.has_parent("good-example-org", "example-org"));
    assert!(cluster.has_entry("example-org", "good.example.org."));
    assert!(!cluster.has_entry("example-org", "bad.example.org."));
}

#[test]
fn limited_adoption_main() {
    let mut cluster = Cluster::new();
    cluster.zones.push(zone(
        "kubizone-limited-adoption",
        "example-org",
        "example.org.",
        vec![delegation(&[], vec![records_pattern("good", vec![RecordType::A])], &[])],
    ));
    cluster.records.push(a_record("kubizone-limited-adoption", "good-a-example-org", "good.example.org."));
    cluster.settle();
    assert!(cluster.zone("example-org").status.fqdn.is_some());
    assert!(cluster.has_entry("example-org", "good.example.org."));
    assert!(cluster.has_parent("good-a-example-org", "example-org"));
    let serial_with = cluster.zone("example-org").status.serial.unwrap();

    cluster.records.clear();
    cluster.settle();
    assert!(!cluster.has_entry("example-org", "good.example.org."));
    let serial_without = cluster.zone("example-org").status.serial.unwrap();
    assert!(serial_without > serial_with);

    cluster.records.push(a_record("kubizone-limited-adoption", "bad-example-org", "bad.example.org."));
    cluster.settle();
    assert!(cluster.record("bad-example-org").status.fqdn.is_some());
    assert!(!cluster.has_parent("bad-example-org", "example-org"));
    assert!(!cluster.has_entry("example-org", "bad.example.org."));

    cluster.records.push(record(
        "kubizone-limited-adoption",
        "good-aaaa-example-org",
        "good.example.org.",
        RecordType::AAAA,
    ));
    cluster.settle();
    assert!(cluster.record("good-aaaa-example-org").status.fqdn.is_some());
    assert!(!cluster.has_parent("good-aaaa-example-org", "example-org"));
    assert!(!cluster.has_entry("example-org", "good.example.org."));
    assert!(cluster.zone("example-org").status.serial.is_some());
}

#[test]
fn longest_matching_main() {
    let mut cluster = Cluster::new();
    cluster.zones.push(zone(
        "kubizone-longest-matching",
        "example-org",
        "example.org.",
        vec![delegation(&[], vec![records_pattern("*", vec![])], &["*"])],
    ));
    cluster.zones.push(zone(
        "kubizone-longest-matching",
        "sub-example-org",
        "sub.example.org.",
        vec![delegation(&[], vec![records_pattern("*", vec![])], &[])],
    ));
    cluster.records.push(a_record(
        "kubizone-longest-matching",
        "good-sub-sub-www-example-org",
        "good.sub.sub.example.org.",
    ));
    cluster.settle();

    assert!(cluster.has_parent("good-sub-sub-www-example-org", "sub-example-org"));
    assert!(!cluster.has_parent("good-sub-sub-www-example-org", "example-org"));
    assert!(cluster.has_entry("sub-example-org", "good.sub.sub.example.org."));
    assert!(!cluster.has_entry("example-org", "good.sub.sub.example.org."));
    assert_eq!(
        cluster.zone("sub-example-org").parent(),
        Some(cluster.zone("example-org").zone_ref())
    );
}

#[test]
fn split_namespace_delegation_main() {
    let mut cluster = Cluster::new();
    cluster.zones.push(zone(
        "kubizone-split-root",
        "example-org",
        "example.org.",
        vec![
            delegation(&["kubizone-split-dev"], vec![records_pattern("*.dev", vec![])], &[]),
            delegation(&["kubizone-split-prod"], vec![records_pattern("*", vec![])], &[]),
        ],
    ));
    cluster.records.push(a_record("kubizone-split-prod", "good-example-org", "good.example.org."));
    cluster.records.push(a_record("kubizone-split-dev", "bad-dev-example", "bad.example.org."));
    cluster.records.push(a_record(
        "kubizone-split-dev",
        "good-dev-example-org",
        "good.dev.example.org.",
    ));
    cluster.settle();

    assert!(cluster.has_parent("good-example-org", "example-org"));
    assert!(cluster.has_entry("example-org", "good.example.org."));
    assert!(cluster.record("bad-dev-example").status.fqdn.is_some());
    assert!(!cluster.has_parent("bad-dev-example", "example-org"));
    assert!(!cluster.has_entry("example-org", "bad.example.org."));
    assert!(cluster.has_parent("good-dev-example-org", "example-org"));
    assert!(cluster.has_entry("example-org", "good.dev.example.org."));
}

#[test]
fn record_delegation_withdrawn_main() {
    let mut cluster = Cluster::new();
    cluster.zones.push(zone(
        "kubizone-record-delegation-withdrawn",
        "example-org",
        "example.org.",
        vec![delegation(&[], vec![records_pattern("*", vec![])], &[])],
    ));
    cluster.records.push(a_record(
        "kubizone-record-delegation-withdrawn",
        "www-example-org",
        "www.example.org.",
    ));
    cluster.settle();
    assert!(cluster.has_parent("www-example-org", "example-org"));
    assert!(cluster.has_entry("example-org", "www.example.org."));
    let before = cluster.zone("example-org").status.serial.unwrap();

    cluster.zones[0].spec.delegations.clear();
    cluster.settle();
    assert_eq!(cluster.record("www-example-org").parent_zone, None);
    assert!(cluster.record("www-example-org").status.fqdn.is_some());
    assert!(!cluster.has_entry("example-org", "www.example.org."));
    let after = cluster.zone("example-org").status.serial.unwrap();
    assert!(after > before);
}

#[test]
fn orphaned_record_main() {
    let mut cluster = Cluster::new();
    cluster.zones.push(zone(
        "kubizone-orphaned-record",
        "example-org",
        "example.org.",
        vec![delegation(&[], vec![records_pattern("*", vec![])], &[])],
    ));
    cluster.records.push(a_record("kubizone-orphaned-record", "www-example-org", "www.example.org."));
    cluster.settle();
    assert!(cluster.has_parent("www-example-org", "example-org"));

    cluster.zones.clear();
    cluster.settle();
    assert_eq!(cluster.record("www-example-org").parent_zone, None);
    assert_eq!(cluster.record("www-example-org").status.fqdn, Some(fqdn("www.example.org.")));
}

#[test]
fn orphan_main() {
    let mut cluster = Cluster::new();
    cluster.zones.push(zone(
        "simple",
        "example-org",
        "example.org.",
        vec![delegation(&[], vec![records_pattern("*", vec![])], &[])],
    ));
    let mut www = a_record("simple", "www-example-org", "www.example.org.");
    www.spec.rdata = "192.168.0.2".to_string();
    cluster.records.push(www);
    cluster.settle();
    assert!(cluster
        .zone("example-org")
        .status
        .entries
        .iter()
        .any(|entry| entry.fqdn.eq_text("www.example.org.")));
}

#[test]
fn partial_names_follow_their_zone_reference() {
    let mut cluster = Cluster::new();
    cluster.zones.push(zone(
        "dns",
        "example-org",
        "example.org.",
        vec![delegation(&["apps"], vec![records_pattern("*", vec![])], &["*"])],
    ));
    let mut www = a_record("apps", "www", "www");
    www.spec.zone_ref =
        Some(ZoneRef { name: "example-org".to_string(), namespace: Some("dns".to_string()) });
    cluster.records.push(www);
    let mut sub = zone("apps", "sub", "sub", vec![]);
    sub.spec.zone_ref =
        Some(ZoneRef { name: "example-org".to_string(), namespace: Some("dns".to_string()) });
    cluster.zones.push(sub);
    cluster.settle();

    assert_eq!(cluster.record("www").status.fqdn, Some(fqdn("www.example.org.")));
    assert_eq!(cluster.record("www").parent_zone, Some("dns.example-org".to_string()));
    assert_eq!(cluster.zone("sub").status.fqdn, Some(fqdn("sub.example.org.")));
    assert_eq!(cluster.zone("sub").parent_zone, Some("dns.example-org".to_string()));
    assert!(cluster.has_entry("example-org", "www.example.org."));
}

#[test]
fn a_settled_cluster_is_left_alone() {
    let mut cluster = Cluster::new();
    cluster.zones.push(zone(
        "ns",
        "example-org",
        "example.org.",
        vec![delegation(&[], vec![records_pattern("*", vec![])], &[])],
    ));
    assert_eq!(cluster.reconcile_zone(0), 1);
    assert_eq!(cluster.reconcile_zone(0), 1);
    assert_eq!(cluster.zone("example-org").status.serial, Some(2024030500));
    assert_eq!(cluster.zone("example-org").status.entries.len(), 1);
    cluster.records.push(a_record("ns", "www", "www.example.org."));
    cluster.settle();
    let hash = cluster.zone("example-org").status.hash.clone();
    let serial = cluster.zone("example-org").status.serial;
    assert_eq!(serial, Some(2024030501));

    cluster.today = CalendarDate { year: 2024, month: 3, day: 6 };
    assert_eq!(cluster.reconcile_zone(0), 0);
    assert_eq!(cluster.reconcile_record(0), 0);
    assert_eq!(cluster.zone("example-org").status.hash, hash);
    assert_eq!(cluster.zone("example-org").status.serial, serial);
}

#[test]
fn underspecified_resources_are_left_alone() {
    let mut both = a_record("ns", "both", "www.example.org.");
    both.spec.zone_ref = Some(ZoneRef { name: "example-org".to_string(), namespace: None });
    let (state, step) = reconcile_records(&both, 30, RecordState::Start, Event::Start);
    assert_eq!(state, RecordState::Done);
    assert_eq!(step, Step { writes: vec![], next: Next::Requeue { after_secs: 30 } });

    let neither = a_record("ns", "neither", "www");
    let (state, step) = reconcile_records(&neither, 30, RecordState::Start, Event::Start);
    assert_eq!(state, RecordState::Done);
    assert_eq!(step, Step { writes: vec![], next: Next::Requeue { after_secs: 30 } });

    let mut selfish = zone("ns", "selfish", "sub", vec![]);
    selfish.spec.zone_ref = Some(ZoneRef { name: "selfish".to_string(), namespace: None });
    let (state, step) = reconcile_zones(&selfish, 300, ZoneState::Start, Event::Start);
    assert_eq!(state, ZoneState::Done);
    assert_eq!(step, Step { writes: vec![], next: Next::Requeue { after_secs: 300 } });
}

#[test]
fn missing_and_unready_parents_delay_the_pass() {
    let mut www = a_record("ns", "www", "www");
    www.spec.zone_ref = Some(ZoneRef { name: "example-org".to_string(), namespace: None });
    let (state, step) = reconcile_records(&www, 30, RecordState::Start, Event::Start);
    assert_eq!(state, RecordState::AwaitingParent);
    assert_eq!(
        step.next,
        Next::GetZone { namespace: "ns".to_string(), name: "example-org".to_string() }
    );
    let (_, step) = reconcile_records(&www, 30, RecordState::AwaitingParent, Event::Zone(None));
    assert_eq!(step, Step { writes: vec![], next: Next::Requeue { after_secs: 30 } });
    let unready = zone("ns", "example-org", "example.org.", vec![]);
    let (_, step) =
        reconcile_records(&www, 30, RecordState::AwaitingParent, Event::Zone(Some(unready.clone())));
    assert_eq!(step, Step { writes: vec![], next: Next::Requeue { after_secs: 5 } });

    let mut sub = zone("ns", "sub", "sub", vec![]);
    sub.spec.zone_ref = Some(ZoneRef { name: "example-org".to_string(), namespace: None });
    let (_, step) = reconcile_zones(&sub, 300, ZoneState::AwaitingParent, Event::Zone(None));
    assert_eq!(step, Step { writes: vec![], next: Next::Requeue { after_secs: 30 } });
    let (_, step) =
        reconcile_zones(&sub, 300, ZoneState::AwaitingParent, Event::Zone(Some(unready)));
    assert_eq!(step, Step { writes: vec![], next: Next::Requeue { after_secs: 5 } });
}

#[test]
fn a_changed_name_comes_back_soon() {
    let www = a_record("ns", "www", "www.example.org.");
    let (state, step) = reconcile_records(&www, 30, RecordState::Start, Event::Start);
    assert_eq!(state, RecordState::Done);
    assert_eq!(
        step,
        Step {
            writes: vec![Write::Fqdn(fqdn("www.example.org."))],
            next: Next::Requeue { after_secs: 1 }
        }
    );
}

#[test]
fn child_zones_show_their_name_servers_and_glue() {
    let mut cluster = Cluster::new();
    cluster.zones.push(zone(
        "ns",
        "example-org",
        "example.org.",
        vec![delegation(&[], vec![], &["*"])],
    ));
    cluster.zones.push(zone(
        "ns",
        "sub-example-org",
        "sub.example.org.",
        vec![delegation(&[], vec![records_pattern("*", vec![])], &[])],
    ));
    let mut ns = record("ns", "sub-ns", "sub", RecordType::NS);
    ns.spec.domain_name =
        DomainName::Partial(PartiallyQualifiedDomainName { labels: vec!["@".to_string()] });
    ns.spec.zone_ref = Some(ZoneRef { name: "sub-example-org".to_string(), namespace: None });
    ns.spec.rdata = "ns1.sub.example.org.".to_string();
    ns.spec.ttl = Some(60);
    cluster.records.push(ns);
    let mut glue = a_record("ns", "sub-ns1", "ns1.sub.example.org.");
    glue.spec.rdata = "192.0.2.1".to_string();
    cluster.records.push(glue);
    cluster.records.push(a_record("ns", "sub-www", "www.sub.example.org."));
    cluster.settle();

    let entries = &cluster.zone("example-org").status.entries;
    assert_eq!(entries.len(), 3);
    assert!(entries[0].type_.is_soa());
    assert_eq!(entries[1].fqdn, fqdn("sub.example.org."));
    assert!(entries[1].type_.is_ns());
    assert_eq!(entries[1].ttl, 60);
    assert_eq!(entries[1].rdata, "ns1.sub.example.org.");
    assert_eq!(entries[2].fqdn, fqdn("ns1.sub.example.org."));
    assert!(entries[2].type_.is_a());
    assert_eq!(entries[2].ttl, 360);
    assert_eq!(entries[2].rdata, "192.0.2.1");
    assert_eq!(cluster.zone("sub-example-org").status.entries.len(), 4);
}
