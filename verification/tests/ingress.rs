use kubizone::domain::{DomainName, FullyQualifiedDomainName};
use kubizone::ingress::{
    ingress_error_policy, plan_record, reconcile_ingresses, LoadBalancerAddress, PlannedRecord,
};
use kubizone::record::record_error_policy;
use kubizone::resource::RecordSpec;
use kubizone::rr::{Class, RecordType};
use kubizone::zone::zone_error_policy;

fn v4(address: &str) -> LoadBalancerAddress {
    LoadBalancerAddress {
        is_ipv4: true,
        address: address.to_string(),
        canonical: address.to_string(),
    }
}

fn v6(address: &str, canonical: &str) -> LoadBalancerAddress {
    LoadBalancerAddress {
        is_ipv4: false,
        address: address.to_string(),
        canonical: canonical.to_string(),
    }
}

fn planned(name: &str, host: &str, type_: RecordType, rdata: &str) -> PlannedRecord {
    PlannedRecord {
        name: name.to_string(),
        spec: RecordSpec {
            domain_name: DomainName::Full(FullyQualifiedDomainName::parse(host).unwrap()),
            zone_ref: None,
            type_,
            class: Class::IN,
            ttl: None,
            rdata: rdata.to_string(),
        },
    }
}

#[test]
fn every_host_gets_a_record_for_every_address() {
    let hosts = vec!["www.example.org".to_string(), "not a host".to_string(), "api.example.org.".to_string()];
    let addresses =
        vec![v6("2001:db8::1", "2001:db8::1"), v4("192.0.2.1"), v6("::ffff:192.0.2.9", "192.0.2.9"), v4("192.0.2.2")];
    assert_eq!(
        reconcile_ingresses("web", &hosts, &addresses),
        vec![
            planned("web-www-example-org-192-0-2-1", "www.example.org.", RecordType::A, "192.0.2.1"),
            planned("web-www-example-org-192-0-2-2", "www.example.org.", RecordType::A, "192.0.2.2"),
            planned("web-www-example-org-2001-db8--1", "www.example.org.", RecordType::AAAA, "2001:db8::1"),
            planned("web-www-example-org-192-0-2-9", "www.example.org.", RecordType::AAAA, "::ffff:192.0.2.9"),
            planned("web-api-example-org--192-0-2-1", "api.example.org.", RecordType::A, "192.0.2.1"),
            planned("web-api-example-org--192-0-2-2", "api.example.org.", RecordType::A, "192.0.2.2"),
            planned("web-api-example-org--2001-db8--1", "api.example.org.", RecordType::AAAA, "2001:db8::1"),
            planned("web-api-example-org--192-0-2-9", "api.example.org.", RecordType::AAAA, "::ffff:192.0.2.9"),
        ]
    );
}

#[test]
fn without_hosts_or_addresses_nothing_is_planned() {
    assert_eq!(reconcile_ingresses("web", &vec![], &vec![v4("192.0.2.1")]), vec![]);
    assert_eq!(reconcile_ingresses("web", &vec!["www.example.org".to_string()], &vec![]), vec![]);
    assert_eq!(reconcile_ingresses("web", &vec!["..".to_string()], &vec![v4("192.0.2.1")]), vec![]);
}

#[test]
fn one_record_is_named_after_ingress_host_and_address() {
    let host = DomainName::parse("www.example.org.").unwrap();
    assert_eq!(
        plan_record("web", &host, &v4("192.0.2.1")),
        planned("web-www-example-org--192-0-2-1", "www.example.org.", RecordType::A, "192.0.2.1")
    );
}

#[test]
fn failed_passes_come_back_after_a_minute() {
    assert_eq!(record_error_policy(), 60);
    assert_eq!(zone_error_policy(), 60);
    assert_eq!(ingress_error_policy(), 60);
}
