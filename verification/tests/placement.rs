use kubizone::domain::{DomainName, FullyQualifiedDomainName};
use kubizone::placement::{longest_parent, FqdnPatch, LabelPatch};
use kubizone::resource::{Zone, ZoneRef, ZoneSpec, ZoneStatus};
use kubizone::{set_fqdn, set_parent, Effect};

fn fqdn(text: &str) -> FullyQualifiedDomainName {
    FullyQualifiedDomainName::parse(text).unwrap()
}

fn zone(name: &str, fqdn_text: Option<&str>) -> Zone {
    Zone {
        name: name.to_string(),
        namespace: "ns".to_string(),
        parent_zone: None,
        spec: ZoneSpec {
            domain_name: DomainName::parse("x.").unwrap(),
            zone_ref: None,
            delegations: vec![],
            ttl: 360,
            refresh: 86400,
            retry: 7200,
            expire: 3600000,
            negative_response_cache: 360,
        },
        status: ZoneStatus { entries: vec![], fqdn: fqdn_text.map(fqdn), hash: None, serial: None },
    }
}

#[test]
fn effects_tell_whether_something_changed() {
    assert!(Effect::Changed.changed());
    assert!(!Effect::Unchanged.changed());
    assert_eq!(LabelPatch::Keep.effect(), Effect::Unchanged);
    assert_eq!(LabelPatch::Remove.effect(), Effect::Changed);
    assert_eq!(LabelPatch::Write("a.b".to_string()).effect(), Effect::Changed);
    assert_eq!(FqdnPatch::Keep.effect(), Effect::Unchanged);
    assert_eq!(FqdnPatch::Write(fqdn("a.")).effect(), Effect::Changed);
}

#[test]
fn the_parent_label_is_written_only_where_it_differs() {
    let parent = ZoneRef { name: "example-org".to_string(), namespace: Some("dns".to_string()) };
    let label = "dns.example-org".to_string();
    assert_eq!(set_parent(&None, None), LabelPatch::Keep);
    assert_eq!(set_parent(&Some(label.clone()), Some(&parent)), LabelPatch::Keep);
    assert_eq!(set_parent(&Some(label.clone()), None), LabelPatch::Remove);
    assert_eq!(set_parent(&None, Some(&parent)), LabelPatch::Write(label.clone()));
    assert_eq!(
        set_parent(&Some("dns.other".to_string()), Some(&parent)),
        LabelPatch::Write(label.clone())
    );
    assert_eq!(
        set_parent(&Some("example-org.dns".to_string()), Some(&parent)),
        LabelPatch::Write(label)
    );
}

#[test]
fn the_name_is_written_only_where_it_differs() {
    let name = fqdn("www.example.org.");
    assert_eq!(set_fqdn(&Some(fqdn("www.example.org.")), &name), FqdnPatch::Keep);
    assert_eq!(set_fqdn(&None, &name), FqdnPatch::Write(fqdn("www.example.org.")));
    assert_eq!(
        set_fqdn(&Some(fqdn("ftp.example.org.")), &name),
        FqdnPatch::Write(fqdn("www.example.org."))
    );
}

#[test]
fn the_nearest_enclosing_zone_is_chosen() {
    let zones = vec![
        zone("c", Some("c.")),
        zone("bc", Some("b.c.")),
        zone("unnamed", None),
        zone("xc", Some("x.c.")),
        zone("abc", Some("a.b.c.")),
        zone("zabc", Some("z.a.b.c.")),
    ];
    assert_eq!(longest_parent(&zones, &fqdn("a.b.c.")), Some(1));
    assert_eq!(longest_parent(&zones, &fqdn("y.z.a.b.c.")), Some(5));
    assert_eq!(longest_parent(&zones, &fqdn("b.c.")), Some(0));
    assert_eq!(longest_parent(&zones, &fqdn("c.")), None);
    assert_eq!(longest_parent(&zones, &fqdn("a.b.d.")), None);
    assert_eq!(longest_parent(&vec![], &fqdn("a.b.c.")), None);

    // Of two zones of one name the later one is taken.
    let twins = vec![zone("one", Some("b.c.")), zone("two", Some("b.c.")), zone("c", Some("c."))];
    assert_eq!(longest_parent(&twins, &fqdn("a.b.c.")), Some(1));
}
