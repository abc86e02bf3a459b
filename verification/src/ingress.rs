//! The Ingress bridge: which address records an Ingress gives rise to.
//!
//! For every host name of an Ingress and every address of its load balancer
//! there is to be one record, named after the three of them, of type A for
//! an IPv4 address and AAAA for an IPv6 address.

use vstd::prelude::*;
use crate::action::ERROR_REQUEUE_SECS;
use crate::domain::{domain_name_parse, DomainName, DomainNameView};
use crate::resource::{RecordSpec, RecordSpecView};
use crate::rr::{Class, ClassView, RecordType, RecordTypeView};
use crate::text::{push_hyphen, push_text};

verus! {

/// One address of a load balancer.
#[derive(Debug, PartialEq, Eq)]
pub struct LoadBalancerAddress {
    /// Whether this is an IPv4 address; else it is an IPv6 address.
    pub is_ipv4: bool,
    /// The address as it is written.
    pub address: String,
    /// The address in its canonical form: that of the IPv4 address for an
    /// IPv6 address that stands for one.
    pub canonical: String,
}

/// Mathematical value of a [`LoadBalancerAddress`].
pub struct LoadBalancerAddressView {
    pub is_ipv4: bool,
    pub address: Seq<char>,
    pub canonical: Seq<char>,
}

impl View for LoadBalancerAddress {
    type V = LoadBalancerAddressView;

    open spec fn view(&self) -> LoadBalancerAddressView {
        LoadBalancerAddressView {
            is_ipv4: self.is_ipv4,
            address: self.address@,
            canonical: self.canonical@,
        }
    }
}

impl DeepView for LoadBalancerAddress {
    type V = LoadBalancerAddressView;

    open spec fn deep_view(&self) -> LoadBalancerAddressView {
        self@
    }
}

/// A record that is to exist.
#[derive(Debug, PartialEq, Eq)]
pub struct PlannedRecord {
    pub name: String,
    pub spec: RecordSpec,
}

/// Mathematical value of a [`PlannedRecord`].
pub struct PlannedRecordView {
    pub name: Seq<char>,
    pub spec: RecordSpecView,
}

impl View for PlannedRecord {
    type V = PlannedRecordView;

    open spec fn view(&self) -> PlannedRecordView {
        PlannedRecordView { name: self.name@, spec: self.spec@ }
    }
}

impl DeepView for PlannedRecord {
    type V = PlannedRecordView;

    open spec fn deep_view(&self) -> PlannedRecordView {
        self@
    }
}

/// `text` with a hyphen in place of every dot and every colon.
pub open spec fn dashed(text: Seq<char>) -> Seq<char> {
    text.map_values(
        |c: char|
            if c == '.' || c == ':' {
                '-'
            } else {
                c
            },
    )
}

/// The name of the record for a host and an address of an Ingress: the
/// Ingress's name, the host name and the canonical address, joined by
/// hyphens, with hyphens for the dots and colons of the latter two.
pub open spec fn record_name(ingress_name: Seq<char>, host: DomainNameView, canonical: Seq<char>) -> Seq<
    char,
> {
    ingress_name + seq!['-'] + dashed(host.text()) + seq!['-'] + dashed(canonical)
}

/// The record for a host and an address of an Ingress: the host name read
/// as fully qualified, no zone reference, class IN, no time to live of its
/// own, and the address as its data.
pub open spec fn planned_record(
    ingress_name: Seq<char>,
    host: DomainNameView,
    address: LoadBalancerAddressView,
) -> PlannedRecordView {
    PlannedRecordView {
        name: record_name(ingress_name, host, address.canonical),
        spec: RecordSpecView {
            domain_name: DomainNameView::Full(host.labels()),
            zone_ref: None,
            type_: if address.is_ipv4 {
                RecordTypeView::A
            } else {
                RecordTypeView::AAAA
            },
            class: ClassView::IN,
            ttl: None,
            rdata: address.address,
        },
    }
}

/// The records for one host and the addresses of one family, in the order
/// of the addresses.
pub open spec fn family_records(
    ingress_name: Seq<char>,
    host: DomainNameView,
    addresses: Seq<LoadBalancerAddressView>,
    ipv4: bool,
) -> Seq<PlannedRecordView>
    decreases addresses.len(),
{
    if addresses.len() == 0 {
        Seq::empty()
    } else {
        let rest = family_records(ingress_name, host, addresses.drop_last(), ipv4);
        if addresses.last().is_ipv4 == ipv4 {
            rest.push(planned_record(ingress_name, host, addresses.last()))
        } else {
            rest
        }
    }
}

/// The records for one host: those for the IPv4 addresses, then those for
/// the IPv6 addresses.
pub open spec fn host_records(
    ingress_name: Seq<char>,
    host: DomainNameView,
    addresses: Seq<LoadBalancerAddressView>,
) -> Seq<PlannedRecordView> {
    family_records(ingress_name, host, addresses, true) + family_records(
        ingress_name,
        host,
        addresses,
        false,
    )
}

/// The records for an Ingress: those of every host that is a domain name,
/// in the order of the hosts. A host that is no domain name gives none.
pub open spec fn ingress_records(
    ingress_name: Seq<char>,
    hosts: Seq<Seq<char>>,
    addresses: Seq<LoadBalancerAddressView>,
) -> Seq<PlannedRecordView>
    decreases hosts.len(),
{
    if hosts.len() == 0 {
        Seq::empty()
    } else {
        let rest = ingress_records(ingress_name, hosts.drop_last(), addresses);
        match domain_name_parse(hosts.last()) {
            Ok(host) => rest + host_records(ingress_name, host, addresses),
            Err(_) => rest,
        }
    }
}

/// Appends `text` to `out` with a hyphen in place of every dot and colon.
fn push_dashed(out: &mut String, text: &str)
    ensures
        final(out)@ == old(out)@ + dashed(text@),
{
    let ghost before = out@;
    let n = text.unicode_len();
    let mut i: usize = 0;
    while i < n
        invariant
            i <= n,
            n == text@.len(),
            out@ == before + dashed(text@).subrange(0, i as int),
        decreases n - i,
    {
        let c = text.get_char(i);
        if c == '.' || c == ':' {
            push_hyphen(out);
        } else {
            let one = text.substring_char(i, i + 1);
            assert(one@ =~= seq![c]);
            push_text(out, one);
        }
        assert(out@ =~= before + dashed(text@).subrange(0, i + 1));
        i += 1;
    }
    assert(dashed(text@).subrange(0, i as int) =~= dashed(text@));
}

/// Plans the record for a host and an address of an Ingress.
pub fn plan_record(ingress_name: &str, host: &DomainName, address: &LoadBalancerAddress) -> (r:
    PlannedRecord)
    ensures
        r@ == planned_record(ingress_name@, host@, address@),
{
    let mut name = String::new();
    push_text(&mut name, ingress_name);
    push_hyphen(&mut name);
    let host_text = host.to_string();
    push_dashed(&mut name, host_text.as_str());
    push_hyphen(&mut name);
    push_dashed(&mut name, address.canonical.as_str());
    assert(name@ =~= record_name(ingress_name@, host@, address@.canonical));
    PlannedRecord {
        name,
        spec: RecordSpec {
            domain_name: DomainName::Full(host.to_fully_qualified()),
            zone_ref: None,
            type_: if address.is_ipv4 {
                RecordType::A
            } else {
                RecordType::AAAA
            },
            class: Class::IN,
            ttl: None,
            rdata: address.address.clone(),
        },
    }
}

fn push_family(
    out: &mut Vec<PlannedRecord>,
    ingress_name: &str,
    host: &DomainName,
    addresses: &Vec<LoadBalancerAddress>,
    ipv4: bool,
)
    ensures
        final(out).deep_view() == old(out).deep_view() + family_records(
            ingress_name@,
            host@,
            addresses.deep_view(),
            ipv4,
        ),
{
    let ghost before = out.deep_view();
    let ghost all = addresses.deep_view();
    let mut i: usize = 0;
    assert(all.subrange(0, 0) =~= Seq::<LoadBalancerAddressView>::empty());
    assert(out.deep_view() =~= before + Seq::<PlannedRecordView>::empty());
    while i < addresses.len()
        invariant
            i <= addresses.len(),
            all == addresses.deep_view(),
            out.deep_view() == before + family_records(
                ingress_name@,
                host@,
                all.subrange(0, i as int),
                ipv4,
            ),
        decreases addresses.len() - i,
    {
        proof {
            assert(all.subrange(0, i + 1).drop_last() =~= all.subrange(0, i as int));
            assert(all.subrange(0, i + 1).last() == addresses[i as int]@);
        }
        if addresses[i].is_ipv4 == ipv4 {
            let ghost so_far = out.deep_view();
            let record = plan_record(ingress_name, host, &addresses[i]);
            out.push(record);
            assert(out.deep_view() =~= so_far.push(
                planned_record(ingress_name@, host@, addresses[i as int]@),
            ));
            assert(out.deep_view() =~= before + family_records(
                ingress_name@,
                host@,
                all.subrange(0, i + 1),
                ipv4,
            ));
        }
        i += 1;
    }
    assert(all.subrange(0, i as int) =~= all);
}

/// Plans the records that an Ingress named `ingress_name` gives rise to,
/// from the hosts of its rules and the addresses of its load balancer.
///
/// Every host that is a domain name gets one record for each address: first
/// those for the IPv4 addresses, of type A, then those for the IPv6
/// addresses, of type AAAA, each family in the order of the addresses. The
/// hosts are taken in their order; a host that is no domain name is passed
/// over.
pub fn reconcile_ingresses(
    ingress_name: &str,
    hosts: &Vec<String>,
    addresses: &Vec<LoadBalancerAddress>,
) -> (records: Vec<PlannedRecord>)
    ensures
        records.deep_view() == ingress_records(
            ingress_name@,
            hosts.deep_view(),
            addresses.deep_view(),
        ),
{
    let ghost all = hosts.deep_view();
    let mut records: Vec<PlannedRecord> = Vec::new();
    let mut i: usize = 0;
    assert(all.subrange(0, 0) =~= Seq::<Seq<char>>::empty());
    assert(records.deep_view() =~= Seq::<PlannedRecordView>::empty());
    while i < hosts.len()
        invariant
            i <= hosts.len(),
            all == hosts.deep_view(),
            records.deep_view() == ingress_records(
                ingress_name@,
                all.subrange(0, i as int),
                addresses.deep_view(),
            ),
        decreases hosts.len() - i,
    {
        proof {
            assert(all.subrange(0, i + 1).drop_last() =~= all.subrange(0, i as int));
            assert(all.subrange(0, i + 1).last() == hosts[i as int]@);
        }
        match DomainName::parse(hosts[i].as_str()) {
            Ok(host) => {
                let ghost so_far = records.deep_view();
                push_family(&mut records, ingress_name, &host, addresses, true);
                push_family(&mut records, ingress_name, &host, addresses, false);
                assert(records.deep_view() =~= so_far + host_records(
                    ingress_name@,
                    host@,
                    addresses.deep_view(),
                ));
            },
            Err(_) => {},
        }
        i += 1;
    }
    assert(all.subrange(0, i as int) =~= all);
    records
}

/// The delay after a pass over an Ingress failed on the way to the cluster
/// or back.
pub fn ingress_error_policy() -> (after_secs: u64)
    ensures
        after_secs == ERROR_REQUEUE_SECS,
{
    ERROR_REQUEUE_SECS
}

} // verus!
