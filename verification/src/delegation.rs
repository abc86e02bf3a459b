//! Delegation policy: what a zone is willing to adopt.
//!
//! A zone lists delegations. Each names the namespaces it speaks for, the
//! records it lets in (by pattern and type) and the child zones it lets in
//! (by pattern). A candidate is let in if any one delegation both covers its
//! namespace and lets in its name; within one delegation both must hold.

use vstd::prelude::*;
use crate::domain::FullyQualifiedDomainName;
use crate::pattern::{pattern_match, Pattern};
use crate::rr::{RecordType, RecordTypeView};
use crate::text::{contains_string, copy_strings, same_text};

verus! {

/// Lets in records whose name matches a pattern and whose type is listed.
#[derive(Debug, PartialEq, Eq)]
pub struct RecordDelegation {
    /// Pattern, relative to the zone, that the record's name must match.
    pub pattern: Pattern,
    /// Types that are let in. Empty means every type.
    pub types: Vec<RecordType>,
}

/// Lets in child zones whose name matches a pattern.
#[derive(Debug, PartialEq, Eq)]
pub struct ZoneDelegation {
    /// Pattern, relative to the zone, that the child's name must match.
    pub pattern: Pattern,
}

/// One policy of a zone.
#[derive(Debug, PartialEq, Eq)]
pub struct Delegation {
    /// Namespaces the policy speaks for. Empty means the zone's own
    /// namespace and no other.
    pub namespaces: Vec<String>,
    /// Records that are let in.
    pub records: Vec<RecordDelegation>,
    /// Child zones that are let in.
    pub zones: Vec<ZoneDelegation>,
}

/// Mathematical value of a [`RecordDelegation`].
pub struct RecordDelegationView {
    pub pattern: Seq<Seq<char>>,
    pub types: Seq<RecordTypeView>,
}

/// Mathematical value of a [`Delegation`].
pub struct DelegationView {
    pub namespaces: Seq<Seq<char>>,
    pub records: Seq<RecordDelegationView>,
    pub zones: Seq<Seq<Seq<char>>>,
}

impl View for RecordDelegation {
    type V = RecordDelegationView;

    open spec fn view(&self) -> RecordDelegationView {
        RecordDelegationView { pattern: self.pattern@, types: self.types.deep_view() }
    }
}

impl DeepView for RecordDelegation {
    type V = RecordDelegationView;

    open spec fn deep_view(&self) -> RecordDelegationView {
        self@
    }
}

impl View for ZoneDelegation {
    type V = Seq<Seq<char>>;

    open spec fn view(&self) -> Seq<Seq<char>> {
        self.pattern@
    }
}

impl DeepView for ZoneDelegation {
    type V = Seq<Seq<char>>;

    open spec fn deep_view(&self) -> Seq<Seq<char>> {
        self@
    }
}

impl View for Delegation {
    type V = DelegationView;

    open spec fn view(&self) -> DelegationView {
        DelegationView {
            namespaces: self.namespaces.deep_view(),
            records: self.records.deep_view(),
            zones: self.zones.deep_view(),
        }
    }
}

impl DeepView for Delegation {
    type V = DelegationView;

    open spec fn deep_view(&self) -> DelegationView {
        self@
    }
}

impl RecordDelegationView {
    /// Whether this entry lets in a record of type `record_type` named
    /// `domain`, for the zone named `zone_fqdn`: the pattern, anchored at the
    /// zone, matches the name, and the type is listed or no type is.
    pub open spec fn validate(
        self,
        zone_fqdn: Seq<Seq<char>>,
        record_type: RecordTypeView,
        domain: Seq<Seq<char>>,
    ) -> bool {
        &&& pattern_match(self.pattern + zone_fqdn, domain)
        &&& (self.types.len() == 0 || self.types.contains(record_type))
    }
}

impl DelegationView {
    /// Whether the policy speaks for `namespace`, for a zone that lives in
    /// `zone_namespace`: with no namespace listed only the zone's own is
    /// covered, else those that are listed.
    pub open spec fn covers_namespace(self, zone_namespace: Seq<char>, namespace: Seq<char>) -> bool {
        ||| (self.namespaces.len() == 0 && namespace == zone_namespace)
        ||| self.namespaces.contains(namespace)
    }

    /// Whether some record entry of the policy lets the record in.
    pub open spec fn validate_record(
        self,
        zone_fqdn: Seq<Seq<char>>,
        record_type: RecordTypeView,
        domain: Seq<Seq<char>>,
    ) -> bool {
        exists|i: int|
            0 <= i < self.records.len() && (#[trigger] self.records[i]).validate(
                zone_fqdn,
                record_type,
                domain,
            )
    }

    /// Whether some zone entry of the policy matches the child's name.
    pub open spec fn validate_zone(self, parent_fqdn: Seq<Seq<char>>, domain: Seq<Seq<char>>) -> bool {
        exists|i: int|
            0 <= i < self.zones.len() && pattern_match(
                (#[trigger] self.zones[i]) + parent_fqdn,
                domain,
            )
    }
}

/// Whether a zone that lives in `zone_namespace`, is named `zone_fqdn` and
/// has the policies `delegations` lets in a record of type `record_type`
/// named `domain` from `namespace`: some one policy covers the namespace and
/// lets the record in.
pub open spec fn authorizes_record(
    delegations: Seq<DelegationView>,
    zone_namespace: Seq<char>,
    zone_fqdn: Seq<Seq<char>>,
    record_type: RecordTypeView,
    domain: Seq<Seq<char>>,
    namespace: Seq<char>,
) -> bool {
    exists|i: int|
        0 <= i < delegations.len() && authorizes_record_at(
            delegations,
            i,
            zone_namespace,
            zone_fqdn,
            record_type,
            domain,
            namespace,
        )
}

/// Whether the policy at index `i` lets the record in.
pub open spec fn authorizes_record_at(
    delegations: Seq<DelegationView>,
    i: int,
    zone_namespace: Seq<char>,
    zone_fqdn: Seq<Seq<char>>,
    record_type: RecordTypeView,
    domain: Seq<Seq<char>>,
    namespace: Seq<char>,
) -> bool {
    &&& delegations[i].covers_namespace(zone_namespace, namespace)
    &&& delegations[i].validate_record(zone_fqdn, record_type, domain)
}

/// Whether a zone that lives in `zone_namespace`, is named `parent_fqdn` and
/// has the policies `delegations` lets in a child zone named `domain` from
/// `namespace`: some one policy covers the namespace and lets the zone in.
pub open spec fn authorizes_zone(
    delegations: Seq<DelegationView>,
    zone_namespace: Seq<char>,
    parent_fqdn: Seq<Seq<char>>,
    domain: Seq<Seq<char>>,
    namespace: Seq<char>,
) -> bool {
    exists|i: int|
        0 <= i < delegations.len() && authorizes_zone_at(
            delegations,
            i,
            zone_namespace,
            parent_fqdn,
            domain,
            namespace,
        )
}

/// Whether the policy at index `i` lets the child zone in.
pub open spec fn authorizes_zone_at(
    delegations: Seq<DelegationView>,
    i: int,
    zone_namespace: Seq<char>,
    parent_fqdn: Seq<Seq<char>>,
    domain: Seq<Seq<char>>,
    namespace: Seq<char>,
) -> bool {
    &&& delegations[i].covers_namespace(zone_namespace, namespace)
    &&& delegations[i].validate_zone(parent_fqdn, domain)
}

/// A copy of a list of record types.
fn copy_types(types: &Vec<RecordType>) -> (r: Vec<RecordType>)
    ensures
        r.deep_view() == types.deep_view(),
{
    let mut r: Vec<RecordType> = Vec::new();
    let mut i: usize = 0;
    while i < types.len()
        invariant
            i <= types.len(),
            r.len() == i,
            forall|j: int| 0 <= j < i ==> r[j]@ == types[j]@,
        decreases types.len() - i,
    {
        r.push(types[i].clone());
        i += 1;
    }
    assert(r.deep_view() =~= types.deep_view());
    r
}

impl Clone for RecordDelegation {
    fn clone(&self) -> (r: Self)
        ensures
            r@ == self@,
    {
        RecordDelegation { pattern: self.pattern.clone(), types: copy_types(&self.types) }
    }
}

impl Clone for ZoneDelegation {
    fn clone(&self) -> (r: Self)
        ensures
            r@ == self@,
    {
        ZoneDelegation { pattern: self.pattern.clone() }
    }
}

impl Clone for Delegation {
    fn clone(&self) -> (r: Self)
        ensures
            r@ == self@,
    {
        let mut records: Vec<RecordDelegation> = Vec::new();
        let mut i: usize = 0;
        while i < self.records.len()
            invariant
                i <= self.records.len(),
                records.len() == i,
                forall|j: int| 0 <= j < i ==> records[j]@ == self.records[j]@,
            decreases self.records.len() - i,
        {
            records.push(self.records[i].clone());
            i += 1;
        }
        let mut zones: Vec<ZoneDelegation> = Vec::new();
        let mut k: usize = 0;
        while k < self.zones.len()
            invariant
                k <= self.zones.len(),
                zones.len() == k,
                forall|j: int| 0 <= j < k ==> zones[j]@ == self.zones[j]@,
            decreases self.zones.len() - k,
        {
            zones.push(self.zones[k].clone());
            k += 1;
        }
        assert(records.deep_view() =~= self.records.deep_view());
        assert(zones.deep_view() =~= self.zones.deep_view());
        Delegation { namespaces: copy_strings(&self.namespaces), records, zones }
    }
}

impl RecordDelegation {
    /// Whether this entry lets in a record of type `record_type` named
    /// `domain`, for the zone named `zone_fqdn`.
    pub fn validate(
        &self,
        zone_fqdn: &FullyQualifiedDomainName,
        record_type: &RecordType,
        domain: &FullyQualifiedDomainName,
    ) -> (r: bool)
        ensures
            r == self@.validate(zone_fqdn@, record_type@, domain@),
    {
        if !self.pattern.matches_under(zone_fqdn, domain) {
            return false;
        }
        if self.types.len() == 0 {
            return true;
        }
        let mut i: usize = 0;
        while i < self.types.len()
            invariant
                i <= self.types.len(),
                pattern_match(self@.pattern + zone_fqdn@, domain@),
                forall|j: int| 0 <= j < i ==> self.types[j]@ != record_type@,
            decreases self.types.len() - i,
        {
            if self.types[i].same(record_type) {
                assert(self@.types[i as int] == record_type@);
                assert(self@.types.contains(record_type@));
                return true;
            }
            i += 1;
        }
        assert(forall|j: int| 0 <= j < self@.types.len() ==> self@.types[j] != record_type@);
        false
    }
}

impl Delegation {
    /// Whether the policy speaks for `namespace`, for a zone that lives in
    /// `zone_namespace`.
    pub fn covers_namespace(&self, zone_namespace: &str, namespace: &str) -> (r: bool)
        ensures
            r == self@.covers_namespace(zone_namespace@, namespace@),
    {
        if self.namespaces.len() == 0 {
            assert(!self@.namespaces.contains(namespace@));
            same_text(namespace, zone_namespace)
        } else {
            contains_string(&self.namespaces, namespace)
        }
    }

    /// Whether some record entry of the policy lets in a record of type
    /// `record_type` named `domain`, for the zone named `zone_fqdn`. A policy
    /// without record entries lets in none.
    pub fn validate_record(
        &self,
        zone_fqdn: &FullyQualifiedDomainName,
        record_type: &RecordType,
        domain: &FullyQualifiedDomainName,
    ) -> (r: bool)
        ensures
            r == self@.validate_record(zone_fqdn@, record_type@, domain@),
    {
        let mut i: usize = 0;
        while i < self.records.len()
            invariant
                i <= self.records.len(),
                forall|j: int|
                    0 <= j < i ==> !(#[trigger] self@.records[j]).validate(
                        zone_fqdn@,
                        record_type@,
                        domain@,
                    ),
            decreases self.records.len() - i,
        {
            if self.records[i].validate(zone_fqdn, record_type, domain) {
                assert(self@.records[i as int] == self.records[i as int]@);
                return true;
            }
            assert(self@.records[i as int] == self.records[i as int]@);
            i += 1;
        }
        false
    }

    /// Whether some zone entry of the policy matches `domain`, for the zone
    /// named `parent_fqdn`. A policy without zone entries lets in none.
    pub fn validate_zone(
        &self,
        parent_fqdn: &FullyQualifiedDomainName,
        domain: &FullyQualifiedDomainName,
    ) -> (r: bool)
        ensures
            r == self@.validate_zone(parent_fqdn@, domain@),
    {
        let mut i: usize = 0;
        while i < self.zones.len()
            invariant
                i <= self.zones.len(),
                forall|j: int|
                    0 <= j < i ==> !pattern_match(
                        (#[trigger] self@.zones[j]) + parent_fqdn@,
                        domain@,
                    ),
            decreases self.zones.len() - i,
        {
            assert(self@.zones[i as int] == self.zones[i as int]@);
            if self.zones[i].pattern.matches_under(parent_fqdn, domain) {
                return true;
            }
            i += 1;
        }
        false
    }
}

/// Whether a zone lets in a record: whether any of its policies covers the
/// record's namespace and lets in its name and type. The first policy that
/// does settles it.
pub fn delegations_allow_record(
    delegations: &Vec<Delegation>,
    zone_namespace: &str,
    zone_fqdn: &FullyQualifiedDomainName,
    record_type: &RecordType,
    domain: &FullyQualifiedDomainName,
    namespace: &str,
) -> (r: bool)
    ensures
        r == authorizes_record(
            delegations.deep_view(),
            zone_namespace@,
            zone_fqdn@,
            record_type@,
            domain@,
            namespace@,
        ),
{
    let mut i: usize = 0;
    while i < delegations.len()
        invariant
            i <= delegations.len(),
            forall|j: int|
                0 <= j < i ==> !authorizes_record_at(
                    delegations.deep_view(),
                    j,
                    zone_namespace@,
                    zone_fqdn@,
                    record_type@,
                    domain@,
                    namespace@,
                ),
        decreases delegations.len() - i,
    {
        assert(delegations.deep_view()[i as int] == delegations[i as int]@);
        if delegations[i].covers_namespace(zone_namespace, namespace) && delegations[i].validate_record(
            zone_fqdn,
            record_type,
            domain,
        ) {
            assert(authorizes_record_at(
                delegations.deep_view(),
                i as int,
                zone_namespace@,
                zone_fqdn@,
                record_type@,
                domain@,
                namespace@,
            ));
            return true;
        }
        i += 1;
    }
    false
}

/// Whether a zone lets in a child zone: whether any of its policies covers
/// the child's namespace and lets in its name. The first policy that does
/// settles it.
pub fn delegations_allow_zone(
    delegations: &Vec<Delegation>,
    zone_namespace: &str,
    parent_fqdn: &FullyQualifiedDomainName,
    domain: &FullyQualifiedDomainName,
    namespace: &str,
) -> (r: bool)
    ensures
        r == authorizes_zone(
            delegations.deep_view(),
            zone_namespace@,
            parent_fqdn@,
            domain@,
            namespace@,
        ),
{
    let mut i: usize = 0;
    while i < delegations.len()
        invariant
            i <= delegations.len(),
            forall|j: int|
                0 <= j < i ==> !authorizes_zone_at(
                    delegations.deep_view(),
                    j,
                    zone_namespace@,
                    parent_fqdn@,
                    domain@,
                    namespace@,
                ),
        decreases delegations.len() - i,
    {
        assert(delegations.deep_view()[i as int] == delegations[i as int]@);
        if delegations[i].covers_namespace(zone_namespace, namespace) && delegations[i].validate_zone(
            parent_fqdn,
            domain,
        ) {
            assert(authorizes_zone_at(
                delegations.deep_view(),
                i as int,
                zone_namespace@,
                parent_fqdn@,
                domain@,
                namespace@,
            ));
            return true;
        }
        i += 1;
    }
    false
}

} // verus!
