//! Zones, Records and what they hold, as plain values.
//!
//! A resource is what the cluster stores of it and what the resolvers read:
//! its name and namespace, the parent-zone label, the user's description and
//! the status that the resolvers keep.

use vstd::prelude::*;
use crate::delegation::{
    authorizes_record, authorizes_zone, delegations_allow_record, delegations_allow_zone,
    Delegation, DelegationView,
};
use crate::domain::{is_subdomain, DomainName, DomainNameView, FullyQualifiedDomainName};
use crate::rr::{Class, ClassView, RecordType, RecordTypeView};
use crate::text::{copy_optional_string, push_dot, push_text, same_text};

verus! {

/// Reference to a zone by name, in a namespace or in the referrer's own.
#[derive(Debug, PartialEq, Eq)]
pub struct ZoneRef {
    pub name: String,
    pub namespace: Option<String>,
}

/// Mathematical value of a [`ZoneRef`].
pub struct ZoneRefView {
    pub name: Seq<char>,
    pub namespace: Option<Seq<char>>,
}

impl View for ZoneRef {
    type V = ZoneRefView;

    open spec fn view(&self) -> ZoneRefView {
        ZoneRefView { name: self.name@, namespace: self.namespace.deep_view() }
    }
}

impl DeepView for ZoneRef {
    type V = ZoneRefView;

    open spec fn deep_view(&self) -> ZoneRefView {
        self@
    }
}

/// Whether `text` holds no dot.
pub open spec fn dot_free(text: Seq<char>) -> bool {
    forall|i: int| 0 <= i < text.len() ==> text[i] != '.'
}

/// Whether `k` is the place of the first dot in `text`.
pub open spec fn first_dot_at(text: Seq<char>, k: int) -> bool {
    &&& 0 <= k < text.len()
    &&& text[k] == '.'
    &&& dot_free(text.subrange(0, k))
}

impl ZoneRefView {
    /// The label value that stands for the reference: the namespace, a dot
    /// and the name; the name alone where no namespace is given.
    pub open spec fn label(self) -> Seq<char> {
        match self.namespace {
            Some(namespace) => namespace + seq!['.'] + self.name,
            None => self.name,
        }
    }

    /// The reference that a label value stands for: what is in front of the
    /// first dot is the namespace, what follows is the name; without a dot
    /// the whole is the name.
    pub open spec fn of_label(text: Seq<char>) -> ZoneRefView {
        if dot_free(text) {
            ZoneRefView { name: text, namespace: None }
        } else {
            let k = choose|k: int| first_dot_at(text, k);
            ZoneRefView {
                name: text.subrange(k + 1, text.len() as int),
                namespace: Some(text.subrange(0, k)),
            }
        }
    }
}

/// At most one place is that of the first dot.
pub proof fn lemma_first_dot_unique(text: Seq<char>, a: int, b: int)
    requires
        first_dot_at(text, a),
        first_dot_at(text, b),
    ensures
        a == b,
{
    if a < b {
        assert(text.subrange(0, b)[a] == '.');
    } else if b < a {
        assert(text.subrange(0, a)[b] == '.');
    }
}

/// A reference whose namespace holds no dot is read back from its label as
/// it was; so is one without a namespace whose name holds no dot.
pub proof fn lemma_label_round_trip(r: ZoneRefView)
    requires
        match r.namespace {
            Some(namespace) => dot_free(namespace),
            None => dot_free(r.name),
        },
    ensures
        ZoneRefView::of_label(r.label()) == r,
{
    match r.namespace {
        Some(namespace) => {
            let text = r.label();
            let k = namespace.len() as int;
            assert(text[k] == '.');
            assert(text.subrange(0, k) =~= namespace);
            assert(first_dot_at(text, k));
            assert(!dot_free(text));
            let c = choose|c: int| first_dot_at(text, c);
            lemma_first_dot_unique(text, c, k);
            assert(text.subrange(k + 1, text.len() as int) =~= r.name);
        },
        None => {},
    }
}

impl Clone for ZoneRef {
    fn clone(&self) -> (r: Self)
        ensures
            r@ == self@,
    {
        let namespace = match &self.namespace {
            Some(namespace) => Some(namespace.clone()),
            None => None,
        };
        ZoneRef { name: self.name.clone(), namespace }
    }
}

impl ZoneRef {
    /// The label value that stands for the reference.
    pub fn as_label(&self) -> (r: String)
        ensures
            r@ == self@.label(),
    {
        match &self.namespace {
            Some(namespace) => {
                let mut out = namespace.clone();
                push_dot(&mut out);
                push_text(&mut out, self.name.as_str());
                out
            },
            None => self.name.clone(),
        }
    }

    /// The reference that a label value stands for.
    pub fn from_label(label: &str) -> (r: ZoneRef)
        ensures
            r@ == ZoneRefView::of_label(label@),
    {
        let n = label.unicode_len();
        let mut k: usize = 0;
        while k < n
            invariant
                k <= n,
                n == label@.len(),
                dot_free(label@.subrange(0, k as int)),
            decreases n - k,
        {
            if label.get_char(k) == '.' {
                proof {
                    assert(first_dot_at(label@, k as int));
                    let c = choose|c: int| first_dot_at(label@, c);
                    lemma_first_dot_unique(label@, c, k as int);
                }
                let namespace = label.substring_char(0, k).to_owned();
                let name = label.substring_char(k + 1, n).to_owned();
                return ZoneRef { name, namespace: Some(namespace) };
            }
            proof {
                let next = label@.subrange(0, k + 1);
                assert forall|i: int| 0 <= i < next.len() implies next[i] != '.' by {
                    if i < k {
                        assert(label@.subrange(0, k as int)[i] != '.');
                    }
                }
            }
            k += 1;
        }
        assert(label@.subrange(0, n as int) =~= label@);
        ZoneRef { name: label.to_owned(), namespace: None }
    }

    /// Whether two references name the same zone in the same way.
    pub fn same(&self, other: &ZoneRef) -> (r: bool)
        ensures
            r == (self@ == other@),
    {
        if self.name != other.name {
            return false;
        }
        match (&self.namespace, &other.namespace) {
            (Some(a), Some(b)) => *a == *b,
            (None, None) => true,
            _ => false,
        }
    }
}


/// One line of a materialized zone.
#[derive(Debug, PartialEq, Eq)]
pub struct ZoneEntry {
    pub fqdn: FullyQualifiedDomainName,
    pub type_: RecordType,
    pub class: Class,
    pub ttl: u32,
    pub rdata: String,
}

/// Mathematical value of a [`ZoneEntry`].
pub struct ZoneEntryView {
    pub fqdn: Seq<Seq<char>>,
    pub type_: RecordTypeView,
    pub class: ClassView,
    pub ttl: u32,
    pub rdata: Seq<char>,
}

impl View for ZoneEntry {
    type V = ZoneEntryView;

    open spec fn view(&self) -> ZoneEntryView {
        ZoneEntryView {
            fqdn: self.fqdn@,
            type_: self.type_@,
            class: self.class@,
            ttl: self.ttl,
            rdata: self.rdata@,
        }
    }
}

impl DeepView for ZoneEntry {
    type V = ZoneEntryView;

    open spec fn deep_view(&self) -> ZoneEntryView {
        self@
    }
}

impl Clone for ZoneEntry {
    fn clone(&self) -> (r: Self)
        ensures
            r@ == self@,
    {
        ZoneEntry {
            fqdn: self.fqdn.clone(),
            type_: self.type_.clone(),
            class: self.class.clone(),
            ttl: self.ttl,
            rdata: self.rdata.clone(),
        }
    }
}

/// What the user asks of a Record.
#[derive(Debug, PartialEq, Eq)]
pub struct RecordSpec {
    pub domain_name: DomainName,
    pub zone_ref: Option<ZoneRef>,
    pub type_: RecordType,
    pub class: Class,
    pub ttl: Option<u32>,
    pub rdata: String,
}

/// What the resolvers have found out about a Record.
#[derive(Debug, PartialEq, Eq)]
pub struct RecordStatus {
    pub fqdn: Option<FullyQualifiedDomainName>,
}

/// A Record as the cluster holds it.
#[derive(Debug, PartialEq, Eq)]
pub struct Record {
    pub name: String,
    pub namespace: String,
    /// Value of the parent-zone label; absent while the Record is not adopted.
    pub parent_zone: Option<String>,
    pub spec: RecordSpec,
    pub status: RecordStatus,
}

/// Mathematical value of a [`RecordSpec`].
pub struct RecordSpecView {
    pub domain_name: DomainNameView,
    pub zone_ref: Option<ZoneRefView>,
    pub type_: RecordTypeView,
    pub class: ClassView,
    pub ttl: Option<u32>,
    pub rdata: Seq<char>,
}

/// Mathematical value of a [`RecordStatus`].
pub struct RecordStatusView {
    pub fqdn: Option<Seq<Seq<char>>>,
}

/// Mathematical value of a [`Record`].
pub struct RecordView {
    pub name: Seq<char>,
    pub namespace: Seq<char>,
    pub parent_zone: Option<Seq<char>>,
    pub spec: RecordSpecView,
    pub status: RecordStatusView,
}

impl View for RecordSpec {
    type V = RecordSpecView;

    open spec fn view(&self) -> RecordSpecView {
        RecordSpecView {
            domain_name: self.domain_name@,
            zone_ref: self.zone_ref.deep_view(),
            type_: self.type_@,
            class: self.class@,
            ttl: self.ttl,
            rdata: self.rdata@,
        }
    }
}

impl View for RecordStatus {
    type V = RecordStatusView;

    open spec fn view(&self) -> RecordStatusView {
        RecordStatusView { fqdn: self.fqdn.deep_view() }
    }
}

impl View for Record {
    type V = RecordView;

    open spec fn view(&self) -> RecordView {
        RecordView {
            name: self.name@,
            namespace: self.namespace@,
            parent_zone: self.parent_zone.deep_view(),
            spec: self.spec@,
            status: self.status@,
        }
    }
}

impl DeepView for Record {
    type V = RecordView;

    open spec fn deep_view(&self) -> RecordView {
        self@
    }
}

/// A copy of a zone reference that may be absent.
fn copy_optional_ref(zone_ref: &Option<ZoneRef>) -> (r: Option<ZoneRef>)
    ensures
        r.deep_view() == zone_ref.deep_view(),
{
    match zone_ref {
        Some(zone_ref) => Some(zone_ref.clone()),
        None => None,
    }
}

/// A copy of a fully qualified name that may be absent.
fn copy_optional_fqdn(fqdn: &Option<FullyQualifiedDomainName>) -> (r: Option<
    FullyQualifiedDomainName,
>)
    ensures
        r.deep_view() == fqdn.deep_view(),
{
    match fqdn {
        Some(fqdn) => Some(fqdn.clone()),
        None => None,
    }
}

impl Clone for RecordSpec {
    fn clone(&self) -> (r: Self)
        ensures
            r@ == self@,
    {
        RecordSpec {
            domain_name: self.domain_name.clone(),
            zone_ref: copy_optional_ref(&self.zone_ref),
            type_: self.type_.clone(),
            class: self.class.clone(),
            ttl: self.ttl,
            rdata: self.rdata.clone(),
        }
    }
}

impl Clone for RecordStatus {
    fn clone(&self) -> (r: Self)
        ensures
            r@ == self@,
    {
        RecordStatus { fqdn: copy_optional_fqdn(&self.fqdn) }
    }
}

impl Clone for Record {
    fn clone(&self) -> (r: Self)
        ensures
            r@ == self@,
    {
        Record {
            name: self.name.clone(),
            namespace: self.namespace.clone(),
            parent_zone: copy_optional_string(&self.parent_zone),
            spec: self.spec.clone(),
            status: self.status.clone(),
        }
    }
}

/// What the user asks of a Zone.
#[derive(Debug, PartialEq, Eq)]
pub struct ZoneSpec {
    pub domain_name: DomainName,
    pub zone_ref: Option<ZoneRef>,
    pub delegations: Vec<Delegation>,
    pub ttl: u32,
    pub refresh: u32,
    pub retry: u32,
    pub expire: u32,
    pub negative_response_cache: u32,
}

/// What the resolvers have found out about a Zone.
#[derive(Debug, PartialEq, Eq)]
pub struct ZoneStatus {
    pub entries: Vec<ZoneEntry>,
    pub fqdn: Option<FullyQualifiedDomainName>,
    pub hash: Option<String>,
    pub serial: Option<u32>,
}

/// A Zone as the cluster holds it.
#[derive(Debug, PartialEq, Eq)]
pub struct Zone {
    pub name: String,
    pub namespace: String,
    /// Value of the parent-zone label; absent while the Zone is not adopted.
    pub parent_zone: Option<String>,
    pub spec: ZoneSpec,
    pub status: ZoneStatus,
}

/// Mathematical value of a [`ZoneSpec`].
pub struct ZoneSpecView {
    pub domain_name: DomainNameView,
    pub zone_ref: Option<ZoneRefView>,
    pub delegations: Seq<DelegationView>,
    pub ttl: u32,
    pub refresh: u32,
    pub retry: u32,
    pub expire: u32,
    pub negative_response_cache: u32,
}

/// Mathematical value of a [`ZoneStatus`].
pub struct ZoneStatusView {
    pub entries: Seq<ZoneEntryView>,
    pub fqdn: Option<Seq<Seq<char>>>,
    pub hash: Option<Seq<char>>,
    pub serial: Option<u32>,
}

/// Mathematical value of a [`Zone`].
pub struct ZoneView {
    pub name: Seq<char>,
    pub namespace: Seq<char>,
    pub parent_zone: Option<Seq<char>>,
    pub spec: ZoneSpecView,
    pub status: ZoneStatusView,
}

impl View for ZoneSpec {
    type V = ZoneSpecView;

    open spec fn view(&self) -> ZoneSpecView {
        ZoneSpecView {
            domain_name: self.domain_name@,
            zone_ref: self.zone_ref.deep_view(),
            delegations: self.delegations.deep_view(),
            ttl: self.ttl,
            refresh: self.refresh,
            retry: self.retry,
            expire: self.expire,
            negative_response_cache: self.negative_response_cache,
        }
    }
}

impl View for ZoneStatus {
    type V = ZoneStatusView;

    open spec fn view(&self) -> ZoneStatusView {
        ZoneStatusView {
            entries: self.entries.deep_view(),
            fqdn: self.fqdn.deep_view(),
            hash: self.hash.deep_view(),
            serial: self.serial,
        }
    }
}

impl View for Zone {
    type V = ZoneView;

    open spec fn view(&self) -> ZoneView {
        ZoneView {
            name: self.name@,
            namespace: self.namespace@,
            parent_zone: self.parent_zone.deep_view(),
            spec: self.spec@,
            status: self.status@,
        }
    }
}

impl DeepView for Zone {
    type V = ZoneView;

    open spec fn deep_view(&self) -> ZoneView {
        self@
    }
}

impl ZoneEntry {
    /// Whether two entries say the same.
    pub fn same(&self, other: &ZoneEntry) -> (r: bool)
        ensures
            r == (self@ == other@),
    {
        self.fqdn.same(&other.fqdn) && self.type_.same(&other.type_) && self.class.same(
            &other.class,
        ) && self.ttl == other.ttl && self.rdata == other.rdata
    }
}

/// Whether two lists hold the same entries in the same order.
pub fn same_entries(a: &Vec<ZoneEntry>, b: &Vec<ZoneEntry>) -> (r: bool)
    ensures
        r == (a.deep_view() == b.deep_view()),
{
    if a.len() != b.len() {
        assert(a.deep_view().len() != b.deep_view().len());
        return false;
    }
    let mut i: usize = 0;
    while i < a.len()
        invariant
            i <= a.len(),
            a.len() == b.len(),
            forall|j: int| 0 <= j < i ==> a[j]@ == b[j]@,
        decreases a.len() - i,
    {
        if !a[i].same(&b[i]) {
            assert(a.deep_view()[i as int] != b.deep_view()[i as int]);
            return false;
        }
        i += 1;
    }
    assert(a.deep_view() =~= b.deep_view());
    true
}

/// A copy of a list of entries.
pub fn copy_entries(entries: &Vec<ZoneEntry>) -> (r: Vec<ZoneEntry>)
    ensures
        r.deep_view() == entries.deep_view(),
{
    let mut r: Vec<ZoneEntry> = Vec::new();
    let mut i: usize = 0;
    while i < entries.len()
        invariant
            i <= entries.len(),
            r.len() == i,
            forall|j: int| 0 <= j < i ==> r[j]@ == entries[j]@,
        decreases entries.len() - i,
    {
        r.push(entries[i].clone());
        i += 1;
    }
    assert(r.deep_view() =~= entries.deep_view());
    r
}

/// A copy of a list of delegations.
fn copy_delegations(delegations: &Vec<Delegation>) -> (r: Vec<Delegation>)
    ensures
        r.deep_view() == delegations.deep_view(),
{
    let mut r: Vec<Delegation> = Vec::new();
    let mut i: usize = 0;
    while i < delegations.len()
        invariant
            i <= delegations.len(),
            r.len() == i,
            forall|j: int| 0 <= j < i ==> r[j]@ == delegations[j]@,
        decreases delegations.len() - i,
    {
        r.push(delegations[i].clone());
        i += 1;
    }
    assert(r.deep_view() =~= delegations.deep_view());
    r
}

impl Clone for ZoneSpec {
    fn clone(&self) -> (r: Self)
        ensures
            r@ == self@,
    {
        ZoneSpec {
            domain_name: self.domain_name.clone(),
            zone_ref: copy_optional_ref(&self.zone_ref),
            delegations: copy_delegations(&self.delegations),
            ttl: self.ttl,
            refresh: self.refresh,
            retry: self.retry,
            expire: self.expire,
            negative_response_cache: self.negative_response_cache,
        }
    }
}

impl Clone for ZoneStatus {
    fn clone(&self) -> (r: Self)
        ensures
            r@ == self@,
    {
        ZoneStatus {
            entries: copy_entries(&self.entries),
            fqdn: copy_optional_fqdn(&self.fqdn),
            hash: copy_optional_string(&self.hash),
            serial: self.serial,
        }
    }
}

impl Clone for Zone {
    fn clone(&self) -> (r: Self)
        ensures
            r@ == self@,
    {
        Zone {
            name: self.name.clone(),
            namespace: self.namespace.clone(),
            parent_zone: copy_optional_string(&self.parent_zone),
            spec: self.spec.clone(),
            status: self.status.clone(),
        }
    }
}

impl ZoneView {
    /// The reference by which others name this zone.
    pub open spec fn zone_ref(self) -> ZoneRefView {
        ZoneRefView { name: self.name, namespace: Some(self.namespace) }
    }

    /// The parent-zone label value that names this zone.
    pub open spec fn label(self) -> Seq<char> {
        self.zone_ref().label()
    }

    /// Whether this is the zone `(namespace, name)`.
    pub open spec fn is_named(self, namespace: Seq<char>, name: Seq<char>) -> bool {
        self.namespace == namespace && self.name == name
    }

    /// Whether the zone lets in `record`: both have their fully qualified
    /// names, the record's is the zone's or lies below it, and the zone's
    /// delegations authorize the record's name, type and namespace.
    pub open spec fn validate_record(self, record: RecordView) -> bool {
        &&& self.status.fqdn is Some
        &&& record.status.fqdn is Some
        &&& (record.status.fqdn->0 == self.status.fqdn->0 || is_subdomain(
            record.status.fqdn->0,
            self.status.fqdn->0,
        ))
        &&& authorizes_record(
            self.spec.delegations,
            self.namespace,
            self.status.fqdn->0,
            record.spec.type_,
            record.status.fqdn->0,
            record.namespace,
        )
    }

    /// Whether the zone lets in `child` as a child zone: both have their
    /// fully qualified names, the child's lies strictly below the zone's,
    /// the child is not the zone itself, and the zone's delegations
    /// authorize the child's name and namespace.
    pub open spec fn validate_zone(self, child: ZoneView) -> bool {
        &&& self.status.fqdn is Some
        &&& child.status.fqdn is Some
        &&& is_subdomain(child.status.fqdn->0, self.status.fqdn->0)
        &&& !child.is_named(self.namespace, self.name)
        &&& authorizes_zone(
            self.spec.delegations,
            self.namespace,
            self.status.fqdn->0,
            child.status.fqdn->0,
            child.namespace,
        )
    }
}

impl Record {
    /// The fully qualified name that the resolver has found, if any.
    pub fn fqdn(&self) -> (r: Option<&FullyQualifiedDomainName>)
        ensures
            r.deep_view() == self@.status.fqdn,
    {
        self.status.fqdn.as_ref()
    }

    /// The zone that the parent-zone label names, if the label is set.
    pub fn parent(&self) -> (r: Option<ZoneRef>)
        ensures
            r.deep_view() == match self@.parent_zone {
                Some(label) => Some(ZoneRefView::of_label(label)),
                None => None,
            },
    {
        match &self.parent_zone {
            Some(label) => Some(ZoneRef::from_label(label.as_str())),
            None => None,
        }
    }
}

impl Zone {
    /// The fully qualified name that the resolver has found, if any.
    pub fn fqdn(&self) -> (r: Option<&FullyQualifiedDomainName>)
        ensures
            r.deep_view() == self@.status.fqdn,
    {
        self.status.fqdn.as_ref()
    }

    /// The zone that the parent-zone label names, if the label is set.
    pub fn parent(&self) -> (r: Option<ZoneRef>)
        ensures
            r.deep_view() == match self@.parent_zone {
                Some(label) => Some(ZoneRefView::of_label(label)),
                None => None,
            },
    {
        match &self.parent_zone {
            Some(label) => Some(ZoneRef::from_label(label.as_str())),
            None => None,
        }
    }

    /// The reference by which others name this zone.
    pub fn zone_ref(&self) -> (r: ZoneRef)
        ensures
            r@ == self@.zone_ref(),
    {
        ZoneRef { name: self.name.clone(), namespace: Some(self.namespace.clone()) }
    }

    /// Whether this is the zone `(namespace, name)`.
    pub fn is_named(&self, namespace: &str, name: &str) -> (r: bool)
        ensures
            r == self@.is_named(namespace@, name@),
    {
        same_text(self.namespace.as_str(), namespace) && same_text(self.name.as_str(), name)
    }

    /// Whether the zone lets in `record`, by its current delegations.
    pub fn validate_record(&self, record: &Record) -> (r: bool)
        ensures
            r == self@.validate_record(record@),
    {
        let parent_fqdn = match &self.status.fqdn {
            Some(fqdn) => fqdn,
            None => {
                return false;
            },
        };
        let record_fqdn = match &record.status.fqdn {
            Some(fqdn) => fqdn,
            None => {
                return false;
            },
        };
        if !(record_fqdn.same(parent_fqdn) || record_fqdn.is_subdomain_of(parent_fqdn)) {
            return false;
        }
        delegations_allow_record(
            &self.spec.delegations,
            self.namespace.as_str(),
            parent_fqdn,
            &record.spec.type_,
            record_fqdn,
            record.namespace.as_str(),
        )
    }

    /// Whether the zone lets in `child` as a child zone, by its current
    /// delegations.
    pub fn validate_zone(&self, child: &Zone) -> (r: bool)
        ensures
            r == self@.validate_zone(child@),
    {
        let parent_fqdn = match &self.status.fqdn {
            Some(fqdn) => fqdn,
            None => {
                return false;
            },
        };
        let child_fqdn = match &child.status.fqdn {
            Some(fqdn) => fqdn,
            None => {
                return false;
            },
        };
        if !child_fqdn.is_subdomain_of(parent_fqdn) {
            return false;
        }
        if child.is_named(self.namespace.as_str(), self.name.as_str()) {
            return false;
        }
        delegations_allow_zone(
            &self.spec.delegations,
            self.namespace.as_str(),
            parent_fqdn,
            child_fqdn,
            child.namespace.as_str(),
        )
    }
}

} // verus!
