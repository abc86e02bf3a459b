//! The Zone resolver: placement of a zone under its parent, and the
//! materialized list of its entries with hash, serial and SOA.

use vstd::prelude::*;
use crate::action::{
    fqdn_writes, label_writes, proceed, proceed_step, push_fqdn_write, push_label_write, requeue,
    requeue_step, Event, EventView, Next, NextView, Step, StepView, Write, WriteView,
    ERROR_REQUEUE_SECS, FQDN_CHANGED_SECS, MISSING_PARENT_SECS, PARENT_NOT_READY_SECS,
};
use crate::delegation::{authorizes_zone, delegations_allow_zone};
use crate::digest::{hash_zone, zone_hash};
use crate::domain::{fully_qualified_text, DomainName, DomainNameView, FullyQualifiedDomainName};
use crate::placement::{
    fqdn_patch, longest_parent, nearest_at, nearest_parent, parent_patch, set_fqdn, set_parent,
    FqdnPatch, FqdnPatchView,
};
use crate::resource::{
    copy_entries, same_entries, Record, RecordView, Zone, ZoneEntry, ZoneEntryView, ZoneRefView,
    ZoneSpec, ZoneSpecView, ZoneStatusView, ZoneView,
};
use crate::rr::{Class, ClassView, RecordType, RecordTypeView};
use crate::serial::{next_serial, serial_after, today, CalendarDate};
use crate::text::{decimal, push_decimal, push_text, same_strings, same_text};

verus! {

/// The entry that stands for an adopted record in its zone: the record's
/// fully qualified name, type, class and data, and its time to live, or the
/// zone's where the record has none.
pub open spec fn record_entry(default_ttl: u32, record: RecordView) -> ZoneEntryView
    recommends
        record.status.fqdn is Some,
{
    ZoneEntryView {
        fqdn: record.status.fqdn->0,
        type_: record.spec.type_,
        class: record.spec.class,
        ttl: match record.spec.ttl {
            Some(ttl) => ttl,
            None => default_ttl,
        },
        rdata: record.spec.rdata,
    }
}

/// The entries of the records that `zone` lets in, in the order of the
/// records. A record that names the zone as its parent but is not let in by
/// the zone's current delegations is left out.
pub open spec fn adopted_entries(zone: ZoneView, records: Seq<RecordView>) -> Seq<ZoneEntryView>
    decreases records.len(),
{
    if records.len() == 0 {
        Seq::empty()
    } else {
        let rest = adopted_entries(zone, records.drop_last());
        if zone.validate_record(records.last()) {
            rest.push(record_entry(zone.spec.ttl, records.last()))
        } else {
            rest
        }
    }
}

/// Every adopted entry stands for a record that the zone lets in by its
/// current delegations.
pub proof fn lemma_adopted_entries_are_let_in(zone: ZoneView, records: Seq<RecordView>, k: int)
    requires
        0 <= k < adopted_entries(zone, records).len(),
    ensures
        exists|i: int|
            0 <= i < records.len() && zone.validate_record(#[trigger] records[i])
                && adopted_entries(zone, records)[k] == record_entry(zone.spec.ttl, records[i]),
    decreases records.len(),
{
    let rest = adopted_entries(zone, records.drop_last());
    if k < rest.len() {
        lemma_adopted_entries_are_let_in(zone, records.drop_last(), k);
        let i = choose|i: int|
            0 <= i < records.drop_last().len() && zone.validate_record(
                #[trigger] records.drop_last()[i],
            ) && rest[k] == record_entry(zone.spec.ttl, records.drop_last()[i]);
        assert(records[i] == records.drop_last()[i]);
    } else {
        assert(records[records.len() - 1] == records.last());
    }
}

/// Collects the entries of the records that `zone` lets in.
pub fn collect_record_entries(zone: &Zone, records: &Vec<Record>) -> (entries: Vec<ZoneEntry>)
    ensures
        entries.deep_view() == adopted_entries(zone@, records.deep_view()),
{
    let ghost all = records.deep_view();
    let mut entries: Vec<ZoneEntry> = Vec::new();
    let mut i: usize = 0;
    assert(all.subrange(0, 0) =~= Seq::<RecordView>::empty());
    assert(entries.deep_view() =~= Seq::<ZoneEntryView>::empty());
    while i < records.len()
        invariant
            i <= records.len(),
            all == records.deep_view(),
            entries.deep_view() == adopted_entries(zone@, all.subrange(0, i as int)),
        decreases records.len() - i,
    {
        proof {
            assert(all.subrange(0, i + 1).drop_last() =~= all.subrange(0, i as int));
            assert(all.subrange(0, i + 1).last() == records[i as int]@);
        }
        let record = &records[i];
        if zone.validate_record(record) {
            let ghost before = entries.deep_view();
            match &record.status.fqdn {
                Some(fqdn) => {
                    let entry = ZoneEntry {
                        fqdn: fqdn.clone(),
                        type_: record.spec.type_.clone(),
                        class: record.spec.class.clone(),
                        ttl: match record.spec.ttl {
                            Some(ttl) => ttl,
                            None => zone.spec.ttl,
                        },
                        rdata: record.spec.rdata.clone(),
                    };
                    assert(entry@ == record_entry(zone@.spec.ttl, record@));
                    entries.push(entry);
                    assert(entries.deep_view() =~= before.push(
                        record_entry(zone@.spec.ttl, record@),
                    ));
                },
                None => {},
            }
        }
        i += 1;
    }
    assert(all.subrange(0, i as int) =~= all);
    entries
}

/// Whether `record` is a name server record of the zone named `zone_fqdn`
/// for the zone itself: of class IN and type NS, and named `@` or by the
/// labels of the zone's name.
pub open spec fn is_own_nameserver(zone_fqdn: Seq<Seq<char>>, record: RecordView) -> bool {
    &&& record.spec.class == ClassView::IN
    &&& record.spec.type_ == RecordTypeView::NS
    &&& (record.spec.domain_name == DomainNameView::Partial(seq![seq!['@']]) || match record.spec.domain_name {
        DomainNameView::Full(labels) => labels == zone_fqdn,
        DomainNameView::Partial(labels) => labels == zone_fqdn,
    })
}

/// The entry by which a parent shows a name server record of its child
/// zone named `zone_fqdn`.
pub open spec fn nameserver_entry(default_ttl: u32, zone_fqdn: Seq<Seq<char>>, record: RecordView) -> ZoneEntryView {
    ZoneEntryView {
        fqdn: zone_fqdn,
        type_: record.spec.type_,
        class: record.spec.class,
        ttl: match record.spec.ttl {
            Some(ttl) => ttl,
            None => default_ttl,
        },
        rdata: record.spec.rdata,
    }
}

/// The name server entries of the zone named `zone_fqdn`, out of its
/// records and in their order.
pub open spec fn nameserver_entries(
    default_ttl: u32,
    zone_fqdn: Seq<Seq<char>>,
    records: Seq<RecordView>,
) -> Seq<ZoneEntryView>
    decreases records.len(),
{
    if records.len() == 0 {
        Seq::empty()
    } else {
        let rest = nameserver_entries(default_ttl, zone_fqdn, records.drop_last());
        if is_own_nameserver(zone_fqdn, records.last()) {
            rest.push(nameserver_entry(default_ttl, zone_fqdn, records.last()))
        } else {
            rest
        }
    }
}

/// Whether some one of the name server entries points at the name `fqdn`.
pub open spec fn names_server(nameservers: Seq<ZoneEntryView>, fqdn: Seq<Seq<char>>) -> bool {
    exists|i: int|
        0 <= i < nameservers.len() && (#[trigger] nameservers[i]).rdata == fully_qualified_text(
            fqdn,
        )
}

/// Whether `record` is glue for the name servers: an address record of
/// class IN whose fully qualified name is what one of them points at.
pub open spec fn is_glue(nameservers: Seq<ZoneEntryView>, record: RecordView) -> bool {
    &&& record.spec.class == ClassView::IN
    &&& (record.spec.type_ == RecordTypeView::A || record.spec.type_ == RecordTypeView::AAAA)
    &&& record.status.fqdn is Some
    &&& names_server(nameservers, record.status.fqdn->0)
}

/// The glue entries for the name servers, out of the records and in their
/// order.
pub open spec fn glue_entries(
    default_ttl: u32,
    nameservers: Seq<ZoneEntryView>,
    records: Seq<RecordView>,
) -> Seq<ZoneEntryView>
    decreases records.len(),
{
    if records.len() == 0 {
        Seq::empty()
    } else {
        let rest = glue_entries(default_ttl, nameservers, records.drop_last());
        if is_glue(nameservers, records.last()) {
            rest.push(record_entry(default_ttl, records.last()))
        } else {
            rest
        }
    }
}

/// What a parent shows of a child zone: the child's own name server
/// entries, then the glue for them; nothing while the child's fully
/// qualified name is not known.
pub open spec fn delegation_entries(default_ttl: u32, zone: ZoneView, records: Seq<RecordView>) -> Seq<
    ZoneEntryView,
> {
    match zone.status.fqdn {
        None => Seq::empty(),
        Some(zone_fqdn) => {
            let nameservers = nameserver_entries(default_ttl, zone_fqdn, records);
            nameservers + glue_entries(default_ttl, nameservers, records)
        },
    }
}

/// Whether some one of the name server entries points at `fqdn`.
fn points_at(nameservers: &Vec<ZoneEntry>, fqdn: &FullyQualifiedDomainName) -> (r: bool)
    ensures
        r == names_server(nameservers.deep_view(), fqdn@),
{
    let text = fqdn.to_string();
    let mut i: usize = 0;
    while i < nameservers.len()
        invariant
            i <= nameservers.len(),
            text@ == fully_qualified_text(fqdn@),
            forall|j: int| 0 <= j < i ==> nameservers.deep_view()[j].rdata != text@,
        decreases nameservers.len() - i,
    {
        assert(nameservers.deep_view()[i as int] == nameservers[i as int]@);
        if same_text(nameservers[i].rdata.as_str(), text.as_str()) {
            return true;
        }
        i += 1;
    }
    false
}

/// Whether `record` is a name server record of the zone named `zone_fqdn`
/// for the zone itself.
fn own_nameserver(zone_fqdn: &FullyQualifiedDomainName, record: &Record) -> (r: bool)
    ensures
        r == is_own_nameserver(zone_fqdn@, record@),
{
    if !record.spec.class.is_internet() || !record.spec.type_.is_ns() {
        return false;
    }
    match &record.spec.domain_name {
        DomainName::Full(name) => {
            assert(record@.spec.domain_name != DomainNameView::Partial(seq![seq!['@']]));
            same_strings(&name.labels, &zone_fqdn.labels)
        },
        DomainName::Partial(name) => {
            if same_strings(&name.labels, &zone_fqdn.labels) {
                return true;
            }
            let at = name.labels.len() == 1 && is_at_sign(name.labels[0].as_str());
            proof {
                if at {
                    assert(name@ =~= seq![seq!['@']]);
                } else if name@ == seq![seq!['@']] {
                    assert(name@.len() == 1);
                    assert(name@[0] == seq!['@']);
                }
            }
            at
        },
    }
}

/// Whether `text` is the one character `@`.
fn is_at_sign(text: &str) -> (r: bool)
    ensures
        r == (text@ == seq!['@']),
{
    if text.unicode_len() != 1 {
        return false;
    }
    let r = text.get_char(0) == '@';
    proof {
        if r {
            assert(text@ =~= seq!['@']);
        } else {
            assert(seq!['@'][0] == '@');
        }
    }
    r
}

/// Finds what a parent has to show of the child zone `zone`: the child's
/// name server records for its own name, and the address records that these
/// point at. `records` are the records that the child has adopted;
/// `default_ttl` is the time to live for records that give none.
pub fn find_zone_nameserver_records(zone: &Zone, records: &Vec<Record>, default_ttl: u32) -> (entries:
    Vec<ZoneEntry>)
    ensures
        entries.deep_view() == delegation_entries(default_ttl, zone@, records.deep_view()),
{
    let zone_fqdn = match &zone.status.fqdn {
        Some(fqdn) => fqdn,
        None => {
            let none: Vec<ZoneEntry> = Vec::new();
            assert(none.deep_view() =~= Seq::<ZoneEntryView>::empty());
            return none;
        },
    };
    let ghost all = records.deep_view();
    let mut entries: Vec<ZoneEntry> = Vec::new();
    let mut i: usize = 0;
    assert(all.subrange(0, 0) =~= Seq::<RecordView>::empty());
    assert(entries.deep_view() =~= Seq::<ZoneEntryView>::empty());
    while i < records.len()
        invariant
            i <= records.len(),
            all == records.deep_view(),
            entries.deep_view() == nameserver_entries(
                default_ttl,
                zone_fqdn@,
                all.subrange(0, i as int),
            ),
        decreases records.len() - i,
    {
        proof {
            assert(all.subrange(0, i + 1).drop_last() =~= all.subrange(0, i as int));
            assert(all.subrange(0, i + 1).last() == records[i as int]@);
        }
        let record = &records[i];
        if own_nameserver(zone_fqdn, record) {
            let ghost before = entries.deep_view();
            let entry = ZoneEntry {
                fqdn: zone_fqdn.clone(),
                type_: record.spec.type_.clone(),
                class: record.spec.class.clone(),
                ttl: match record.spec.ttl {
                    Some(ttl) => ttl,
                    None => default_ttl,
                },
                rdata: record.spec.rdata.clone(),
            };
            entries.push(entry);
            assert(entries.deep_view() =~= before.push(
                nameserver_entry(default_ttl, zone_fqdn@, record@),
            ));
        }
        i += 1;
    }
    assert(all.subrange(0, i as int) =~= all);
    let nameservers = copy_entries(&entries);
    let ghost ns = nameservers.deep_view();
    let mut k: usize = 0;
    assert(entries.deep_view() =~= ns + Seq::<ZoneEntryView>::empty());
    while k < records.len()
        invariant
            k <= records.len(),
            all == records.deep_view(),
            ns == nameservers.deep_view(),
            entries.deep_view() == ns + glue_entries(default_ttl, ns, all.subrange(0, k as int)),
        decreases records.len() - k,
    {
        proof {
            assert(all.subrange(0, k + 1).drop_last() =~= all.subrange(0, k as int));
            assert(all.subrange(0, k + 1).last() == records[k as int]@);
        }
        let record = &records[k];
        if record.spec.class.is_internet() && (record.spec.type_.is_a() || record.spec.type_.is_aaaa()) {
            match &record.status.fqdn {
                Some(fqdn) => {
                    if points_at(&nameservers, fqdn) {
                        let ghost before = entries.deep_view();
                        let entry = ZoneEntry {
                            fqdn: fqdn.clone(),
                            type_: record.spec.type_.clone(),
                            class: record.spec.class.clone(),
                            ttl: match record.spec.ttl {
                                Some(ttl) => ttl,
                                None => default_ttl,
                            },
                            rdata: record.spec.rdata.clone(),
                        };
                        entries.push(entry);
                        assert(entries.deep_view() =~= before.push(
                            record_entry(default_ttl, record@),
                        ));
                    }
                },
                None => {},
            }
        }
        k += 1;
    }
    assert(all.subrange(0, k as int) =~= all);
    entries
}


/// The data of the SOA entry:
/// `ns.<origin> noc.<origin> (<serial> <refresh> <retry> <expire> <negative response cache>)`,
/// the origin written with its trailing dot and the numbers in decimal.
pub open spec fn soa_rdata(origin: Seq<Seq<char>>, serial: u32, spec: ZoneSpecView) -> Seq<char> {
    "ns."@ + fully_qualified_text(origin) + " noc."@ + fully_qualified_text(origin) + " ("@
        + decimal(serial as nat) + " "@ + decimal(spec.refresh as nat) + " "@ + decimal(
        spec.retry as nat,
    ) + " "@ + decimal(spec.expire as nat) + " "@ + decimal(spec.negative_response_cache as nat)
        + ")"@
}

/// The SOA entry of the zone named `origin`.
pub open spec fn soa_entry(origin: Seq<Seq<char>>, serial: u32, spec: ZoneSpecView) -> ZoneEntryView {
    ZoneEntryView {
        fqdn: origin,
        type_: RecordTypeView::SOA,
        class: ClassView::IN,
        ttl: spec.ttl,
        rdata: soa_rdata(origin, serial, spec),
    }
}

/// Builds the SOA entry of a zone.
pub fn make_soa_entry(origin: &FullyQualifiedDomainName, serial: u32, spec: &ZoneSpec) -> (entry:
    ZoneEntry)
    ensures
        entry@ == soa_entry(origin@, serial, spec@),
{
    let name = origin.to_string();
    let mut rdata = String::new();
    push_text(&mut rdata, "ns.");
    push_text(&mut rdata, name.as_str());
    push_text(&mut rdata, " noc.");
    push_text(&mut rdata, name.as_str());
    push_text(&mut rdata, " (");
    push_decimal(&mut rdata, serial as u64);
    push_text(&mut rdata, " ");
    push_decimal(&mut rdata, spec.refresh as u64);
    push_text(&mut rdata, " ");
    push_decimal(&mut rdata, spec.retry as u64);
    push_text(&mut rdata, " ");
    push_decimal(&mut rdata, spec.expire as u64);
    push_text(&mut rdata, " ");
    push_decimal(&mut rdata, spec.negative_response_cache as u64);
    push_text(&mut rdata, ")");
    assert(rdata@ =~= soa_rdata(origin@, serial, spec@));
    ZoneEntry {
        fqdn: origin.clone(),
        type_: RecordType::SOA,
        class: Class::IN,
        ttl: spec.ttl,
        rdata,
    }
}

/// What is written into a zone's status once it is materialized.
#[derive(Debug, PartialEq, Eq)]
pub struct ZoneStatusPatch {
    pub fqdn: FullyQualifiedDomainName,
    pub hash: String,
    pub serial: u32,
    pub entries: Vec<ZoneEntry>,
}

/// Mathematical value of a [`ZoneStatusPatch`].
pub struct ZoneStatusPatchView {
    pub fqdn: Seq<Seq<char>>,
    pub hash: Seq<char>,
    pub serial: u32,
    pub entries: Seq<ZoneEntryView>,
}

impl View for ZoneStatusPatch {
    type V = ZoneStatusPatchView;

    open spec fn view(&self) -> ZoneStatusPatchView {
        ZoneStatusPatchView {
            fqdn: self.fqdn@,
            hash: self.hash@,
            serial: self.serial,
            entries: self.entries.deep_view(),
        }
    }
}

impl DeepView for ZoneStatusPatch {
    type V = ZoneStatusPatchView;

    open spec fn deep_view(&self) -> ZoneStatusPatchView {
        self@
    }
}

impl ZoneView {
    /// The serial that the status holds, 0 where it holds none.
    pub open spec fn last_serial(self) -> u32 {
        match self.status.serial {
            Some(serial) => serial,
            None => 0,
        }
    }

    /// The zone with `patch` written into its status.
    pub open spec fn with_status(self, patch: ZoneStatusPatchView) -> ZoneView {
        ZoneView {
            status: ZoneStatusView {
                entries: patch.entries,
                fqdn: Some(patch.fqdn),
                hash: Some(patch.hash),
                serial: Some(patch.serial),
            },
            ..self
        }
    }
}

/// The status of `zone` once it is materialized out of `entries`, the
/// entries of what it has adopted, on the day `today`.
///
/// Nothing while the zone's fully qualified name is not known. Else the hash
/// is that of the zone's description and of `entries`; the serial stays
/// where the hash is the one in the status and is bumped where it is not;
/// and the entries are the SOA entry followed by `entries`. Nothing where
/// the bumped serial does not fit into 32 bits.
pub open spec fn materialized(zone: ZoneView, entries: Seq<ZoneEntryView>, today: CalendarDate) -> Option<
    ZoneStatusPatchView,
> {
    match zone.status.fqdn {
        None => None,
        Some(origin) => {
            let hash = zone_hash(zone.spec, entries);
            match serial_after(zone.status.hash != Some(hash), zone.last_serial(), today) {
                None => None,
                Some(serial) => Some(
                    ZoneStatusPatchView {
                        fqdn: origin,
                        hash,
                        serial,
                        entries: seq![soa_entry(origin, serial, zone.spec)] + entries,
                    },
                ),
            }
        },
    }
}

/// Materializes a zone: computes hash, serial and SOA from the zone and the
/// entries of what it has adopted, and hands out what is to be written into
/// the zone's status.
pub fn update_zone_status(zone: &Zone, entries: Vec<ZoneEntry>, today: CalendarDate) -> (r: Option<
    ZoneStatusPatch,
>)
    ensures
        r.deep_view() == materialized(zone@, entries.deep_view(), today),
        r matches Some(patch) ==> {
            &&& patch@.entries.len() == entries.len() + 1
            &&& patch@.entries[0] == soa_entry(zone@.status.fqdn->0, patch.serial, zone@.spec)
            &&& patch@.entries[0].type_ == RecordTypeView::SOA
            &&& Some(patch@.entries[0].fqdn) == zone@.status.fqdn
            &&& patch@.hash == zone_hash(zone@.spec, entries.deep_view())
            &&& patch.serial >= zone@.last_serial()
            &&& (Some(patch@.hash) == zone@.status.hash ==> patch.serial == zone@.last_serial())
        },
{
    let origin = match &zone.status.fqdn {
        Some(fqdn) => fqdn,
        None => {
            return None;
        },
    };
    let ghost rest = entries.deep_view();
    let hash = hash_zone(&zone.spec, &entries);
    let changed = match &zone.status.hash {
        Some(current) => !same_text(current.as_str(), hash.as_str()),
        None => true,
    };
    let last_serial = match zone.status.serial {
        Some(serial) => serial,
        None => 0,
    };
    let serial = match next_serial(changed, last_serial, today) {
        Some(serial) => serial,
        None => {
            return None;
        },
    };
    let soa = make_soa_entry(origin, serial, &zone.spec);
    let mut entries = entries;
    entries.insert(0, soa);
    assert(entries.deep_view() =~= seq![soa_entry(origin@, serial, zone@.spec)] + rest);
    Some(ZoneStatusPatch { fqdn: origin.clone(), hash, serial, entries })
}

/// The serial never goes back, and it moves only with the hash.
pub proof fn lemma_serial_monotonic(zone: ZoneView, entries: Seq<ZoneEntryView>, today: CalendarDate)
    requires
        materialized(zone, entries, today) is Some,
    ensures
        materialized(zone, entries, today)->0.serial >= zone.last_serial(),
        zone.status.hash == Some(zone_hash(zone.spec, entries)) ==> materialized(
            zone,
            entries,
            today,
        )->0.serial == zone.last_serial(),
        zone.status.hash != Some(zone_hash(zone.spec, entries)) ==> materialized(
            zone,
            entries,
            today,
        )->0.serial > zone.last_serial(),
{
}

/// The first entry of a materialized zone is its SOA entry, under the
/// zone's own name.
pub proof fn lemma_soa_leads(zone: ZoneView, entries: Seq<ZoneEntryView>, today: CalendarDate)
    requires
        materialized(zone, entries, today) is Some,
    ensures
        materialized(zone, entries, today)->0.entries[0].type_ == RecordTypeView::SOA,
        Some(materialized(zone, entries, today)->0.entries[0].fqdn) == zone.status.fqdn,
        materialized(zone, entries, today)->0.entries.subrange(
            1,
            materialized(zone, entries, today)->0.entries.len() as int,
        ) == entries,
{
    let patch = materialized(zone, entries, today)->0;
    assert(patch.entries.subrange(1, patch.entries.len() as int) =~= entries);
}

/// Materializing again without a change gives the same again: once the
/// status is written, the same description and the same adopted entries give
/// the same hash, the same serial and the same entries, on whatever day.
pub proof fn lemma_materialize_stable(
    zone: ZoneView,
    entries: Seq<ZoneEntryView>,
    today: CalendarDate,
    later: CalendarDate,
)
    requires
        materialized(zone, entries, today) is Some,
    ensures
        materialized(zone.with_status(materialized(zone, entries, today)->0), entries, later)
            == materialized(zone, entries, today),
{
}


/// How far a pass over a zone has come, and what it has gathered.
#[derive(Debug, PartialEq, Eq)]
pub enum ZoneState {
    /// The pass has not begun.
    Start,
    /// The zone that the zone names was asked for.
    AwaitingParent,
    /// The zones of the cluster were asked for.
    AwaitingZones,
    /// The zone is placed; the records that name it as their parent were
    /// asked for.
    AwaitingRecords,
    /// The entries of the adopted records are gathered; the zones that name
    /// the zone as their parent were asked for.
    AwaitingChildren { entries: Vec<ZoneEntry> },
    /// The children that the zone lets in are known; the records of the
    /// child at index `at` were asked for.
    AwaitingChildRecords { entries: Vec<ZoneEntry>, children: Vec<Zone>, at: usize },
    /// The pass is over.
    Done,
}

/// Mathematical value of a [`ZoneState`].
pub enum ZoneStateView {
    Start,
    AwaitingParent,
    AwaitingZones,
    AwaitingRecords,
    AwaitingChildren { entries: Seq<ZoneEntryView> },
    AwaitingChildRecords { entries: Seq<ZoneEntryView>, children: Seq<ZoneView>, at: usize },
    Done,
}

impl View for ZoneState {
    type V = ZoneStateView;

    open spec fn view(&self) -> ZoneStateView {
        match self {
            ZoneState::Start => ZoneStateView::Start,
            ZoneState::AwaitingParent => ZoneStateView::AwaitingParent,
            ZoneState::AwaitingZones => ZoneStateView::AwaitingZones,
            ZoneState::AwaitingRecords => ZoneStateView::AwaitingRecords,
            ZoneState::AwaitingChildren { entries } => ZoneStateView::AwaitingChildren {
                entries: entries.deep_view(),
            },
            ZoneState::AwaitingChildRecords { entries, children, at } => {
                ZoneStateView::AwaitingChildRecords {
                    entries: entries.deep_view(),
                    children: children.deep_view(),
                    at: *at,
                }
            },
            ZoneState::Done => ZoneStateView::Done,
        }
    }
}

/// The end of a pass that has nothing to write.
pub open spec fn zone_done(after_secs: u64) -> (ZoneStateView, StepView) {
    (ZoneStateView::Done, requeue(after_secs))
}

/// The beginning of a pass.
///
/// A zone with a zone reference and a partial name asks for the zone that
/// it names, in the namespace of the reference or else in its own; a zone
/// that names itself is treated like one that names nothing. A zone with a
/// fully qualified name and no reference has that name written into its
/// status and comes back soon, or, where the status holds the name already,
/// asks for the zones of the cluster. A zone with both or with neither comes
/// back after the default delay with nothing written.
pub open spec fn zone_start(zone: ZoneView, requeue_secs: u64) -> (ZoneStateView, StepView) {
    match (zone.spec.zone_ref, zone.spec.domain_name) {
        (Some(zone_ref), DomainNameView::Partial(_)) => {
            let namespace = match zone_ref.namespace {
                Some(namespace) => namespace,
                None => zone.namespace,
            };
            if zone.is_named(namespace, zone_ref.name) {
                zone_done(requeue_secs)
            } else {
                (
                    ZoneStateView::AwaitingParent,
                    proceed(NextView::GetZone { namespace, name: zone_ref.name }),
                )
            }
        },
        (None, DomainNameView::Full(fqdn)) => match fqdn_patch(zone.status.fqdn, fqdn) {
            FqdnPatchView::Keep => (ZoneStateView::AwaitingZones, proceed(NextView::ListZones)),
            FqdnPatchView::Write(name) => (
                ZoneStateView::Done,
                StepView {
                    writes: seq![WriteView::Fqdn(name)],
                    next: NextView::Requeue { after_secs: FQDN_CHANGED_SECS },
                },
            ),
        },
        _ => zone_done(requeue_secs),
    }
}

/// What follows the placement of a zone: after the writes of the placement
/// the pass is over while the zone's fully qualified name is not in its
/// status yet; else the records that name the zone as their parent are asked
/// for.
pub open spec fn zone_placed(zone: ZoneView, requeue_secs: u64, writes: Seq<WriteView>) -> (
    ZoneStateView,
    StepView,
) {
    if zone.status.fqdn is None {
        (
            ZoneStateView::Done,
            StepView { writes, next: NextView::Requeue { after_secs: requeue_secs } },
        )
    } else {
        (
            ZoneStateView::AwaitingRecords,
            StepView { writes, next: NextView::ListRecords { parent_zone: zone.label() } },
        )
    }
}

/// Whether the zone `parent` lets in `zone` as a child under the name
/// `alleged`.
pub open spec fn parent_admits_zone(parent: ZoneView, zone: ZoneView, alleged: Seq<Seq<char>>) -> bool {
    &&& parent.status.fqdn is Some
    &&& authorizes_zone(
        parent.spec.delegations,
        parent.namespace,
        parent.status.fqdn->0,
        alleged,
        zone.namespace,
    )
}

/// What is done once the zone that the zone names was looked for.
///
/// Without that zone the pass comes back after half a minute; with one whose
/// fully qualified name is not known yet it comes back soon. Else the zone's
/// name is anchored at the parent's. Where the parent's delegations let the
/// zone in under that name, the name is written into the status and the
/// parent into the parent-zone label, each only if it is not there already,
/// and the pass goes on to materialize the zone. Where they do not, nothing
/// is written.
pub open spec fn zone_with_parent(zone: ZoneView, requeue_secs: u64, parent: Option<ZoneView>) -> (
    ZoneStateView,
    StepView,
) {
    match (zone.spec.zone_ref, zone.spec.domain_name, parent) {
        (Some(_), DomainNameView::Partial(partial), Some(upper)) => match upper.status.fqdn {
            None => zone_done(PARENT_NOT_READY_SECS),
            Some(parent_fqdn) => if parent_admits_zone(upper, zone, partial + parent_fqdn) {
                zone_placed(
                    zone,
                    requeue_secs,
                    fqdn_writes(fqdn_patch(zone.status.fqdn, partial + parent_fqdn)) + label_writes(
                        parent_patch(zone.parent_zone, Some(upper.zone_ref())),
                    ),
                )
            } else {
                zone_done(requeue_secs)
            },
        },
        (Some(_), DomainNameView::Partial(_), None) => zone_done(MISSING_PARENT_SECS),
        _ => zone_done(requeue_secs),
    }
}

/// The zone that adopts a zone with a fully qualified name: the nearest
/// zone that encloses the name, if it lets the zone in.
pub open spec fn adopting_parent(zone: ZoneView, fqdn: Seq<Seq<char>>, zones: Seq<ZoneView>) -> Option<
    ZoneRefView,
> {
    match nearest_parent(zones, fqdn) {
        Some(i) => if zones[i].validate_zone(zone) {
            Some(zones[i].zone_ref())
        } else {
            None
        },
        None => None,
    }
}

/// What is done once the zones of the cluster are known.
///
/// The parent-zone label is made to name the nearest zone that encloses the
/// zone's name, if that zone lets the zone in; else the label is taken off.
/// Nothing is written where the label is as wanted already. Then the pass
/// goes on to materialize the zone.
pub open spec fn zone_among_zones(zone: ZoneView, requeue_secs: u64, zones: Seq<ZoneView>) -> (
    ZoneStateView,
    StepView,
) {
    match (zone.spec.zone_ref, zone.spec.domain_name) {
        (None, DomainNameView::Full(fqdn)) => zone_placed(
            zone,
            requeue_secs,
            label_writes(parent_patch(zone.parent_zone, adopting_parent(zone, fqdn, zones))),
        ),
        _ => zone_done(requeue_secs),
    }
}

/// The children that `zone` lets in, in their order.
pub open spec fn adopted_children(zone: ZoneView, children: Seq<ZoneView>) -> Seq<ZoneView>
    decreases children.len(),
{
    if children.len() == 0 {
        Seq::empty()
    } else {
        let rest = adopted_children(zone, children.drop_last());
        if zone.validate_zone(children.last()) {
            rest.push(children.last())
        } else {
            rest
        }
    }
}

/// Whether the status of `zone` holds what `patch` would write.
pub open spec fn status_holds(zone: ZoneView, patch: ZoneStatusPatchView) -> bool {
    zone.status == ZoneStatusView {
        entries: patch.entries,
        fqdn: Some(patch.fqdn),
        hash: Some(patch.hash),
        serial: Some(patch.serial),
    }
}

/// The end of a pass that has gathered `entries`: the zone is materialized
/// and its status written, unless the status holds all of it already or the
/// zone cannot be materialized.
pub open spec fn zone_finished(
    zone: ZoneView,
    requeue_secs: u64,
    entries: Seq<ZoneEntryView>,
    today: CalendarDate,
) -> (ZoneStateView, StepView) {
    match materialized(zone, entries, today) {
        Some(patch) => if status_holds(zone, patch) {
            zone_done(requeue_secs)
        } else {
            (
                ZoneStateView::Done,
                StepView {
                    writes: seq![WriteView::Status(patch)],
                    next: NextView::Requeue { after_secs: requeue_secs },
                },
            )
        },
        None => zone_done(requeue_secs),
    }
}

/// What is done once the records that name the zone as their parent are
/// known: the entries of those that the zone lets in are gathered, and the
/// zones that name the zone as their parent are asked for.
pub open spec fn zone_with_records(zone: ZoneView, records: Seq<RecordView>) -> (
    ZoneStateView,
    StepView,
) {
    (
        ZoneStateView::AwaitingChildren { entries: adopted_entries(zone, records) },
        proceed(NextView::ListChildZones { parent_zone: zone.label() }),
    )
}

/// What is done once the zones that name the zone as their parent are
/// known: the records of the first child that the zone lets in are asked
/// for; without such a child the pass finishes.
pub open spec fn zone_with_children(
    zone: ZoneView,
    requeue_secs: u64,
    entries: Seq<ZoneEntryView>,
    children: Seq<ZoneView>,
    today: CalendarDate,
) -> (ZoneStateView, StepView) {
    let adopted = adopted_children(zone, children);
    if adopted.len() == 0 {
        zone_finished(zone, requeue_secs, entries, today)
    } else {
        (
            ZoneStateView::AwaitingChildRecords { entries, children: adopted, at: 0 },
            proceed(NextView::ListRecords { parent_zone: adopted[0].label() }),
        )
    }
}

/// What is done once the records of the child at index `at` are known: the
/// child's name server entries and their glue are added to the entries, and
/// the records of the next child are asked for; after the last child the
/// pass finishes.
pub open spec fn zone_with_child_records(
    zone: ZoneView,
    requeue_secs: u64,
    entries: Seq<ZoneEntryView>,
    children: Seq<ZoneView>,
    at: usize,
    records: Seq<RecordView>,
    today: CalendarDate,
) -> (ZoneStateView, StepView) {
    if at >= children.len() {
        zone_done(requeue_secs)
    } else {
        let gathered = entries + delegation_entries(zone.spec.ttl, children[at as int], records);
        if at + 1 < children.len() {
            (
                ZoneStateView::AwaitingChildRecords {
                    entries: gathered,
                    children,
                    at: (at + 1) as usize,
                },
                proceed(NextView::ListRecords { parent_zone: children[at + 1].label() }),
            )
        } else {
            zone_finished(zone, requeue_secs, gathered, today)
        }
    }
}

/// One turn of a pass over a zone on the day `today`: from how far the pass
/// has come and what it is told, to how far it has come then and what is to
/// be done. An event that the pass does not wait for ends it with nothing
/// written.
pub open spec fn zone_step(
    zone: ZoneView,
    requeue_secs: u64,
    state: ZoneStateView,
    event: EventView,
    today: CalendarDate,
) -> (ZoneStateView, StepView) {
    match (state, event) {
        (ZoneStateView::Start, EventView::Start) => zone_start(zone, requeue_secs),
        (ZoneStateView::AwaitingParent, EventView::Zone(parent)) => zone_with_parent(
            zone,
            requeue_secs,
            parent,
        ),
        (ZoneStateView::AwaitingZones, EventView::Zones(zones)) => zone_among_zones(
            zone,
            requeue_secs,
            zones,
        ),
        (ZoneStateView::AwaitingRecords, EventView::Records(records)) => zone_with_records(
            zone,
            records,
        ),
        (ZoneStateView::AwaitingChildren { entries }, EventView::Zones(children)) => {
            zone_with_children(zone, requeue_secs, entries, children, today)
        },
        (
            ZoneStateView::AwaitingChildRecords { entries, children, at },
            EventView::Records(records),
        ) => zone_with_child_records(zone, requeue_secs, entries, children, at, records, today),
        _ => zone_done(requeue_secs),
    }
}


fn done(after_secs: u64) -> (r: (ZoneState, Step))
    ensures
        (r.0@, r.1@) == zone_done(after_secs),
{
    (ZoneState::Done, requeue_step(after_secs))
}

fn begin(zone: &Zone, requeue_secs: u64) -> (r: (ZoneState, Step))
    ensures
        (r.0@, r.1@) == zone_start(zone@, requeue_secs),
{
    match (&zone.spec.zone_ref, &zone.spec.domain_name) {
        (Some(zone_ref), DomainName::Partial(_)) => {
            let namespace = match &zone_ref.namespace {
                Some(namespace) => namespace.clone(),
                None => zone.namespace.clone(),
            };
            if zone.is_named(namespace.as_str(), zone_ref.name.as_str()) {
                done(requeue_secs)
            } else {
                (
                    ZoneState::AwaitingParent,
                    proceed_step(Next::GetZone { namespace, name: zone_ref.name.clone() }),
                )
            }
        },
        (None, DomainName::Full(fqdn)) => {
            match set_fqdn(&zone.status.fqdn, fqdn) {
                FqdnPatch::Keep => (ZoneState::AwaitingZones, proceed_step(Next::ListZones)),
                FqdnPatch::Write(name) => {
                    let ghost labels = name@;
                    let mut writes: Vec<Write> = Vec::new();
                    writes.push(Write::Fqdn(name));
                    assert(writes.deep_view() =~= seq![WriteView::Fqdn(labels)]);
                    (
                        ZoneState::Done,
                        Step { writes, next: Next::Requeue { after_secs: FQDN_CHANGED_SECS } },
                    )
                },
            }
        },
        _ => done(requeue_secs),
    }
}

fn placed(zone: &Zone, requeue_secs: u64, writes: Vec<Write>) -> (r: (ZoneState, Step))
    ensures
        (r.0@, r.1@) == zone_placed(zone@, requeue_secs, writes.deep_view()),
{
    if zone.status.fqdn.is_none() {
        (ZoneState::Done, Step { writes, next: Next::Requeue { after_secs: requeue_secs } })
    } else {
        let parent_zone = zone.zone_ref().as_label();
        (ZoneState::AwaitingRecords, Step { writes, next: Next::ListRecords { parent_zone } })
    }
}

fn with_parent(zone: &Zone, requeue_secs: u64, parent: &Option<Zone>) -> (r: (ZoneState, Step))
    ensures
        (r.0@, r.1@) == zone_with_parent(zone@, requeue_secs, parent.deep_view()),
{
    match (&zone.spec.zone_ref, &zone.spec.domain_name, parent) {
        (Some(_), DomainName::Partial(partial), Some(upper)) => {
            let parent_fqdn = match &upper.status.fqdn {
                Some(fqdn) => fqdn,
                None => {
                    return done(PARENT_NOT_READY_SECS);
                },
            };
            let alleged = partial.with_origin(parent_fqdn);
            if delegations_allow_zone(
                &upper.spec.delegations,
                upper.namespace.as_str(),
                parent_fqdn,
                &alleged,
                zone.namespace.as_str(),
            ) {
                let mut writes: Vec<Write> = Vec::new();
                assert(writes.deep_view() =~= Seq::<WriteView>::empty());
                push_fqdn_write(&mut writes, set_fqdn(&zone.status.fqdn, &alleged));
                let zone_ref = upper.zone_ref();
                push_label_write(&mut writes, set_parent(&zone.parent_zone, Some(&zone_ref)));
                assert(writes.deep_view() =~= fqdn_writes(fqdn_patch(zone@.status.fqdn, alleged@))
                    + label_writes(parent_patch(zone@.parent_zone, Some(upper@.zone_ref()))));
                placed(zone, requeue_secs, writes)
            } else {
                done(requeue_secs)
            }
        },
        (Some(_), DomainName::Partial(_), None) => done(MISSING_PARENT_SECS),
        _ => done(requeue_secs),
    }
}

fn among_zones(zone: &Zone, requeue_secs: u64, zones: &Vec<Zone>) -> (r: (ZoneState, Step))
    ensures
        (r.0@, r.1@) == zone_among_zones(zone@, requeue_secs, zones.deep_view()),
{
    match (&zone.spec.zone_ref, &zone.spec.domain_name) {
        (None, DomainName::Full(fqdn)) => {
            let mut writes: Vec<Write> = Vec::new();
            assert(writes.deep_view() =~= Seq::<WriteView>::empty());
            let patch = match longest_parent(zones, fqdn) {
                Some(i) => {
                    assert(zones.deep_view()[i as int] == zones[i as int]@);
                    if zones[i].validate_zone(zone) {
                        let zone_ref = zones[i].zone_ref();
                        set_parent(&zone.parent_zone, Some(&zone_ref))
                    } else {
                        set_parent(&zone.parent_zone, None)
                    }
                },
                None => set_parent(&zone.parent_zone, None),
            };
            push_label_write(&mut writes, patch);
            assert(writes.deep_view() =~= label_writes(
                parent_patch(zone@.parent_zone, adopting_parent(zone@, fqdn@, zones.deep_view())),
            ));
            placed(zone, requeue_secs, writes)
        },
        _ => done(requeue_secs),
    }
}

/// Picks the children that `zone` lets in.
pub fn collect_children(zone: &Zone, children: &Vec<Zone>) -> (adopted: Vec<Zone>)
    ensures
        adopted.deep_view() == adopted_children(zone@, children.deep_view()),
{
    let ghost all = children.deep_view();
    let mut adopted: Vec<Zone> = Vec::new();
    let mut i: usize = 0;
    assert(all.subrange(0, 0) =~= Seq::<ZoneView>::empty());
    assert(adopted.deep_view() =~= Seq::<ZoneView>::empty());
    while i < children.len()
        invariant
            i <= children.len(),
            all == children.deep_view(),
            adopted.deep_view() == adopted_children(zone@, all.subrange(0, i as int)),
        decreases children.len() - i,
    {
        proof {
            assert(all.subrange(0, i + 1).drop_last() =~= all.subrange(0, i as int));
            assert(all.subrange(0, i + 1).last() == children[i as int]@);
        }
        if zone.validate_zone(&children[i]) {
            let ghost before = adopted.deep_view();
            adopted.push(children[i].clone());
            assert(adopted.deep_view() =~= before.push(children[i as int]@));
        }
        i += 1;
    }
    assert(all.subrange(0, i as int) =~= all);
    adopted
}

/// Whether the status of `zone` holds what `patch` would write.
fn holds(zone: &Zone, patch: &ZoneStatusPatch) -> (r: bool)
    ensures
        r == status_holds(zone@, patch@),
{
    let fqdn = match &zone.status.fqdn {
        Some(fqdn) => fqdn.same(&patch.fqdn),
        None => false,
    };
    let hash = match &zone.status.hash {
        Some(hash) => same_text(hash.as_str(), patch.hash.as_str()),
        None => false,
    };
    let serial = match zone.status.serial {
        Some(serial) => serial == patch.serial,
        None => false,
    };
    fqdn && hash && serial && same_entries(&zone.status.entries, &patch.entries)
}

fn finish(zone: &Zone, requeue_secs: u64, entries: Vec<ZoneEntry>, today: CalendarDate) -> (r: (
    ZoneState,
    Step,
))
    ensures
        (r.0@, r.1@) == zone_finished(zone@, requeue_secs, entries.deep_view(), today),
{
    match update_zone_status(zone, entries, today) {
        Some(patch) => {
            if holds(zone, &patch) {
                done(requeue_secs)
            } else {
                let ghost value = patch@;
                let mut writes: Vec<Write> = Vec::new();
                writes.push(Write::Status(patch));
                assert(writes.deep_view() =~= seq![WriteView::Status(value)]);
                (ZoneState::Done, Step { writes, next: Next::Requeue { after_secs: requeue_secs } })
            }
        },
        None => done(requeue_secs),
    }
}

fn with_children(
    zone: &Zone,
    requeue_secs: u64,
    entries: Vec<ZoneEntry>,
    children: &Vec<Zone>,
    today: CalendarDate,
) -> (r: (ZoneState, Step))
    ensures
        (r.0@, r.1@) == zone_with_children(
            zone@,
            requeue_secs,
            entries.deep_view(),
            children.deep_view(),
            today,
        ),
{
    let adopted = collect_children(zone, children);
    if adopted.len() == 0 {
        finish(zone, requeue_secs, entries, today)
    } else {
        assert(adopted.deep_view()[0] == adopted[0]@);
        let parent_zone = adopted[0].zone_ref().as_label();
        (
            ZoneState::AwaitingChildRecords { entries, children: adopted, at: 0 },
            proceed_step(Next::ListRecords { parent_zone }),
        )
    }
}

fn append_entries(entries: &mut Vec<ZoneEntry>, more: &Vec<ZoneEntry>)
    ensures
        final(entries).deep_view() == old(entries).deep_view() + more.deep_view(),
{
    let ghost before = entries.deep_view();
    let mut i: usize = 0;
    while i < more.len()
        invariant
            i <= more.len(),
            entries.len() == before.len() + i,
            forall|j: int| 0 <= j < before.len() ==> entries[j]@ == before[j],
            forall|j: int| 0 <= j < i ==> entries[before.len() + j]@ == more[j]@,
        decreases more.len() - i,
    {
        entries.push(more[i].clone());
        i += 1;
    }
    assert(entries.deep_view() =~= before + more.deep_view());
}

fn with_child_records(
    zone: &Zone,
    requeue_secs: u64,
    entries: Vec<ZoneEntry>,
    children: Vec<Zone>,
    at: usize,
    records: &Vec<Record>,
    today: CalendarDate,
) -> (r: (ZoneState, Step))
    ensures
        (r.0@, r.1@) == zone_with_child_records(
            zone@,
            requeue_secs,
            entries.deep_view(),
            children.deep_view(),
            at,
            records.deep_view(),
            today,
        ),
{
    if at >= children.len() {
        return done(requeue_secs);
    }
    assert(children.deep_view()[at as int] == children[at as int]@);
    let mut entries = entries;
    let more = find_zone_nameserver_records(&children[at], records, zone.spec.ttl);
    append_entries(&mut entries, &more);
    if at + 1 < children.len() {
        assert(children.deep_view()[at + 1] == children[at + 1]@);
        let parent_zone = children[at + 1].zone_ref().as_label();
        (
            ZoneState::AwaitingChildRecords { entries, children, at: at + 1 },
            proceed_step(Next::ListRecords { parent_zone }),
        )
    } else {
        finish(zone, requeue_secs, entries, today)
    }
}

/// Takes one turn of a pass over `zone`, on the day `today`.
///
/// The pass begins in [`ZoneState::Start`] with [`Event::Start`]. The caller
/// performs the writes of the step that comes back, in their order, then the
/// read that the step names, and hands in what the read found together with
/// the state that came back; the pass is over when the step names a delay.
/// `requeue_secs` is the default delay between passes.
pub fn reconcile_zones_on(
    zone: &Zone,
    requeue_secs: u64,
    state: ZoneState,
    event: Event,
    today: CalendarDate,
) -> (r: (ZoneState, Step))
    ensures
        (r.0@, r.1@) == zone_step(zone@, requeue_secs, state@, event@, today),
{
    match (state, event) {
        (ZoneState::Start, Event::Start) => begin(zone, requeue_secs),
        (ZoneState::AwaitingParent, Event::Zone(parent)) => with_parent(zone, requeue_secs, &parent),
        (ZoneState::AwaitingZones, Event::Zones(zones)) => among_zones(zone, requeue_secs, &zones),
        (ZoneState::AwaitingRecords, Event::Records(records)) => {
            let entries = collect_record_entries(zone, &records);
            let parent_zone = zone.zone_ref().as_label();
            (
                ZoneState::AwaitingChildren { entries },
                proceed_step(Next::ListChildZones { parent_zone }),
            )
        },
        (ZoneState::AwaitingChildren { entries }, Event::Zones(children)) => with_children(
            zone,
            requeue_secs,
            entries,
            &children,
            today,
        ),
        (ZoneState::AwaitingChildRecords { entries, children, at }, Event::Records(records)) => {
            with_child_records(zone, requeue_secs, entries, children, at, &records, today)
        },
        _ => done(requeue_secs),
    }
}

/// Takes one turn of a pass over `zone`, on today's date by the system's
/// clock in UTC. Whatever the day, the turn is the one that
/// [`reconcile_zones_on`] takes on that day.
pub fn reconcile_zones(zone: &Zone, requeue_secs: u64, state: ZoneState, event: Event) -> (r: (
    ZoneState,
    Step,
))
    ensures
        exists|day: CalendarDate|
            day.in_range() && (r.0@, r.1@) == #[trigger] zone_step(
                zone@,
                requeue_secs,
                state@,
                event@,
                day,
            ),
{
    let day = today();
    reconcile_zones_on(zone, requeue_secs, state, event, day)
}

/// The delay after a pass over a zone failed on the way to the cluster or
/// back.
pub fn zone_error_policy() -> (after_secs: u64)
    ensures
        after_secs == ERROR_REQUEUE_SECS,
{
    ERROR_REQUEUE_SECS
}


/// Every parent-zone label that a pass writes on a zone names a zone that
/// the pass has seen and whose delegations, as they were then, let the zone
/// in: the zone that it names, under the anchored name; or the nearest
/// enclosing zone, under the zone's own name.
pub proof fn lemma_written_zone_label_is_authorized(
    zone: ZoneView,
    requeue_secs: u64,
    state: ZoneStateView,
    event: EventView,
    today: CalendarDate,
    k: int,
)
    requires
        0 <= k < zone_step(zone, requeue_secs, state, event, today).1.writes.len(),
        zone_step(zone, requeue_secs, state, event, today).1.writes[k] is ParentLabel,
    ensures
        ({
            let label = zone_step(
                zone,
                requeue_secs,
                state,
                event,
                today,
            ).1.writes[k]->ParentLabel_0;
            ||| {
                &&& event matches EventView::Zone(Some(parent))
                &&& zone.spec.domain_name matches DomainNameView::Partial(partial)
                &&& parent.status.fqdn matches Some(origin)
                &&& label == parent.label()
                &&& parent_admits_zone(parent, zone, partial + origin)
            }
            ||| {
                &&& event matches EventView::Zones(zones)
                &&& zone.spec.domain_name matches DomainNameView::Full(fqdn)
                &&& exists|i: int|
                    nearest_at(zones, fqdn, i) && label == zones[i].label()
                        && zones[i].validate_zone(zone)
            }
        }),
{
    match (state, event) {
        (ZoneStateView::AwaitingZones, EventView::Zones(zones)) => {
            match (zone.spec.zone_ref, zone.spec.domain_name) {
                (None, DomainNameView::Full(fqdn)) => {
                    let i = nearest_parent(zones, fqdn)->0;
                    assert(nearest_at(zones, fqdn, i));
                },
                _ => {},
            }
        },
        (ZoneStateView::AwaitingChildren { entries }, EventView::Zones(children)) => {},
        _ => {},
    }
}

/// Every status that a pass writes on a zone begins with the zone's SOA
/// entry under the zone's own name, carries the hash of the zone's
/// description and of the entries that follow the SOA entry, and a serial
/// that is not below the one before and is above it exactly where the hash
/// has changed.
pub proof fn lemma_written_status_is_sound(
    zone: ZoneView,
    requeue_secs: u64,
    state: ZoneStateView,
    event: EventView,
    today: CalendarDate,
    k: int,
)
    requires
        0 <= k < zone_step(zone, requeue_secs, state, event, today).1.writes.len(),
        zone_step(zone, requeue_secs, state, event, today).1.writes[k] is Status,
    ensures
        ({
            let patch = zone_step(zone, requeue_secs, state, event, today).1.writes[k]->Status_0;
            let rest = patch.entries.subrange(1, patch.entries.len() as int);
            &&& patch.entries.len() >= 1
            &&& patch.entries[0].type_ == RecordTypeView::SOA
            &&& zone.status.fqdn == Some(patch.entries[0].fqdn)
            &&& patch.entries[0] == soa_entry(patch.fqdn, patch.serial, zone.spec)
            &&& patch.hash == zone_hash(zone.spec, rest)
            &&& patch.serial >= zone.last_serial()
            &&& (patch.serial == zone.last_serial() <==> zone.status.hash == Some(patch.hash))
            &&& !status_holds(zone, patch)
        }),
{
    let step = zone_step(zone, requeue_secs, state, event, today).1;
    match (state, event) {
        (ZoneStateView::AwaitingChildren { entries }, EventView::Zones(children)) => {
            lemma_soa_leads(zone, entries, today);
        },
        (
            ZoneStateView::AwaitingChildRecords { entries, children, at },
            EventView::Records(records),
        ) => {
            let gathered = entries + delegation_entries(
                zone.spec.ttl,
                children[at as int],
                records,
            );
            lemma_soa_leads(zone, gathered, today);
        },
        _ => {},
    }
}


/// A zone whose status was written is left alone: the next pass that
/// gathers the same entries for the same description writes nothing, on
/// whatever day.
pub proof fn lemma_written_status_is_kept(
    zone: ZoneView,
    requeue_secs: u64,
    entries: Seq<ZoneEntryView>,
    today: CalendarDate,
    later: CalendarDate,
)
    requires
        materialized(zone, entries, today) is Some,
    ensures
        zone_finished(
            zone.with_status(materialized(zone, entries, today)->0),
            requeue_secs,
            entries,
            later,
        ) == zone_done(requeue_secs),
{
    lemma_materialize_stable(zone, entries, today, later);
}

} // verus!
