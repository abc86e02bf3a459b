//! The Record resolver: finds a record's fully qualified name and the zone
//! that adopts it.
//!
//! A record either gives a partial name and names its zone, or gives a fully
//! qualified name and is placed under the nearest zone that encloses it. In
//! both cases the zone's delegations have the last word.

use vstd::prelude::*;
use crate::action::{
    fqdn_writes, label_writes, proceed, proceed_step, push_fqdn_write, push_label_write, requeue,
    requeue_step, Event, EventView, Next, NextView, Step, StepView, Write, WriteView,
    ERROR_REQUEUE_SECS, FQDN_CHANGED_SECS, PARENT_NOT_READY_SECS,
};
use crate::delegation::{authorizes_record, delegations_allow_record};
use crate::domain::{is_suffix, DomainName, DomainNameView};
use crate::placement::{
    fqdn_patch, longest_parent, nearest_at, nearest_parent, parent_patch, set_fqdn, set_parent,
    FqdnPatch, FqdnPatchView,
};
use crate::resource::{Record, RecordView, Zone, ZoneRefView, ZoneView};

verus! {

/// How far a pass over a record has come.
#[derive(Debug, Clone, Copy, PartialEq, Eq, Structural)]
pub enum RecordState {
    /// The pass has not begun.
    Start,
    /// The zone that the record names was asked for.
    AwaitingParent,
    /// The zones of the cluster were asked for.
    AwaitingZones,
    /// The pass is over.
    Done,
}

/// The beginning of a pass.
///
/// A record with a zone reference and a partial name asks for the zone, in
/// the namespace of the reference or else in its own. A record with a fully
/// qualified name and no reference has that name written into its status
/// and comes back soon, or, where the status holds the name already, asks
/// for the zones of the cluster. A record with both or with neither comes
/// back after the default delay with nothing written.
pub open spec fn record_start(record: RecordView, requeue_secs: u64) -> (RecordState, StepView) {
    match (record.spec.zone_ref, record.spec.domain_name) {
        (Some(zone_ref), DomainNameView::Partial(_)) => (
            RecordState::AwaitingParent,
            proceed(
                NextView::GetZone {
                    namespace: match zone_ref.namespace {
                        Some(namespace) => namespace,
                        None => record.namespace,
                    },
                    name: zone_ref.name,
                },
            ),
        ),
        (None, DomainNameView::Full(fqdn)) => match fqdn_patch(record.status.fqdn, fqdn) {
            FqdnPatchView::Keep => (RecordState::AwaitingZones, proceed(NextView::ListZones)),
            FqdnPatchView::Write(name) => (
                RecordState::Done,
                StepView {
                    writes: seq![WriteView::Fqdn(name)],
                    next: NextView::Requeue { after_secs: FQDN_CHANGED_SECS },
                },
            ),
        },
        _ => (RecordState::Done, requeue(requeue_secs)),
    }
}

/// Whether the zone `parent` lets in `record` under the name `alleged`.
pub open spec fn parent_admits(parent: ZoneView, record: RecordView, alleged: Seq<Seq<char>>) -> bool {
    &&& parent.status.fqdn is Some
    &&& authorizes_record(
        parent.spec.delegations,
        parent.namespace,
        parent.status.fqdn->0,
        record.spec.type_,
        alleged,
        record.namespace,
    )
}

/// What is done once the zone that the record names was looked for.
///
/// Without the zone the record comes back after the default delay; with a
/// zone whose fully qualified name is not known yet it comes back soon. Else
/// the record's name is anchored at the zone's. Where the zone's delegations
/// let the record in under that name, the name is written into the status
/// and the zone into the parent-zone label, each only if it is not there
/// already. Where they do not, nothing is written.
pub open spec fn record_with_parent(record: RecordView, requeue_secs: u64, parent: Option<ZoneView>) -> StepView {
    match (record.spec.zone_ref, record.spec.domain_name, parent) {
        (Some(_), DomainNameView::Partial(partial), Some(zone)) => match zone.status.fqdn {
            None => requeue(PARENT_NOT_READY_SECS),
            Some(parent_fqdn) => if parent_admits(zone, record, partial + parent_fqdn) {
                StepView {
                    writes: fqdn_writes(fqdn_patch(record.status.fqdn, partial + parent_fqdn))
                        + label_writes(parent_patch(record.parent_zone, Some(zone.zone_ref()))),
                    next: NextView::Requeue { after_secs: requeue_secs },
                }
            } else {
                requeue(requeue_secs)
            },
        },
        _ => requeue(requeue_secs),
    }
}

/// The zone that adopts a record with a fully qualified name: the nearest
/// zone that encloses the name, if it lets the record in.
pub open spec fn adopting_zone(record: RecordView, fqdn: Seq<Seq<char>>, zones: Seq<ZoneView>) -> Option<
    ZoneRefView,
> {
    match nearest_parent(zones, fqdn) {
        Some(i) => if zones[i].validate_record(record) {
            Some(zones[i].zone_ref())
        } else {
            None
        },
        None => None,
    }
}

/// What is done once the zones of the cluster are known.
///
/// The parent-zone label is made to name the nearest zone that encloses the
/// record's name, if that zone lets the record in; else the label is taken
/// off. Nothing is written where the label is as wanted already.
pub open spec fn record_among_zones(record: RecordView, requeue_secs: u64, zones: Seq<ZoneView>) -> StepView {
    match (record.spec.zone_ref, record.spec.domain_name) {
        (None, DomainNameView::Full(fqdn)) => StepView {
            writes: label_writes(
                parent_patch(record.parent_zone, adopting_zone(record, fqdn, zones)),
            ),
            next: NextView::Requeue { after_secs: requeue_secs },
        },
        _ => requeue(requeue_secs),
    }
}

/// One turn of a pass over a record: from how far the pass has come and what
/// it is told, to how far it has come then and what is to be done. An event
/// that the pass does not wait for ends it with nothing written.
pub open spec fn record_step(
    record: RecordView,
    requeue_secs: u64,
    state: RecordState,
    event: EventView,
) -> (RecordState, StepView) {
    match (state, event) {
        (RecordState::Start, EventView::Start) => record_start(record, requeue_secs),
        (RecordState::AwaitingParent, EventView::Zone(parent)) => (
            RecordState::Done,
            record_with_parent(record, requeue_secs, parent),
        ),
        (RecordState::AwaitingZones, EventView::Zones(zones)) => (
            RecordState::Done,
            record_among_zones(record, requeue_secs, zones),
        ),
        _ => (RecordState::Done, requeue(requeue_secs)),
    }
}

fn start(record: &Record, requeue_secs: u64) -> (r: (RecordState, Step))
    ensures
        (r.0, r.1@) == record_start(record@, requeue_secs),
{
    match (&record.spec.zone_ref, &record.spec.domain_name) {
        (Some(zone_ref), DomainName::Partial(_)) => {
            let namespace = match &zone_ref.namespace {
                Some(namespace) => namespace.clone(),
                None => record.namespace.clone(),
            };
            (
                RecordState::AwaitingParent,
                proceed_step(Next::GetZone { namespace, name: zone_ref.name.clone() }),
            )
        },
        (None, DomainName::Full(fqdn)) => {
            match set_fqdn(&record.status.fqdn, fqdn) {
                FqdnPatch::Keep => (RecordState::AwaitingZones, proceed_step(Next::ListZones)),
                FqdnPatch::Write(name) => {
                    let ghost labels = name@;
                    let mut writes: Vec<Write> = Vec::new();
                    writes.push(Write::Fqdn(name));
                    assert(writes.deep_view() =~= seq![WriteView::Fqdn(labels)]);
                    (
                        RecordState::Done,
                        Step { writes, next: Next::Requeue { after_secs: FQDN_CHANGED_SECS } },
                    )
                },
            }
        },
        _ => (RecordState::Done, requeue_step(requeue_secs)),
    }
}

fn with_parent(record: &Record, requeue_secs: u64, parent: &Option<Zone>) -> (step: Step)
    ensures
        step@ == record_with_parent(record@, requeue_secs, parent.deep_view()),
{
    match (&record.spec.zone_ref, &record.spec.domain_name, parent) {
        (Some(_), DomainName::Partial(partial), Some(zone)) => {
            let parent_fqdn = match &zone.status.fqdn {
                Some(fqdn) => fqdn,
                None => {
                    return requeue_step(PARENT_NOT_READY_SECS);
                },
            };
            let alleged = partial.with_origin(parent_fqdn);
            if delegations_allow_record(
                &zone.spec.delegations,
                zone.namespace.as_str(),
                parent_fqdn,
                &record.spec.type_,
                &alleged,
                record.namespace.as_str(),
            ) {
                let mut writes: Vec<Write> = Vec::new();
                assert(writes.deep_view() =~= Seq::<WriteView>::empty());
                push_fqdn_write(&mut writes, set_fqdn(&record.status.fqdn, &alleged));
                let zone_ref = zone.zone_ref();
                push_label_write(&mut writes, set_parent(&record.parent_zone, Some(&zone_ref)));
                assert(writes.deep_view() =~= fqdn_writes(
                    fqdn_patch(record@.status.fqdn, alleged@),
                ) + label_writes(parent_patch(record@.parent_zone, Some(zone@.zone_ref()))));
                Step { writes, next: Next::Requeue { after_secs: requeue_secs } }
            } else {
                requeue_step(requeue_secs)
            }
        },
        _ => requeue_step(requeue_secs),
    }
}

fn among_zones(record: &Record, requeue_secs: u64, zones: &Vec<Zone>) -> (step: Step)
    ensures
        step@ == record_among_zones(record@, requeue_secs, zones.deep_view()),
{
    match (&record.spec.zone_ref, &record.spec.domain_name) {
        (None, DomainName::Full(fqdn)) => {
            let mut writes: Vec<Write> = Vec::new();
            assert(writes.deep_view() =~= Seq::<WriteView>::empty());
            let patch = match longest_parent(zones, fqdn) {
                Some(i) => {
                    assert(zones.deep_view()[i as int] == zones[i as int]@);
                    if zones[i].validate_record(record) {
                        let zone_ref = zones[i].zone_ref();
                        set_parent(&record.parent_zone, Some(&zone_ref))
                    } else {
                        set_parent(&record.parent_zone, None)
                    }
                },
                None => set_parent(&record.parent_zone, None),
            };
            push_label_write(&mut writes, patch);
            assert(writes.deep_view() =~= label_writes(
                parent_patch(
                    record@.parent_zone,
                    adopting_zone(record@, fqdn@, zones.deep_view()),
                ),
            ));
            Step { writes, next: Next::Requeue { after_secs: requeue_secs } }
        },
        _ => requeue_step(requeue_secs),
    }
}

/// Takes one turn of a pass over `record`.
///
/// The pass begins in [`RecordState::Start`] with [`Event::Start`]. The
/// caller performs the writes of the step that comes back, in their order,
/// then the read that the step names, and hands in what the read found
/// together with the state that came back; the pass is over when the step
/// names a delay. `requeue_secs` is the default delay between passes.
pub fn reconcile_records(record: &Record, requeue_secs: u64, state: RecordState, event: Event) -> (r: (
    RecordState,
    Step,
))
    ensures
        (r.0, r.1@) == record_step(record@, requeue_secs, state, event@),
{
    match (state, event) {
        (RecordState::Start, Event::Start) => start(record, requeue_secs),
        (RecordState::AwaitingParent, Event::Zone(parent)) => (
            RecordState::Done,
            with_parent(record, requeue_secs, &parent),
        ),
        (RecordState::AwaitingZones, Event::Zones(zones)) => (
            RecordState::Done,
            among_zones(record, requeue_secs, &zones),
        ),
        _ => (RecordState::Done, requeue_step(requeue_secs)),
    }
}

/// The delay after a pass over a record failed on the way to the cluster or
/// back.
pub fn record_error_policy() -> (after_secs: u64)
    ensures
        after_secs == ERROR_REQUEUE_SECS,
{
    ERROR_REQUEUE_SECS
}

/// Every name that a pass writes into a record's status is the record's own
/// fully qualified name, or its partial name anchored at the name of the
/// zone that it names, which then is a suffix of what is written.
pub proof fn lemma_written_fqdn_is_sound(
    record: RecordView,
    requeue_secs: u64,
    state: RecordState,
    event: EventView,
    k: int,
)
    requires
        0 <= k < record_step(record, requeue_secs, state, event).1.writes.len(),
        record_step(record, requeue_secs, state, event).1.writes[k] is Fqdn,
    ensures
        ({
            let written = record_step(record, requeue_secs, state, event).1.writes[k]->Fqdn_0;
            ||| record.spec.domain_name == DomainNameView::Full(written)
            ||| {
                &&& event matches EventView::Zone(Some(parent))
                &&& parent.status.fqdn matches Some(origin)
                &&& record.spec.domain_name matches DomainNameView::Partial(partial)
                &&& written == partial + origin
                &&& is_suffix(written, origin)
            }
        }),
{
    match (state, event) {
        (RecordState::AwaitingParent, EventView::Zone(Some(parent))) => {
            match (record.spec.zone_ref, record.spec.domain_name, parent.status.fqdn) {
                (Some(_), DomainNameView::Partial(partial), Some(origin)) => {
                    let written = partial + origin;
                    assert(written.subrange(written.len() - origin.len(), written.len() as int)
                        =~= origin);
                },
                _ => {},
            }
        },
        _ => {},
    }
}

/// Every parent-zone label that a pass writes names a zone that the pass
/// has seen and whose delegations, as they were then, let the record in:
/// the zone that the record names, under the anchored name; or the nearest
/// enclosing zone, under the record's own name.
pub proof fn lemma_written_label_is_authorized(
    record: RecordView,
    requeue_secs: u64,
    state: RecordState,
    event: EventView,
    k: int,
)
    requires
        0 <= k < record_step(record, requeue_secs, state, event).1.writes.len(),
        record_step(record, requeue_secs, state, event).1.writes[k] is ParentLabel,
    ensures
        ({
            let label = record_step(record, requeue_secs, state, event).1.writes[k]->ParentLabel_0;
            ||| {
                &&& event matches EventView::Zone(Some(parent))
                &&& record.spec.domain_name matches DomainNameView::Partial(partial)
                &&& parent.status.fqdn matches Some(origin)
                &&& label == parent.label()
                &&& parent_admits(parent, record, partial + origin)
            }
            ||| {
                &&& event matches EventView::Zones(zones)
                &&& record.spec.domain_name matches DomainNameView::Full(fqdn)
                &&& exists|i: int|
                    nearest_at(zones, fqdn, i) && label == zones[i].label()
                        && zones[i].validate_record(record)
            }
        }),
{
    match (state, event) {
        (RecordState::AwaitingZones, EventView::Zones(zones)) => {
            match (record.spec.zone_ref, record.spec.domain_name) {
                (None, DomainNameView::Full(fqdn)) => {
                    let i = nearest_parent(zones, fqdn)->0;
                    assert(nearest_at(zones, fqdn, i));
                },
                _ => {},
            }
        },
        _ => {},
    }
}

} // verus!
