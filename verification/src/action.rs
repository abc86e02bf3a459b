//! What a reconciler asks of whoever talks to the cluster, and what it is
//! told in return.
//!
//! A reconcile pass is a short dialogue. The reconciler hands out a step: the
//! writes to perform on the resource, in their order, and what to do after
//! them, which is either a read, whose result comes back as the next event,
//! or the end of the pass with the delay until the next one.

use vstd::prelude::*;
use crate::domain::FullyQualifiedDomainName;
use crate::placement::{FqdnPatch, FqdnPatchView, LabelPatch, LabelPatchView};
use crate::resource::{Record, RecordView, Zone, ZoneView};
use crate::zone::{ZoneStatusPatch, ZoneStatusPatchView};

verus! {

/// Seconds until the next pass when the zone that a resource names has no
/// fully qualified name yet.
pub const PARENT_NOT_READY_SECS: u64 = 5;

/// Seconds until the next pass after the fully qualified name of a resource
/// was written.
pub const FQDN_CHANGED_SECS: u64 = 1;

/// Seconds until the next pass when the zone that a zone names is not there.
pub const MISSING_PARENT_SECS: u64 = 30;

/// Seconds until the next pass after a pass failed on the way to the
/// cluster or back.
pub const ERROR_REQUEUE_SECS: u64 = 60;

/// One write to the resource that is being reconciled. Every write merges
/// into what is there and leaves the other fields alone.
#[derive(Debug, PartialEq, Eq)]
pub enum Write {
    /// Sets the fully qualified name in the status.
    Fqdn(FullyQualifiedDomainName),
    /// Sets the parent-zone label to this value.
    ParentLabel(String),
    /// Takes the parent-zone label off.
    NoParentLabel,
    /// Sets hash, serial and entries in the status of a zone.
    Status(ZoneStatusPatch),
}

/// Mathematical value of a [`Write`].
pub enum WriteView {
    Fqdn(Seq<Seq<char>>),
    ParentLabel(Seq<char>),
    NoParentLabel,
    Status(ZoneStatusPatchView),
}

impl View for Write {
    type V = WriteView;

    open spec fn view(&self) -> WriteView {
        match self {
            Write::Fqdn(fqdn) => WriteView::Fqdn(fqdn@),
            Write::ParentLabel(label) => WriteView::ParentLabel(label@),
            Write::NoParentLabel => WriteView::NoParentLabel,
            Write::Status(patch) => WriteView::Status(patch@),
        }
    }
}

impl DeepView for Write {
    type V = WriteView;

    open spec fn deep_view(&self) -> WriteView {
        self@
    }
}

/// What is to be done once the writes of a step are through.
#[derive(Debug, PartialEq, Eq)]
pub enum Next {
    /// Read the zone of this name; it comes back as [`Event::Zone`].
    GetZone { namespace: String, name: String },
    /// Read all zones of the cluster; they come back as [`Event::Zones`].
    ListZones,
    /// Read the records whose parent-zone label has this value; they come
    /// back as [`Event::Records`].
    ListRecords { parent_zone: String },
    /// Read the zones whose parent-zone label has this value; they come back
    /// as [`Event::Zones`].
    ListChildZones { parent_zone: String },
    /// The pass is over; the next one is due after this many seconds.
    Requeue { after_secs: u64 },
}

/// Mathematical value of a [`Next`].
pub enum NextView {
    GetZone { namespace: Seq<char>, name: Seq<char> },
    ListZones,
    ListRecords { parent_zone: Seq<char> },
    ListChildZones { parent_zone: Seq<char> },
    Requeue { after_secs: u64 },
}

impl View for Next {
    type V = NextView;

    open spec fn view(&self) -> NextView {
        match self {
            Next::GetZone { namespace, name } => NextView::GetZone {
                namespace: namespace@,
                name: name@,
            },
            Next::ListZones => NextView::ListZones,
            Next::ListRecords { parent_zone } => NextView::ListRecords { parent_zone: parent_zone@ },
            Next::ListChildZones { parent_zone } => NextView::ListChildZones {
                parent_zone: parent_zone@,
            },
            Next::Requeue { after_secs } => NextView::Requeue { after_secs: *after_secs },
        }
    }
}

/// The writes to perform, in their order, and what to do after them.
#[derive(Debug, PartialEq, Eq)]
pub struct Step {
    pub writes: Vec<Write>,
    pub next: Next,
}

/// Mathematical value of a [`Step`].
pub struct StepView {
    pub writes: Seq<WriteView>,
    pub next: NextView,
}

impl View for Step {
    type V = StepView;

    open spec fn view(&self) -> StepView {
        StepView { writes: self.writes.deep_view(), next: self.next@ }
    }
}

/// What the reconciler is told: that a pass begins, or what a read found.
#[derive(Debug, PartialEq, Eq)]
pub enum Event {
    /// A pass begins.
    Start,
    /// The zone that was asked for, if there is one.
    Zone(Option<Zone>),
    /// The zones that were asked for.
    Zones(Vec<Zone>),
    /// The records that were asked for.
    Records(Vec<Record>),
}

/// Mathematical value of an [`Event`].
pub enum EventView {
    Start,
    Zone(Option<ZoneView>),
    Zones(Seq<ZoneView>),
    Records(Seq<RecordView>),
}

impl View for Event {
    type V = EventView;

    open spec fn view(&self) -> EventView {
        match self {
            Event::Start => EventView::Start,
            Event::Zone(zone) => EventView::Zone(zone.deep_view()),
            Event::Zones(zones) => EventView::Zones(zones.deep_view()),
            Event::Records(records) => EventView::Records(records.deep_view()),
        }
    }
}

/// The step that ends the pass without a write.
pub open spec fn requeue(after_secs: u64) -> StepView {
    StepView { writes: Seq::empty(), next: NextView::Requeue { after_secs } }
}

/// The step that writes nothing and goes on to `next`.
pub open spec fn proceed(next: NextView) -> StepView {
    StepView { writes: Seq::empty(), next }
}

/// The writes that carry out a label patch: none where the label is kept.
pub open spec fn label_writes(patch: LabelPatchView) -> Seq<WriteView> {
    match patch {
        LabelPatchView::Keep => Seq::empty(),
        LabelPatchView::Remove => seq![WriteView::NoParentLabel],
        LabelPatchView::Write(label) => seq![WriteView::ParentLabel(label)],
    }
}

/// The writes that carry out a patch of the name: none where it is kept.
pub open spec fn fqdn_writes(patch: FqdnPatchView) -> Seq<WriteView> {
    match patch {
        FqdnPatchView::Keep => Seq::empty(),
        FqdnPatchView::Write(fqdn) => seq![WriteView::Fqdn(fqdn)],
    }
}

/// Ends the pass without a write.
pub fn requeue_step(after_secs: u64) -> (step: Step)
    ensures
        step@ == requeue(after_secs),
{
    let step = Step { writes: Vec::new(), next: Next::Requeue { after_secs } };
    assert(step@.writes =~= Seq::<WriteView>::empty());
    step
}

/// Goes on to `next` without a write.
pub fn proceed_step(next: Next) -> (step: Step)
    ensures
        step@ == proceed(next@),
{
    let step = Step { writes: Vec::new(), next };
    assert(step@.writes =~= Seq::<WriteView>::empty());
    step
}

/// Adds the write that carries out a label patch, if it asks for one.
pub fn push_label_write(writes: &mut Vec<Write>, patch: LabelPatch)
    ensures
        final(writes).deep_view() == old(writes).deep_view() + label_writes(patch@),
{
    let ghost before = writes.deep_view();
    match patch {
        LabelPatch::Keep => {
            assert(writes.deep_view() =~= before + label_writes(patch@));
        },
        LabelPatch::Remove => {
            writes.push(Write::NoParentLabel);
            assert(writes.deep_view() =~= before + label_writes(patch@));
        },
        LabelPatch::Write(label) => {
            let ghost text = label@;
            writes.push(Write::ParentLabel(label));
            assert(writes.deep_view() =~= before + seq![WriteView::ParentLabel(text)]);
        },
    }
}

/// Adds the write that carries out a patch of the name, if it asks for one.
pub fn push_fqdn_write(writes: &mut Vec<Write>, patch: FqdnPatch)
    ensures
        final(writes).deep_view() == old(writes).deep_view() + fqdn_writes(patch@),
{
    let ghost before = writes.deep_view();
    match patch {
        FqdnPatch::Keep => {
            assert(writes.deep_view() =~= before + fqdn_writes(patch@));
        },
        FqdnPatch::Write(fqdn) => {
            let ghost labels = fqdn@;
            writes.push(Write::Fqdn(fqdn));
            assert(writes.deep_view() =~= before + seq![WriteView::Fqdn(labels)]);
        },
    }
}

} // verus!
