//! What Records and Zones share when they are placed under a parent zone:
//! the idempotent writes of the parent-zone label and of the fully qualified
//! name, and the choice of the nearest enclosing zone.

use vstd::prelude::*;
use crate::domain::{is_subdomain, lemma_subdomain_is_longer, FullyQualifiedDomainName};
use crate::effect::Effect;
use crate::resource::{Zone, ZoneRef, ZoneRefView, ZoneView};
use crate::text::same_text;

verus! {

/// What has to be done to the parent-zone label of a resource.
#[derive(Debug, PartialEq, Eq)]
pub enum LabelPatch {
    /// The label is as desired already; nothing is written.
    Keep,
    /// The label is taken off.
    Remove,
    /// The label is set to this value.
    Write(String),
}

/// Mathematical value of a [`LabelPatch`].
pub enum LabelPatchView {
    Keep,
    Remove,
    Write(Seq<char>),
}

impl View for LabelPatch {
    type V = LabelPatchView;

    open spec fn view(&self) -> LabelPatchView {
        match self {
            LabelPatch::Keep => LabelPatchView::Keep,
            LabelPatch::Remove => LabelPatchView::Remove,
            LabelPatch::Write(label) => LabelPatchView::Write(label@),
        }
    }
}

impl LabelPatchView {
    /// The label after the patch, where `current` was the label before it.
    pub open spec fn apply(self, current: Option<Seq<char>>) -> Option<Seq<char>> {
        match self {
            LabelPatchView::Keep => current,
            LabelPatchView::Remove => None,
            LabelPatchView::Write(label) => Some(label),
        }
    }

    /// Whether the patch writes anything.
    pub open spec fn effect(self) -> Effect {
        match self {
            LabelPatchView::Keep => Effect::Unchanged,
            _ => Effect::Changed,
        }
    }
}

impl LabelPatch {
    /// Whether the patch writes anything.
    pub fn effect(&self) -> (r: Effect)
        ensures
            r == self@.effect(),
    {
        match self {
            LabelPatch::Keep => Effect::Unchanged,
            _ => Effect::Changed,
        }
    }
}

/// The patch that brings the parent-zone label from `current` to what names
/// `parent`: nothing where the label is absent and no parent is wanted, or
/// where it names the wanted parent already; a removal where no parent is
/// wanted; else the parent's label.
pub open spec fn parent_patch(current: Option<Seq<char>>, parent: Option<ZoneRefView>) -> LabelPatchView {
    match parent {
        None => if current is None {
            LabelPatchView::Keep
        } else {
            LabelPatchView::Remove
        },
        Some(desired) => if current == Some(desired.label()) {
            LabelPatchView::Keep
        } else {
            LabelPatchView::Write(desired.label())
        },
    }
}

/// Decides how to make the parent-zone label of a resource name `parent`;
/// with no `parent` the label is to be absent. Nothing is written where the
/// label is as wanted already.
pub fn set_parent(current: &Option<String>, parent: Option<&ZoneRef>) -> (r: LabelPatch)
    ensures
        r@ == parent_patch(current.deep_view(), parent.deep_view()),
{
    match parent {
        None => match current {
            None => LabelPatch::Keep,
            Some(_) => LabelPatch::Remove,
        },
        Some(desired) => {
            let label = desired.as_label();
            match current {
                Some(current) => {
                    if same_text(current.as_str(), label.as_str()) {
                        LabelPatch::Keep
                    } else {
                        LabelPatch::Write(label)
                    }
                },
                None => LabelPatch::Write(label),
            }
        },
    }
}

/// Writing the label a second time changes nothing: once the patch that
/// `set_parent` decided on is applied, `set_parent` decides to keep the label.
pub proof fn lemma_set_parent_idempotent(current: Option<Seq<char>>, parent: Option<ZoneRefView>)
    ensures
        parent_patch(parent_patch(current, parent).apply(current), parent) == LabelPatchView::Keep,
        parent_patch(current, parent).apply(current) == match parent {
            Some(desired) => Some(desired.label()),
            None => None,
        },
{
}

/// What has to be done to the fully qualified name in a resource's status.
#[derive(Debug, PartialEq, Eq)]
pub enum FqdnPatch {
    /// The status holds the name already; nothing is written.
    Keep,
    /// The name is written into the status.
    Write(FullyQualifiedDomainName),
}

/// Mathematical value of an [`FqdnPatch`].
pub enum FqdnPatchView {
    Keep,
    Write(Seq<Seq<char>>),
}

impl View for FqdnPatch {
    type V = FqdnPatchView;

    open spec fn view(&self) -> FqdnPatchView {
        match self {
            FqdnPatch::Keep => FqdnPatchView::Keep,
            FqdnPatch::Write(fqdn) => FqdnPatchView::Write(fqdn@),
        }
    }
}

impl FqdnPatchView {
    /// The name in the status after the patch, where `current` was there
    /// before it.
    pub open spec fn apply(self, current: Option<Seq<Seq<char>>>) -> Option<Seq<Seq<char>>> {
        match self {
            FqdnPatchView::Keep => current,
            FqdnPatchView::Write(fqdn) => Some(fqdn),
        }
    }

    /// Whether the patch writes anything.
    pub open spec fn effect(self) -> Effect {
        match self {
            FqdnPatchView::Keep => Effect::Unchanged,
            FqdnPatchView::Write(_) => Effect::Changed,
        }
    }
}

impl FqdnPatch {
    /// Whether the patch writes anything.
    pub fn effect(&self) -> (r: Effect)
        ensures
            r == self@.effect(),
    {
        match self {
            FqdnPatch::Keep => Effect::Unchanged,
            FqdnPatch::Write(_) => Effect::Changed,
        }
    }
}

/// The patch that makes the status hold `fqdn`: nothing where it holds it
/// already, else the name.
pub open spec fn fqdn_patch(current: Option<Seq<Seq<char>>>, fqdn: Seq<Seq<char>>) -> FqdnPatchView {
    if current == Some(fqdn) {
        FqdnPatchView::Keep
    } else {
        FqdnPatchView::Write(fqdn)
    }
}

/// Decides how to make the status of a resource hold the fully qualified
/// name `fqdn`. Nothing is written where it holds it already.
pub fn set_fqdn(current: &Option<FullyQualifiedDomainName>, fqdn: &FullyQualifiedDomainName) -> (r:
    FqdnPatch)
    ensures
        r@ == fqdn_patch(current.deep_view(), fqdn@),
{
    match current {
        Some(current) => {
            if current.same(fqdn) {
                FqdnPatch::Keep
            } else {
                FqdnPatch::Write(fqdn.clone())
            }
        },
        None => FqdnPatch::Write(fqdn.clone()),
    }
}

/// Writing the name a second time changes nothing: once the patch that
/// `set_fqdn` decided on is applied, `set_fqdn` decides to keep the status.
pub proof fn lemma_set_fqdn_idempotent(current: Option<Seq<Seq<char>>>, fqdn: Seq<Seq<char>>)
    ensures
        fqdn_patch(fqdn_patch(current, fqdn).apply(current), fqdn) == FqdnPatchView::Keep,
        fqdn_patch(current, fqdn).apply(current) == Some(fqdn),
{
}

/// Whether `zone` can be a parent of the name `fqdn`: the zone's fully
/// qualified name is known and `fqdn` lies strictly below it.
pub open spec fn encloses(zone: ZoneView, fqdn: Seq<Seq<char>>) -> bool {
    zone.status.fqdn is Some && is_subdomain(fqdn, zone.status.fqdn->0)
}

/// Whether the zone at index `i` is the nearest zone that encloses `fqdn`:
/// it encloses it, no enclosing zone has a longer name, and none that
/// follows it in the list has a name as long.
pub open spec fn nearest_at(zones: Seq<ZoneView>, fqdn: Seq<Seq<char>>, i: int) -> bool {
    &&& 0 <= i < zones.len()
    &&& encloses(zones[i], fqdn)
    &&& forall|j: int|
        0 <= j < zones.len() && encloses(#[trigger] zones[j], fqdn) ==> zones[j].status.fqdn->0.len()
            <= zones[i].status.fqdn->0.len()
    &&& forall|j: int|
        i < j < zones.len() && encloses(#[trigger] zones[j], fqdn) ==> zones[j].status.fqdn->0.len()
            < zones[i].status.fqdn->0.len()
}

/// The index of the nearest zone that encloses `fqdn`, if any zone does.
pub open spec fn nearest_parent(zones: Seq<ZoneView>, fqdn: Seq<Seq<char>>) -> Option<int> {
    if exists|i: int| nearest_at(zones, fqdn, i) {
        Some(choose|i: int| nearest_at(zones, fqdn, i))
    } else {
        None
    }
}

/// At most one index is that of the nearest enclosing zone.
pub proof fn lemma_nearest_unique(zones: Seq<ZoneView>, fqdn: Seq<Seq<char>>, a: int, b: int)
    requires
        nearest_at(zones, fqdn, a),
        nearest_at(zones, fqdn, b),
    ensures
        a == b,
{
}

/// Longest-suffix rule: where two zones both enclose a name and one of them
/// lies below the other, the nearest enclosing zone is not the upper one.
pub proof fn lemma_nearest_is_not_the_upper(
    zones: Seq<ZoneView>,
    fqdn: Seq<Seq<char>>,
    lower: int,
    upper: int,
)
    requires
        0 <= lower < zones.len(),
        0 <= upper < zones.len(),
        encloses(zones[lower], fqdn),
        encloses(zones[upper], fqdn),
        is_subdomain(zones[lower].status.fqdn->0, zones[upper].status.fqdn->0),
    ensures
        nearest_parent(zones, fqdn) != Some(upper),
        !nearest_at(zones, fqdn, upper),
{
    lemma_subdomain_is_longer(zones[lower].status.fqdn->0, zones[upper].status.fqdn->0);
}

/// Picks the nearest zone that encloses `fqdn`: among the zones whose fully
/// qualified name is known and lies strictly above `fqdn`, the one with the
/// most labels, and of several such the last in the list.
pub fn longest_parent(zones: &Vec<Zone>, fqdn: &FullyQualifiedDomainName) -> (r: Option<usize>)
    ensures
        match r {
            Some(i) => nearest_at(zones.deep_view(), fqdn@, i as int),
            None => forall|j: int|
                0 <= j < zones.len() ==> !encloses(#[trigger] zones.deep_view()[j], fqdn@),
        },
        r.is_some() ==> nearest_parent(zones.deep_view(), fqdn@) == Some(r.unwrap() as int),
        r.is_none() ==> nearest_parent(zones.deep_view(), fqdn@).is_none(),
{
    let ghost all = zones.deep_view();
    let mut best: Option<usize> = None;
    let mut best_len: usize = 0;
    let mut i: usize = 0;
    while i < zones.len()
        invariant
            i <= zones.len(),
            all == zones.deep_view(),
            match best {
                Some(b) => {
                    &&& b < i
                    &&& encloses(all[b as int], fqdn@)
                    &&& best_len == all[b as int].status.fqdn->0.len()
                    &&& forall|j: int|
                        0 <= j < i && encloses(#[trigger] all[j], fqdn@)
                            ==> all[j].status.fqdn->0.len() <= best_len
                    &&& forall|j: int|
                        b < j < i && encloses(#[trigger] all[j], fqdn@)
                            ==> all[j].status.fqdn->0.len() < best_len
                },
                None => forall|j: int| 0 <= j < i ==> !encloses(#[trigger] all[j], fqdn@),
            },
        decreases zones.len() - i,
    {
        assert(all[i as int] == zones[i as int]@);
        match &zones[i].status.fqdn {
            Some(zone_fqdn) => {
                if fqdn.is_subdomain_of(zone_fqdn) {
                    let n = zone_fqdn.label_count();
                    if best.is_none() || n >= best_len {
                        best = Some(i);
                        best_len = n;
                    }
                }
            },
            None => {},
        }
        i += 1;
    }
    proof {
        match best {
            Some(b) => {
                assert(nearest_at(all, fqdn@, b as int));
                let c = choose|c: int| nearest_at(all, fqdn@, c);
                lemma_nearest_unique(all, fqdn@, c, b as int);
            },
            None => {
                assert forall|c: int| !nearest_at(all, fqdn@, c) by {
                    if 0 <= c < all.len() {
                        assert(!encloses(all[c], fqdn@));
                    }
                }
            },
        }
    }
    best
}

} // verus!
