//! Sending a batch: which request goes out under which handle, and where
//! its outcome is kept from the moment it is known until it is reported.

use vstd::prelude::*;
use crate::header::Field;
use crate::report::{OutcomeView, RequestOutcome};
use crate::request::{
    build_outcome, build_request, builds_to, BuiltRequest, BuiltRequestView, ClientConfig,
    RequestSpec, RequestSpecView,
};

verus! {

/// Names one request of a batch by its place in the batch.
#[derive(Clone, Copy, Debug, PartialEq, Eq, Structural)]
pub struct Handle {
    /// The place of the request in the batch, counted from zero.
    pub index: usize,
}

/// One unit of work for the transport: a request, and the handle under
/// which its outcome is expected.
#[derive(Debug)]
pub struct Dispatch {
    pub handle: Handle,
    pub request: BuiltRequest,
}

impl View for Dispatch {
    type V = (int, BuiltRequestView);

    open spec fn view(&self) -> (int, BuiltRequestView) {
        (self.handle.index as int, self.request@)
    }
}

/// Hands out a batch for sending: one unit of work per request, in the
/// order of the batch, each under the handle of its place. Nothing waits
/// here; the units are independent of each other.
pub fn send_requests(requests: Vec<BuiltRequest>) -> (res: Vec<Dispatch>)
    ensures
        res.len() == requests.len(),
        forall|i: int|
            0 <= i < res.len() ==> (#[trigger] res[i]).handle.index == i && res[i].request
                == requests[i],
{
    let ghost all = requests@;
    let mut requests = requests;
    let mut reversed: Vec<BuiltRequest> = Vec::new();
    while requests.len() > 0
        invariant
            requests.len() + reversed.len() == all.len(),
            forall|i: int| 0 <= i < requests.len() ==> requests[i] == all[i],
            forall|i: int|
                0 <= i < reversed.len() ==> #[trigger] reversed[i] == all[all.len() - 1 - i],
        decreases requests.len(),
    {
        let request = requests.pop().unwrap();
        reversed.push(request);
    }
    let mut out: Vec<Dispatch> = Vec::new();
    while reversed.len() > 0
        invariant
            out.len() + reversed.len() == all.len(),
            forall|i: int|
                0 <= i < reversed.len() ==> #[trigger] reversed[i] == all[all.len() - 1 - i],
            forall|i: int|
                0 <= i < out.len() ==> (#[trigger] out[i]).handle.index == i && out[i].request
                    == all[i],
        decreases reversed.len(),
    {
        let request = reversed.pop().unwrap();
        let index = out.len();
        out.push(Dispatch { handle: Handle { index }, request });
    }
    out
}

/// One place of a batch.
#[derive(Debug)]
pub enum Slot {
    /// The outcome of the request is not known yet.
    Pending,
    /// The outcome is known and has not been reported.
    Ready(RequestOutcome),
    /// The outcome has been handed to the reporter.
    Reported,
}

/// One place of a batch as plain text and numbers.
pub enum SlotView {
    Pending,
    Ready(OutcomeView),
    Reported,
}

impl View for Slot {
    type V = SlotView;

    open spec fn view(&self) -> SlotView {
        match self {
            Slot::Pending => SlotView::Pending,
            Slot::Ready(outcome) => SlotView::Ready(outcome@),
            Slot::Reported => SlotView::Reported,
        }
    }
}

/// The outcomes of a batch, one place per request.
#[derive(Debug)]
pub struct Batch {
    slots: Vec<Slot>,
}

/// A batch after an outcome has been offered for a place: it is kept where
/// the place exists and is pending; else nothing changes.
pub open spec fn resolved(slots: Seq<SlotView>, index: int, outcome: OutcomeView) -> Seq<SlotView> {
    if 0 <= index < slots.len() && slots[index] is Pending {
        slots.update(index, SlotView::Ready(outcome))
    } else {
        slots
    }
}

/// A batch after the outcome of a place has been asked for: the place is
/// marked as reported where it held an outcome; else nothing changes.
pub open spec fn reported(slots: Seq<SlotView>, index: int) -> Seq<SlotView> {
    if 0 <= index < slots.len() && slots[index] is Ready {
        slots.update(index, SlotView::Reported)
    } else {
        slots
    }
}

/// The test "this place is still pending".
pub open spec fn is_open() -> spec_fn(SlotView) -> bool {
    |slot: SlotView| slot is Pending
}

/// Whether no place is pending any more.
pub open spec fn is_complete(slots: Seq<SlotView>) -> bool {
    forall|i: int| 0 <= i < slots.len() ==> !((#[trigger] slots[i]) is Pending)
}

impl View for Batch {
    type V = Seq<SlotView>;

    closed spec fn view(&self) -> Seq<SlotView> {
        Seq::new(self.slots@.len(), |i: int| self.slots@[i]@)
    }
}

impl Batch {
    /// The record of a batch of `size` requests that have just been sent.
    pub fn new(size: usize) -> (res: Batch)
        ensures
            res@.len() == size,
            forall|i: int| 0 <= i < size ==> (#[trigger] res@[i]) is Pending,
    {
        let mut slots: Vec<Slot> = Vec::new();
        while slots.len() < size
            invariant
                slots.len() <= size,
                forall|i: int| 0 <= i < slots.len() ==> (#[trigger] slots[i]) is Pending,
            decreases size - slots.len(),
        {
            slots.push(Slot::Pending);
        }
        Batch { slots }
    }

    /// The number of requests in the batch.
    pub fn len(&self) -> (res: usize)
        ensures
            res == self@.len(),
    {
        self.slots.len()
    }

    /// Records the outcome of one request. It is kept where the handle is of
    /// this batch and its place is pending; no other place changes either
    /// way.
    pub fn resolve(&mut self, handle: Handle, outcome: RequestOutcome) -> (res: bool)
        ensures
            final(self)@ == resolved(old(self)@, handle.index as int, outcome@),
            res == (handle.index < old(self)@.len() && old(self)@[handle.index as int] is Pending),
    {
        let ghost before = self@;
        if handle.index < self.slots.len() {
            let pending = match &self.slots[handle.index] {
                Slot::Pending => true,
                _ => false,
            };
            if pending {
                self.slots.set(handle.index, Slot::Ready(outcome));
                assert(self@ =~= before.update(handle.index as int, SlotView::Ready(outcome@)));
                return true;
            }
        }
        false
    }

    /// Hands out the outcome recorded under a handle, once: the place is
    /// marked as reported, and a second call for it gives nothing.
    pub fn take(&mut self, handle: Handle) -> (res: Option<RequestOutcome>)
        ensures
            final(self)@ == reported(old(self)@, handle.index as int),
            res is Some <==> handle.index < old(self)@.len() && old(self)@[handle.index as int]
                is Ready,
            res matches Some(outcome) ==> old(self)@[handle.index as int] == SlotView::Ready(
                outcome@,
            ),
    {
        let ghost before = self@;
        if handle.index < self.slots.len() {
            let ready = match &self.slots[handle.index] {
                Slot::Ready(_) => true,
                _ => false,
            };
            if ready {
                self.slots.push(Slot::Reported);
                let slot = self.slots.swap_remove(handle.index);
                assert(self@ =~= before.update(handle.index as int, SlotView::Reported));
                return match slot {
                    Slot::Ready(outcome) => Some(outcome),
                    _ => None,
                };
            }
        }
        None
    }

    /// The outcome that waits under a handle to be reported, if there is
    /// one.
    pub fn outcome(&self, handle: Handle) -> (res: Option<&RequestOutcome>)
        ensures
            res is Some <==> handle.index < self@.len() && self@[handle.index as int] is Ready,
            res matches Some(outcome) ==> self@[handle.index as int] == SlotView::Ready(outcome@),
    {
        if handle.index < self.slots.len() {
            match &self.slots[handle.index] {
                Slot::Ready(outcome) => Some(outcome),
                _ => None,
            }
        } else {
            None
        }
    }

    /// The number of requests whose outcome is not known yet.
    pub fn pending(&self) -> (res: usize)
        ensures
            res == self@.filter(is_open()).len(),
    {
        let mut count: usize = 0;
        let mut i: usize = 0;
        proof {
            reveal(Seq::filter);
            assert(self@.take(0).filter(is_open()) =~= Seq::<SlotView>::empty());
        }
        while i < self.slots.len()
            invariant
                i <= self.slots.len(),
                self.slots.len() == self@.len(),
                count <= i,
                count == self@.take(i as int).filter(is_open()).len(),
            decreases self.slots.len() - i,
        {
            proof {
                assert(self@.take(i + 1) =~= self@.take(i as int).push(self@[i as int]));
                self@.take(i as int).lemma_filter_push(self@[i as int], is_open());
                assert(self.slots@[i as int] is Pending <==> is_open()(self@[i as int]));
            }
            match &self.slots[i] {
                Slot::Pending => {
                    count += 1;
                },
                _ => {},
            }
            i += 1;
        }
        assert(self@.take(self.slots.len() as int) =~= self@);
        count
    }

    /// Whether the outcome of every request is known.
    pub fn is_complete(&self) -> (res: bool)
        ensures
            res == is_complete(self@),
    {
        let mut i: usize = 0;
        while i < self.slots.len()
            invariant
                i <= self.slots.len(),
                self.slots.len() == self@.len(),
                forall|j: int| 0 <= j < i ==> !((#[trigger] self@[j]) is Pending),
            decreases self.slots.len() - i,
        {
            match &self.slots[i] {
                Slot::Pending => {
                    assert(self@[i as int] is Pending);
                    return false;
                },
                _ => {},
            }
            i += 1;
        }
        true
    }
}

/// Where a request of a batch starts: pending where it can be built, and
/// failed at once, with the reason in words, where it cannot.
pub open spec fn initial_slot(defaults: Seq<Field>, spec: RequestSpecView) -> SlotView {
    match build_outcome(defaults, spec) {
        Ok(_) => SlotView::Pending,
        Err(e) => SlotView::Ready(OutcomeView::Failure(e.text())),
    }
}

/// The work that a batch of descriptions gives the transport: for each
/// description that can be built, in the order of the batch, its place and
/// its request.
pub open spec fn planned(defaults: Seq<Field>, specs: Seq<RequestSpecView>) -> Seq<
    (int, BuiltRequestView),
>
    decreases specs.len(),
{
    if specs.len() == 0 {
        Seq::<(int, BuiltRequestView)>::empty()
    } else {
        let before = planned(defaults, specs.drop_last());
        match build_outcome(defaults, specs.last()) {
            Ok(request) => before.push((specs.len() - 1, request)),
            Err(_) => before,
        }
    }
}

/// The units of work of a batch, each as its place and its request.
pub open spec fn units_view(work: Seq<Dispatch>) -> Seq<(int, BuiltRequestView)> {
    work.map_values(|unit: Dispatch| unit@)
}

/// The descriptions of a batch as plain text and bytes.
pub open spec fn specs_view(specs: Seq<RequestSpec>) -> Seq<RequestSpecView> {
    specs.map_values(|spec: RequestSpec| spec@)
}

/// A batch that has been set up: its record, and the work for the
/// transport.
#[derive(Debug)]
pub struct Dispatched {
    pub batch: Batch,
    pub work: Vec<Dispatch>,
}

/// Sets up a batch from descriptions. Every description gets the place, and
/// so the handle, of its position. A description that cannot be built fails
/// at once and alone: its place holds the failure, and the others are built
/// and handed out as if it were not there.
pub fn dispatch(config: &ClientConfig, specs: &Vec<RequestSpec>) -> (res: Dispatched)
    ensures
        res.batch@.len() == specs.len(),
        forall|i: int|
            0 <= i < specs.len() ==> #[trigger] res.batch@[i] == initial_slot(config@, specs[i]@),
        units_view(res.work@) == planned(config@, specs_view(specs@)),
{
    let ghost views = specs_view(specs@);
    let mut slots: Vec<Slot> = Vec::new();
    let mut work: Vec<Dispatch> = Vec::new();
    let mut i: usize = 0;
    assert(views.take(0) =~= Seq::<RequestSpecView>::empty());
    assert(units_view(work@) =~= planned(config@, views.take(0)));
    while i < specs.len()
        invariant
            i <= specs.len(),
            views == specs_view(specs@),
            slots.len() == i,
            forall|j: int|
                0 <= j < i ==> (#[trigger] slots[j])@ == initial_slot(config@, specs[j]@),
            units_view(work@) == planned(config@, views.take(i as int)),
        decreases specs.len() - i,
    {
        let ghost before = units_view(work@);
        proof {
            assert(views.take(i + 1).drop_last() =~= views.take(i as int));
            assert(views.take(i + 1).last() == specs[i as int]@);
        }
        match build_request(config, &specs[i]) {
            Ok(request) => {
                slots.push(Slot::Pending);
                work.push(Dispatch { handle: Handle { index: i }, request });
                assert(units_view(work@) =~= before.push((i as int, request@)));
            },
            Err(e) => {
                slots.push(Slot::Ready(RequestOutcome::Failure(String::from_str(e.message()))));
            },
        }
        i += 1;
    }
    assert(views.take(specs.len() as int) =~= views);
    let batch = Batch { slots };
    Dispatched { batch, work }
}

/// The work of a batch names each description that can be built once, in
/// the order of the batch, with the request that it builds to, and names no
/// other.
pub proof fn lemma_planned(defaults: Seq<Field>, specs: Seq<RequestSpecView>)
    ensures
        forall|k: int|
            0 <= k < planned(defaults, specs).len() ==> 0 <= (#[trigger] planned(
                defaults,
                specs,
            )[k]).0 < specs.len() && builds_to(
                defaults,
                specs[planned(defaults, specs)[k].0],
                planned(defaults, specs)[k].1,
            ),
        forall|k: int, l: int|
            0 <= k < l < planned(defaults, specs).len() ==> (#[trigger] planned(
                defaults,
                specs,
            )[k]).0 < (#[trigger] planned(defaults, specs)[l]).0,
        forall|i: int|
            0 <= i < specs.len() && build_outcome(defaults, specs[i]) is Ok ==> exists|k: int|
                0 <= k < planned(defaults, specs).len() && (#[trigger] planned(
                    defaults,
                    specs,
                )[k]).0 == i,
    decreases specs.len(),
{
    if specs.len() > 0 {
        let front = specs.drop_last();
        let before = planned(defaults, front);
        let after = planned(defaults, specs);
        lemma_planned(defaults, front);
        assert forall|k: int| 0 <= k < before.len() implies after[k] == #[trigger] before[k] by {}
        assert forall|k: int| 0 <= k < after.len() implies 0 <= (#[trigger] after[k]).0
            < specs.len() && builds_to(defaults, specs[after[k].0], after[k].1) by {
            if k < before.len() {
                assert(after[k] == before[k]);
                assert(front[before[k].0] == specs[before[k].0]);
            }
        }
        assert forall|k: int, l: int| 0 <= k < l < after.len() implies (#[trigger] after[k]).0 < (
        #[trigger] after[l]).0 by {
            assert(after[k] == before[k]);
            if l < before.len() {
                assert(after[l] == before[l]);
            }
        }
        assert forall|i: int|
            0 <= i < specs.len() && build_outcome(defaults, specs[i]) is Ok implies exists|k: int|
            0 <= k < after.len() && (#[trigger] after[k]).0 == i by {
            if i < front.len() {
                assert(front[i] == specs[i]);
                let k = choose|k: int| 0 <= k < before.len() && (#[trigger] before[k]).0 == i;
                assert(after[k] == before[k]);
            } else {
                assert(after[after.len() - 1].0 == i);
            }
        }
    }
}

/// The order in which outcomes arrive does not matter: recording the
/// outcomes of two different requests in either order gives the same record.
pub proof fn lemma_resolve_any_order(
    slots: Seq<SlotView>,
    i: int,
    first: OutcomeView,
    j: int,
    second: OutcomeView,
)
    requires
        i != j,
    ensures
        resolved(resolved(slots, i, first), j, second) == resolved(
            resolved(slots, j, second),
            i,
            first,
        ),
{
    assert(resolved(resolved(slots, i, first), j, second) =~= resolved(
        resolved(slots, j, second),
        i,
        first,
    ));
}

/// The outcome of one request touches no other: whatever is recorded or
/// reported for one place, every other place holds what it held, and the
/// batch keeps its size.
pub proof fn lemma_resolve_is_local(slots: Seq<SlotView>, i: int, outcome: OutcomeView, j: int)
    requires
        0 <= j < slots.len(),
        i != j,
    ensures
        resolved(slots, i, outcome).len() == slots.len(),
        resolved(slots, i, outcome)[j] == slots[j],
        reported(slots, i).len() == slots.len(),
        reported(slots, i)[j] == slots[j],
{
}

/// A recorded outcome is final: a second outcome for the same place is not
/// taken, before the first is reported or after.
pub proof fn lemma_resolve_once(
    slots: Seq<SlotView>,
    i: int,
    first: OutcomeView,
    second: OutcomeView,
)
    ensures
        resolved(resolved(slots, i, first), i, second) == resolved(slots, i, first),
        resolved(reported(resolved(slots, i, first), i), i, second) == reported(
            resolved(slots, i, first),
            i,
        ),
{
}

/// An outcome is reported once: after it has been handed out, its place
/// holds no outcome, and asking again changes nothing.
pub proof fn lemma_reported_once(slots: Seq<SlotView>, i: int)
    ensures
        0 <= i < slots.len() ==> !(reported(slots, i)[i] is Ready),
        reported(reported(slots, i), i) == reported(slots, i),
{
}

} // verus!
