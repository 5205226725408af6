//! The stage runner: a bounded-concurrency map over a batch of items.
//!
//! The runner does not call the transform.  It keeps the books: which items
//! are still waiting, which are outstanding, how each one ended.  The caller
//! asks it whether another item may be started, starts it, and reports each
//! completion; the runner never starts more than its limit at once and, when
//! everything has settled, hands the results over in submission order.

use crate::error::FetchError;
use vstd::prelude::*;

verus! {

/// What a stage does with a failed item.
#[derive(Clone, Copy, Debug, PartialEq, Eq, Structural)]
pub enum Mode {
    /// The first failure fails the stage; nothing is returned.
    CollectAll,
    /// Failed items are left out; the stage itself cannot fail.
    DropFailures,
}

/// Where one item of the batch stands.
#[derive(Debug, PartialEq, Eq)]
pub enum Slot<U> {
    /// Not started yet.
    Pending,
    /// Started and not yet reported back.
    Running,
    /// Ended with a value.
    Done(U),
    /// Ended without one.
    Failed(FetchError),
}

/// The four situations of a slot, without its payload.
#[derive(Clone, Copy, Debug, PartialEq, Eq, Structural)]
pub enum Phase {
    Pending,
    Running,
    Done,
    Failed,
}

/// Why a stage has no collection to return.
#[derive(Clone, Copy, Debug, PartialEq, Eq, Structural)]
pub enum StageError {
    /// Items are still waiting or outstanding.
    Unfinished,
    /// The stage collects all or nothing, and an item failed.
    Failed(FetchError),
}

/// The situation of a slot.
pub open spec fn phase_of<U>(slot: Slot<U>) -> Phase {
    match slot {
        Slot::Pending => Phase::Pending,
        Slot::Running => Phase::Running,
        Slot::Done(_) => Phase::Done,
        Slot::Failed(_) => Phase::Failed,
    }
}

/// How many of `slots` are in `phase`.
pub open spec fn tally<U>(slots: Seq<Slot<U>>, phase: Phase) -> nat
    decreases slots.len(),
{
    if slots.len() == 0 {
        0
    } else {
        tally(slots.drop_last(), phase) + if phase_of(slots.last()) == phase {
            1nat
        } else {
            0nat
        }
    }
}

/// The values of the slots that ended with one, in slot order.
pub open spec fn harvest<U>(slots: Seq<Slot<U>>) -> Seq<U>
    decreases slots.len(),
{
    if slots.len() == 0 {
        Seq::empty()
    } else {
        match slots.last() {
            Slot::Done(value) => harvest(slots.drop_last()).push(value),
            _ => harvest(slots.drop_last()),
        }
    }
}

/// The indices of the slots that ended with a value, ascending.
pub open spec fn done_positions<U>(slots: Seq<Slot<U>>) -> Seq<int>
    decreases slots.len(),
{
    if slots.len() == 0 {
        Seq::empty()
    } else {
        match slots.last() {
            Slot::Done(_) => done_positions(slots.drop_last()).push(slots.len() - 1),
            _ => done_positions(slots.drop_last()),
        }
    }
}

/// The books of a stage as mathematics.
pub ghost struct RunnerView<U> {
    pub mode: Mode,
    /// The most transforms that may be outstanding at once.
    pub limit: nat,
    /// One slot per item, in submission order.
    pub slots: Seq<Slot<U>>,
    /// How many items have been started; they are started in order.
    pub started: nat,
    /// The failure that was reported first, if any.
    pub failure: Option<FetchError>,
}

/// What can happen to a stage.
pub ghost enum Event<U> {
    /// The caller asks to start the next item.
    Start,
    /// The caller reports how the item at an index ended.
    Complete(int, Result<U, FetchError>),
}

impl<U> RunnerView<U> {
    /// A stage of `total` items, none started.
    pub open spec fn fresh(total: nat, limit: nat, mode: Mode) -> Self {
        RunnerView {
            mode,
            limit,
            slots: Seq::new(total, |i: int| Slot::Pending),
            started: 0,
            failure: None,
        }
    }

    /// How many transforms are outstanding.
    pub open spec fn outstanding(self) -> nat {
        tally(self.slots, Phase::Running)
    }

    /// Whether the stage has stopped starting items: it collects all or
    /// nothing and has seen a failure.
    pub open spec fn halted(self) -> bool {
        self.mode is CollectAll && self.failure is Some
    }

    /// Whether the next item may be started now.
    pub open spec fn can_start(self) -> bool {
        &&& !self.halted()
        &&& self.started < self.slots.len()
        &&& self.outstanding() < self.limit
    }

    /// The books after a request to start the next item.
    pub open spec fn start(self) -> Self {
        if self.can_start() {
            RunnerView {
                slots: self.slots.update(self.started as int, Slot::Running),
                started: self.started + 1,
                ..self
            }
        } else {
            self
        }
    }

    /// Whether the item at `index` is outstanding.
    pub open spec fn in_flight(self, index: int) -> bool {
        0 <= index < self.slots.len() && self.slots[index] is Running
    }

    /// The books after the item at `index` was reported to have ended in
    /// `outcome`.  A report for an item that is not outstanding changes
    /// nothing.
    pub open spec fn complete(self, index: int, outcome: Result<U, FetchError>) -> Self {
        if !self.in_flight(index) {
            self
        } else {
            match outcome {
                Ok(value) => RunnerView { slots: self.slots.update(index, Slot::Done(value)), ..self },
                Err(e) => RunnerView {
                    slots: self.slots.update(index, Slot::Failed(e)),
                    failure: if self.failure is None {
                        Some(e)
                    } else {
                        self.failure
                    },
                    ..self
                },
            }
        }
    }

    /// The books after one event.
    pub open spec fn apply(self, event: Event<U>) -> Self {
        match event {
            Event::Start => self.start(),
            Event::Complete(index, outcome) => self.complete(index, outcome),
        }
    }

    /// The books after a list of events, first to last.
    pub open spec fn apply_all(self, events: Seq<Event<U>>) -> Self
        decreases events.len(),
    {
        if events.len() == 0 {
            self
        } else {
            self.apply_all(events.drop_last()).apply(events.last())
        }
    }

    /// Whether the stage is over: nothing is outstanding, and nothing more
    /// will be started.
    pub open spec fn finished(self) -> bool {
        self.outstanding() == 0 && (self.halted() || self.started == self.slots.len())
    }

    /// What the stage returns.
    pub open spec fn outcome(self) -> Result<Seq<U>, StageError> {
        if !self.finished() {
            Err(StageError::Unfinished)
        } else if self.halted() {
            Err(StageError::Failed(self.failure->Some_0))
        } else {
            Ok(harvest(self.slots))
        }
    }

    /// What stays true of the books whatever happens.
    pub open spec fn inv(self) -> bool {
        &&& self.limit >= 1
        &&& self.started <= self.slots.len()
        &&& forall|i: int|
            0 <= i < self.slots.len() ==> (#[trigger] self.slots[i] is Pending <==> self.started
                <= i)
        &&& self.outstanding() <= self.limit
        &&& self.failure is Some <==> tally(self.slots, Phase::Failed) > 0
    }

    /// Twice the items not yet started plus the items outstanding: an upper
    /// bound on the events that can still change the books.
    pub open spec fn work_left(self) -> nat {
        2 * tally(self.slots, Phase::Pending) + tally(self.slots, Phase::Running)
    }
}

/// The books of one stage.
#[derive(Debug)]
pub struct StageRunner<U> {
    mode: Mode,
    limit: usize,
    slots: Vec<Slot<U>>,
    started: usize,
    running: usize,
    failure: Option<FetchError>,
}

impl<U> View for StageRunner<U> {
    type V = RunnerView<U>;

    closed spec fn view(&self) -> RunnerView<U> {
        RunnerView {
            mode: self.mode,
            limit: self.limit as nat,
            slots: self.slots@,
            started: self.started as nat,
            failure: self.failure,
        }
    }
}

impl<U> StageRunner<U> {
    /// Whether the books are in order.
    pub closed spec fn wf(&self) -> bool {
        &&& self@.inv()
        &&& self.running == self@.outstanding()
    }

    /// Books that are in order keep the bound.
    pub proof fn lemma_wf(&self)
        requires
            self.wf(),
        ensures
            self@.inv(),
            self@.outstanding() <= self@.limit,
            self@.limit <= usize::MAX,
            self@.slots.len() <= usize::MAX,
    {
        assert(self.slots@.len() == self.slots.len());
    }

    /// Opens the books for a batch of `total` items of which at most `limit`
    /// may be outstanding at once.  There are no books for a limit of zero:
    /// such a stage could never start anything.
    pub fn new(total: usize, limit: usize, mode: Mode) -> (r: Option<Self>)
        ensures
            r is Some <==> limit >= 1,
            r matches Some(runner) ==> {
                &&& runner.wf()
                &&& runner@ == RunnerView::<U>::fresh(total as nat, limit as nat, mode)
                &&& runner@.outstanding() == 0
            },
    {
        if limit == 0 {
            return None;
        }
        let mut slots: Vec<Slot<U>> = Vec::new();
        let mut i: usize = 0;
        while i < total
            invariant
                i <= total,
                slots@ =~= Seq::new(i as nat, |k: int| Slot::<U>::Pending),
            decreases total - i,
        {
            slots.push(Slot::Pending);
            i += 1;
        }
        proof {
            lemma_fresh::<U>(total as nat, limit as nat, mode);
        }
        Some(StageRunner { mode, limit, slots, started: 0, running: 0, failure: None })
    }

    /// What the stage does with a failed item.
    pub fn mode(&self) -> (r: Mode)
        ensures
            r == self@.mode,
    {
        self.mode
    }

    /// The most transforms that may be outstanding at once.
    pub fn limit(&self) -> (r: usize)
        ensures
            r == self@.limit,
    {
        self.limit
    }

    /// How many items the batch has.
    pub fn total(&self) -> (r: usize)
        ensures
            r == self@.slots.len(),
    {
        self.slots.len()
    }

    /// How many transforms are outstanding.
    pub fn outstanding(&self) -> (r: usize)
        requires
            self.wf(),
        ensures
            r == self@.outstanding(),
            r <= self@.limit,
    {
        self.running
    }

    /// The failure that was reported first, if any.
    pub fn first_failure(&self) -> (r: Option<FetchError>)
        ensures
            r == self@.failure,
    {
        self.failure
    }

    /// Whether the next item may be started now.
    pub fn can_start(&self) -> (b: bool)
        requires
            self.wf(),
        ensures
            b == self@.can_start(),
    {
        let halted = match self.mode {
            Mode::CollectAll => self.failure.is_some(),
            Mode::DropFailures => false,
        };
        !halted && self.started < self.slots.len() && self.running < self.limit
    }

    /// Whether the stage is over.
    pub fn is_finished(&self) -> (b: bool)
        requires
            self.wf(),
        ensures
            b == self@.finished(),
    {
        let halted = match self.mode {
            Mode::CollectAll => self.failure.is_some(),
            Mode::DropFailures => false,
        };
        self.running == 0 && (halted || self.started == self.slots.len())
    }

    /// Starts the next item if the limit and the mode allow it, and says
    /// which item that is.  Items are started in submission order.
    pub fn start_next(&mut self) -> (r: Option<usize>)
        requires
            old(self).wf(),
        ensures
            final(self).wf(),
            final(self)@ == old(self)@.start(),
            r == if old(self)@.can_start() {
                Some(old(self)@.started as usize)
            } else {
                None
            },
            final(self)@.outstanding() == old(self)@.outstanding() + if r is Some {
                1nat
            } else {
                0nat
            },
    {
        if !self.can_start() {
            return None;
        }
        let index = self.started;
        let ghost before = self@;
        proof {
            lemma_event_keeps_bound(before, Event::Start);
            lemma_tally_update(before.slots, index as int, Slot::Running, Phase::Running);
        }
        assert(index < self.slots.len());
        self.slots.set(index, Slot::Running);
        self.started = index + 1;
        self.running = self.running + 1;
        assert(self@ == before.start());
        Some(index)
    }

    /// Records how the item at `index` ended, and says whether the report
    /// was taken: a report for an item that is not outstanding is ignored.
    pub fn complete(&mut self, index: usize, outcome: Result<U, FetchError>) -> (taken: bool)
        requires
            old(self).wf(),
        ensures
            final(self).wf(),
            final(self)@ == old(self)@.complete(index as int, outcome),
            taken == old(self)@.in_flight(index as int),
            final(self)@.outstanding() == old(self)@.outstanding() - if taken {
                1int
            } else {
                0int
            },
    {
        if index >= self.slots.len() {
            return false;
        }
        let in_flight = match &self.slots[index] {
            Slot::Running => true,
            _ => false,
        };
        if !in_flight {
            return false;
        }
        let ghost before = self@;
        proof {
            lemma_event_keeps_bound(before, Event::Complete(index as int, outcome));
            lemma_tally_bounds(before.slots, Phase::Running);
            lemma_tally_update(
                before.slots,
                index as int,
                before.complete(index as int, outcome).slots[index as int],
                Phase::Running,
            );
        }
        match outcome {
            Ok(value) => {
                self.slots.set(index, Slot::Done(value));
            },
            Err(e) => {
                self.slots.set(index, Slot::Failed(e));
                if self.failure.is_none() {
                    self.failure = Some(e);
                }
            },
        }
        self.running = self.running - 1;
        assert(self@ == before.complete(index as int, outcome));
        true
    }

    /// Closes the books and hands over what the stage returns.
    ///
    /// While items are waiting or outstanding there is nothing to return.
    /// A finished stage that collects all or nothing returns the failure
    /// reported first if there was one, and no value with it.  Otherwise the
    /// values of the items that ended with one are returned in submission
    /// order.
    pub fn collect(self) -> (r: Result<Vec<U>, StageError>)
        requires
            self.wf(),
        ensures
            r matches Ok(values) ==> self@.outcome() == Ok::<Seq<U>, StageError>(values@),
            r matches Err(e) ==> self@.outcome() == Err::<Seq<U>, StageError>(e),
            r matches Ok(values) ==> values@.len() + tally(self@.slots, Phase::Failed)
                == self@.slots.len(),
            r matches Ok(values) ==> self@.mode is CollectAll ==> {
                &&& values@.len() == self@.slots.len()
                &&& forall|i: int|
                    0 <= i < self@.slots.len() ==> #[trigger] self@.slots[i] == Slot::Done(
                        values@[i],
                    )
            },
    {
        if !self.is_finished() {
            return Err(StageError::Unfinished);
        }
        match self.mode {
            Mode::CollectAll => {
                if let Some(e) = self.failure {
                    return Err(StageError::Failed(e));
                }
            },
            Mode::DropFailures => {},
        }
        let ghost all = self.slots@;
        let mut slots = self.slots;
        let mut reversed: Vec<U> = Vec::new();
        while slots.len() > 0
            invariant
                slots@.len() <= all.len(),
                slots@ == all.take(slots@.len() as int),
                harvest(all) == harvest(slots@) + reversed@.reverse(),
            decreases slots.len(),
        {
            let ghost before = slots@;
            let slot = slots.pop().unwrap();
            proof {
                assert(slots@ =~= before.drop_last());
                assert(slots@ =~= all.take(slots@.len() as int));
            }
            match slot {
                Slot::Done(value) => {
                    let ghost earlier = reversed@;
                    reversed.push(value);
                    assert(reversed@.reverse() =~= seq![value] + earlier.reverse());
                    assert(harvest(before) + earlier.reverse() =~= harvest(slots@)
                        + reversed@.reverse());
                },
                _ => {},
            }
        }
        let mut values: Vec<U> = Vec::new();
        let ghost backwards = reversed@;
        while reversed.len() > 0
            invariant
                reversed@.len() <= backwards.len(),
                reversed@ == backwards.take(reversed@.len() as int),
                values@ == backwards.skip(reversed@.len() as int).reverse(),
            decreases reversed.len(),
        {
            let ghost before = reversed@;
            let ghost sofar = values@;
            let value = reversed.pop().unwrap();
            values.push(value);
            proof {
                assert(reversed@ =~= before.drop_last());
                assert(reversed@ =~= backwards.take(reversed@.len() as int));
                assert(values@ =~= backwards.skip(reversed@.len() as int).reverse());
            }
        }
        proof {
            assert(backwards.skip(0) =~= backwards);
            assert(harvest(all) =~= values@);
            match self@.mode {
                Mode::CollectAll => {
                    lemma_collect_all_is_all_or_nothing(self@);
                    lemma_tally_bounds(self@.slots, Phase::Failed);
                },
                Mode::DropFailures => {
                    lemma_drop_failures_accounting(self@);
                },
            }
        }
        Ok(values)
    }
}

/// Replacing one slot moves one unit of the tally from its old phase to its
/// new one.
pub proof fn lemma_tally_update<U>(slots: Seq<Slot<U>>, index: int, slot: Slot<U>, phase: Phase)
    requires
        0 <= index < slots.len(),
    ensures
        tally(slots.update(index, slot), phase) == tally(slots, phase) - (if phase_of(
            slots[index],
        ) == phase {
            1int
        } else {
            0int
        }) + (if phase_of(slot) == phase {
            1int
        } else {
            0int
        }),
    decreases slots.len(),
{
    let changed = slots.update(index, slot);
    if index == slots.len() - 1 {
        assert(changed.drop_last() =~= slots.drop_last());
    } else {
        assert(changed.drop_last() =~= slots.drop_last().update(index, slot));
        lemma_tally_update(slots.drop_last(), index, slot, phase);
    }
}

/// Every slot is in exactly one phase.
pub proof fn lemma_tally_total<U>(slots: Seq<Slot<U>>)
    ensures
        tally(slots, Phase::Pending) + tally(slots, Phase::Running) + tally(slots, Phase::Done)
            + tally(slots, Phase::Failed) == slots.len(),
    decreases slots.len(),
{
    if slots.len() > 0 {
        lemma_tally_total(slots.drop_last());
    }
}

/// A slot in some phase makes the tally of that phase positive, and a tally
/// never exceeds the number of slots.
pub proof fn lemma_tally_bounds<U>(slots: Seq<Slot<U>>, phase: Phase)
    ensures
        tally(slots, phase) <= slots.len(),
        forall|i: int|
            0 <= i < slots.len() && phase_of(#[trigger] slots[i]) == phase ==> tally(slots, phase)
                > 0,
        tally(slots, phase) > 0 ==> exists|i: int|
            0 <= i < slots.len() && phase_of(#[trigger] slots[i]) == phase,
    decreases slots.len(),
{
    if slots.len() > 0 {
        let front = slots.drop_last();
        lemma_tally_bounds(front, phase);
        assert forall|i: int|
            0 <= i < slots.len() && phase_of(#[trigger] slots[i]) == phase implies tally(
            slots,
            phase,
        ) > 0 by {
            if i < slots.len() - 1 {
                assert(front[i] == slots[i]);
            }
        }
        if tally(slots, phase) > 0 {
            if phase_of(slots.last()) == phase {
                assert(phase_of(slots[slots.len() - 1]) == phase);
            } else {
                let i = choose|i: int| 0 <= i < front.len() && phase_of(#[trigger] front[i]) == phase;
                assert(phase_of(slots[i]) == phase);
            }
        }
    }
}

/// The harvest holds one value per slot that ended with one: the value at
/// position `j` is the value of the slot at `done_positions(slots)[j]`, and
/// these slots are all the slots that ended with a value, in ascending order.
pub proof fn lemma_harvest<U>(slots: Seq<Slot<U>>)
    ensures
        harvest(slots).len() == tally(slots, Phase::Done),
        done_positions(slots).len() == harvest(slots).len(),
        forall|j: int|
            0 <= j < harvest(slots).len() ==> {
                let at = #[trigger] done_positions(slots)[j];
                &&& 0 <= at < slots.len()
                &&& slots[at] == Slot::Done(harvest(slots)[j])
            },
        forall|j: int, k: int|
            0 <= j < k < done_positions(slots).len() ==> done_positions(slots)[j] < done_positions(
                slots,
            )[k],
        forall|i: int|
            0 <= i < slots.len() && #[trigger] slots[i] is Done ==> done_positions(slots).contains(
                i,
            ),
    decreases slots.len(),
{
    if slots.len() > 0 {
        let front = slots.drop_last();
        lemma_harvest(front);
        let positions = done_positions(slots);
        let before = done_positions(front);
        assert forall|j: int| 0 <= j < harvest(slots).len() implies {
            let at = #[trigger] positions[j];
            &&& 0 <= at < slots.len()
            &&& slots[at] == Slot::Done(harvest(slots)[j])
        } by {
            if j < before.len() {
                assert(positions[j] == before[j]);
                assert(front[before[j]] == slots[before[j]]);
            }
        }
        assert forall|j: int, k: int| 0 <= j < k < positions.len() implies positions[j]
            < positions[k] by {
            assert(positions[j] == before[j]);
            if k < before.len() {
                assert(positions[k] == before[k]);
            }
        }
        assert forall|i: int| 0 <= i < slots.len() && #[trigger] slots[i] is Done implies positions.contains(
            i,
        ) by {
            if i < slots.len() - 1 {
                assert(front[i] == slots[i]);
                let j = choose|j: int| 0 <= j < before.len() && before[j] == i;
                assert(positions[j] == i);
            } else {
                assert(positions[positions.len() - 1] == i);
            }
        }
    }
}

/// Where no slot is in another phase than `Done`, the harvest is the value
/// of every slot, index by index.
pub proof fn lemma_harvest_of_all_done<U>(slots: Seq<Slot<U>>)
    requires
        tally(slots, Phase::Done) == slots.len(),
    ensures
        harvest(slots).len() == slots.len(),
        forall|i: int| 0 <= i < slots.len() ==> #[trigger] slots[i] == Slot::Done(harvest(slots)[i]),
    decreases slots.len(),
{
    if slots.len() > 0 {
        let front = slots.drop_last();
        lemma_tally_bounds(front, Phase::Done);
        lemma_harvest_of_all_done(front);
        assert forall|i: int| 0 <= i < slots.len() implies #[trigger] slots[i] == Slot::Done(
            harvest(slots)[i],
        ) by {
            if i < slots.len() - 1 {
                assert(front[i] == slots[i]);
            }
        }
    }
}

/// A stage that has not started anything has nothing outstanding.
pub proof fn lemma_fresh<U>(total: nat, limit: nat, mode: Mode)
    requires
        limit >= 1,
    ensures
        RunnerView::<U>::fresh(total, limit, mode).inv(),
        RunnerView::<U>::fresh(total, limit, mode).outstanding() == 0,
        tally(RunnerView::<U>::fresh(total, limit, mode).slots, Phase::Pending) == total,
    decreases total,
{
    let view = RunnerView::<U>::fresh(total, limit, mode);
    if total > 0 {
        let shorter = RunnerView::<U>::fresh((total - 1) as nat, limit, mode);
        assert(view.slots.drop_last() =~= shorter.slots);
        lemma_fresh::<U>((total - 1) as nat, limit, mode);
    }
}

/// No event lets the number of outstanding transforms pass the limit, and
/// every event that changes the books uses up work that was left.
pub proof fn lemma_event_keeps_bound<U>(view: RunnerView<U>, event: Event<U>)
    requires
        view.inv(),
    ensures
        view.apply(event).inv(),
        view.apply(event).outstanding() <= view.limit,
        view.apply(event).limit == view.limit,
        view.apply(event).mode == view.mode,
        view.apply(event).slots.len() == view.slots.len(),
        view.apply(event) != view ==> view.apply(event).work_left() + 1 == view.work_left(),
{
    let after = view.apply(event);
    match event {
        Event::Start => {
            if view.can_start() {
                let at = view.started as int;
                assert(view.slots[at] is Pending);
                lemma_tally_update(view.slots, at, Slot::Running, Phase::Running);
                lemma_tally_update(view.slots, at, Slot::Running, Phase::Failed);
                lemma_tally_update(view.slots, at, Slot::Running, Phase::Pending);
            }
        },
        Event::Complete(index, outcome) => {
            if view.in_flight(index) {
                let slot = after.slots[index];
                lemma_tally_update(view.slots, index, slot, Phase::Running);
                lemma_tally_update(view.slots, index, slot, Phase::Failed);
                lemma_tally_update(view.slots, index, slot, Phase::Pending);
            }
        },
    }
}

/// Whatever is asked of it and reported to it, in whatever order, a stage
/// never has more transforms outstanding than its limit.
pub proof fn lemma_outstanding_never_exceeds_limit<U>(
    total: nat,
    limit: nat,
    mode: Mode,
    events: Seq<Event<U>>,
)
    requires
        limit >= 1,
    ensures
        RunnerView::<U>::fresh(total, limit, mode).apply_all(events).inv(),
        RunnerView::<U>::fresh(total, limit, mode).apply_all(events).limit == limit,
        RunnerView::<U>::fresh(total, limit, mode).apply_all(events).outstanding() <= limit,
        RunnerView::<U>::fresh(total, limit, mode).apply_all(events).slots.len() == total,
        RunnerView::<U>::fresh(total, limit, mode).apply_all(events).mode == mode,
    decreases events.len(),
{
    let start = RunnerView::<U>::fresh(total, limit, mode);
    if events.len() == 0 {
        lemma_fresh::<U>(total, limit, mode);
    } else {
        lemma_outstanding_never_exceeds_limit(total, limit, mode, events.drop_last());
        lemma_event_keeps_bound(start.apply_all(events.drop_last()), events.last());
    }
}

/// An item that has ended stays as it ended: no later event touches its
/// slot.
pub proof fn lemma_settled_slots_stay<U>(view: RunnerView<U>, event: Event<U>, index: int)
    requires
        0 <= index < view.slots.len(),
        view.slots[index] is Done || view.slots[index] is Failed,
        view.inv(),
    ensures
        view.apply(event).slots[index] == view.slots[index],
{
}

/// Whatever is asked of a stage and reported to it, an item that has ended
/// with a value ended with a value that was reported for it, and an item
/// that has failed failed with a failure that was reported for it.
pub proof fn lemma_slots_hold_what_was_reported<U>(
    total: nat,
    limit: nat,
    mode: Mode,
    events: Seq<Event<U>>,
    index: int,
)
    requires
        limit >= 1,
        0 <= index < total,
    ensures
        ({
            let end = RunnerView::<U>::fresh(total, limit, mode).apply_all(events);
            &&& end.slots.len() == total
            &&& end.slots[index] matches Slot::Done(value) ==> exists|k: int|
                0 <= k < events.len() && #[trigger] events[k] == Event::Complete(
                    index,
                    Ok::<U, FetchError>(value),
                )
            &&& end.slots[index] matches Slot::Failed(e) ==> exists|k: int|
                0 <= k < events.len() && #[trigger] events[k] == Event::Complete(
                    index,
                    Err::<U, FetchError>(e),
                )
        }),
    decreases events.len(),
{
    let start = RunnerView::<U>::fresh(total, limit, mode);
    lemma_outstanding_never_exceeds_limit(total, limit, mode, events);
    if events.len() > 0 {
        let earlier = events.drop_last();
        let before = start.apply_all(earlier);
        let end = before.apply(events.last());
        lemma_outstanding_never_exceeds_limit(total, limit, mode, earlier);
        lemma_slots_hold_what_was_reported(total, limit, mode, earlier, index);
        if end.slots[index] == before.slots[index] {
            if let Slot::Done(value) = end.slots[index] {
                let k = choose|k: int|
                    0 <= k < earlier.len() && #[trigger] earlier[k] == Event::Complete(
                        index,
                        Ok::<U, FetchError>(value),
                    );
                assert(events[k] == earlier[k]);
            }
            if let Slot::Failed(e) = end.slots[index] {
                let k = choose|k: int|
                    0 <= k < earlier.len() && #[trigger] earlier[k] == Event::Complete(
                        index,
                        Err::<U, FetchError>(e),
                    );
                assert(events[k] == earlier[k]);
            }
        } else {
            let last = events.len() - 1;
            if let Slot::Done(value) = end.slots[index] {
                assert(events[last] == Event::Complete(index, Ok::<U, FetchError>(value)));
            }
            if let Slot::Failed(e) = end.slots[index] {
                assert(events[last] == Event::Complete(index, Err::<U, FetchError>(e)));
            }
        }
    } else {
        assert(start.slots[index] is Pending);
    }
}

/// A stage that is not over and cannot start its next item has a transform
/// outstanding: there is always something to start or something to wait for.
pub proof fn lemma_progress<U>(view: RunnerView<U>)
    requires
        view.inv(),
        !view.finished(),
        !view.can_start(),
    ensures
        view.outstanding() > 0,
{
}

/// When a stage that drops failures is over, every item has ended; the
/// values returned are as many as the items less the failed ones, each is
/// the value of an item that ended with it, and no failed item contributes.
pub proof fn lemma_drop_failures_accounting<U>(view: RunnerView<U>)
    requires
        view.inv(),
        view.mode is DropFailures,
        view.finished(),
    ensures
        view.outcome() == Ok::<Seq<U>, StageError>(harvest(view.slots)),
        harvest(view.slots).len() == view.slots.len() - tally(view.slots, Phase::Failed),
        forall|i: int|
            0 <= i < view.slots.len() ==> #[trigger] view.slots[i] is Done || view.slots[i] is Failed,
        forall|j: int|
            0 <= j < harvest(view.slots).len() ==> {
                let at = #[trigger] done_positions(view.slots)[j];
                &&& 0 <= at < view.slots.len()
                &&& view.slots[at] == Slot::Done(harvest(view.slots)[j])
            },
        forall|i: int|
            0 <= i < view.slots.len() && #[trigger] view.slots[i] is Failed ==> !done_positions(
                view.slots,
            ).contains(i),
{
    let slots = view.slots;
    lemma_harvest(slots);
    lemma_tally_total(slots);
    lemma_tally_bounds(slots, Phase::Running);
    lemma_tally_bounds(slots, Phase::Pending);
    assert(tally(slots, Phase::Pending) == 0) by {
        if tally(slots, Phase::Pending) > 0 {
            let i = choose|i: int| 0 <= i < slots.len() && phase_of(#[trigger] slots[i]) == Phase::Pending;
            assert(slots[i] is Pending);
        }
    }
    assert forall|i: int| 0 <= i < slots.len() implies #[trigger] slots[i] is Done
        || slots[i] is Failed by {
        if slots[i] is Running {
            assert(phase_of(slots[i]) == Phase::Running);
        }
    }
    assert forall|i: int| 0 <= i < slots.len() && #[trigger] slots[i] is Failed implies !done_positions(
        slots,
    ).contains(i) by {
        if done_positions(slots).contains(i) {
            let j = choose|j: int| 0 <= j < done_positions(slots).len() && done_positions(slots)[j] == i;
            assert(slots[done_positions(slots)[j]] == Slot::Done(harvest(slots)[j]));
        }
    }
}

/// When a stage that collects all or nothing is over, it returns either
/// every item's value, index by index, or nothing but the failure reported
/// first; it returns the failure exactly when some item failed.
pub proof fn lemma_collect_all_is_all_or_nothing<U>(view: RunnerView<U>)
    requires
        view.inv(),
        view.mode is CollectAll,
        view.finished(),
    ensures
        (exists|i: int| 0 <= i < view.slots.len() && #[trigger] view.slots[i] is Failed)
            <==> view.outcome() is Err,
        view.outcome() is Err ==> view.outcome() == Err::<Seq<U>, StageError>(
            StageError::Failed(view.failure->Some_0),
        ),
        view.outcome() matches Ok(values) ==> {
            &&& values.len() == view.slots.len()
            &&& forall|i: int|
                0 <= i < view.slots.len() ==> #[trigger] view.slots[i] == Slot::Done(values[i])
        },
{
    let slots = view.slots;
    lemma_tally_bounds(slots, Phase::Failed);
    lemma_tally_bounds(slots, Phase::Pending);
    lemma_tally_total(slots);
    if exists|i: int| 0 <= i < slots.len() && #[trigger] slots[i] is Failed {
        let i = choose|i: int| 0 <= i < slots.len() && #[trigger] slots[i] is Failed;
        assert(phase_of(slots[i]) == Phase::Failed);
    }
    if view.outcome() is Err {
        let i = choose|i: int| 0 <= i < slots.len() && phase_of(#[trigger] slots[i]) == Phase::Failed;
        assert(slots[i] is Failed);
    }
    if view.outcome() is Ok {
        assert(tally(slots, Phase::Pending) == 0) by {
            if tally(slots, Phase::Pending) > 0 {
                let i = choose|i: int|
                    0 <= i < slots.len() && phase_of(#[trigger] slots[i]) == Phase::Pending;
                assert(slots[i] is Pending);
            }
        }
        lemma_harvest_of_all_done(slots);
    }
}

} // verus!
