//! A gate: one payment lane with its queue, and the decisions of the worker
//! that serves it.

use crate::span::Span;
use crate::toll_clock::{SimpleTime, TollClock};
use crate::vehicle::Vehicle;
use std::collections::VecDeque;
use vstd::prelude::*;

verus! {

/// A vehicle that waits for its turn to pay.
#[derive(Debug)]
pub struct WaitingVehicle {
    pub vehicle: Vehicle,
    /// The plaza's clock as it stood when the vehicle was admitted.
    pub arrival: TollClock,
}

/// A vehicle that has paid and left.
#[derive(Clone, Copy, Debug, PartialEq, Eq, Structural)]
pub struct DepartedVehicle {
    pub vehicle: Vehicle,
    /// When the vehicle came to the plaza.
    pub arrival: SimpleTime,
    /// When the vehicle left the plaza.
    pub departure: SimpleTime,
}

impl WaitingVehicle {
    /// The record of the vehicle leaving once `elapsed` real time has passed
    /// since it was admitted.
    pub open spec fn spec_leave_after(self, elapsed: Span) -> DepartedVehicle {
        DepartedVehicle {
            vehicle: self.vehicle,
            arrival: self.arrival.clock,
            departure: self.arrival.spec_time_after(elapsed),
        }
    }

    /// The real time that the lane is busy with the vehicle when `draw_secs`
    /// seconds were drawn for its payment: the simulated time of the payment
    /// divided by the acceleration factor.
    pub open spec fn spec_service_pause(self, draw_secs: u64) -> Span {
        Span::of_nanos(
            self.vehicle.spec_payment_duration(draw_secs).total_nanos() / (
            self.arrival.acceleration_factor as nat),
        )
    }

    /// The record of the vehicle leaving once `elapsed` real time has passed
    /// since it was admitted.
    pub fn leave_after(self, elapsed: Span) -> (r: DepartedVehicle)
        ensures
            r == self.spec_leave_after(elapsed),
    {
        let departure: SimpleTime = self.arrival.time_after(elapsed);
        DepartedVehicle { vehicle: self.vehicle, arrival: self.arrival.clock, departure }
    }

    /// The record of the vehicle leaving now.
    pub fn leave(self) -> (r: DepartedVehicle)
        ensures
            exists|elapsed: Span| elapsed.wf() && r == #[trigger] self.spec_leave_after(elapsed),
            r.vehicle == self.vehicle,
            r.arrival == self.arrival.clock,
    {
        let elapsed: Span = self.arrival.elapsed();
        self.leave_after(elapsed)
    }

    /// The real time that the lane is busy with the vehicle when `draw_secs`
    /// seconds were drawn for its payment.
    pub fn service_pause(&self, draw_secs: u64) -> (r: Span)
        requires
            self.arrival.acceleration_factor > 0,
        ensures
            r == self.spec_service_pause(draw_secs),
            r.wf(),
    {
        self.vehicle.payment_duration(draw_secs).divided_by(self.arrival.acceleration_factor)
    }
}

/// What the worker of a gate is doing.
#[derive(Debug)]
pub enum WorkerState {
    /// Nothing: the queue was empty when it last looked.
    Idle,
    /// It has taken a vehicle from the queue and needs a payment time for it.
    Dispatching(WaitingVehicle),
    /// It is busy with a vehicle until the payment is over.
    Serving(WaitingVehicle),
}

/// What happened to the worker of a gate.
#[derive(Clone, Copy, Debug, PartialEq, Eq, Structural)]
pub enum WorkerEvent {
    /// It was started or woken, or has finished with a vehicle.
    Woken,
    /// The payment time that it asked for was drawn, in seconds.
    Drawn(u64),
    /// The pause that it asked for is over.
    Served,
}

/// What the worker of a gate has to do next.
#[derive(Clone, Copy, Debug, PartialEq, Eq, Structural)]
pub enum WorkerAction {
    /// Wait until woken.
    Park,
    /// Draw a payment time and report it as [`WorkerEvent::Drawn`].
    Draw,
    /// Pause for this much real time and report [`WorkerEvent::Served`].
    Pause(Span),
    /// Hand the record to the log and go on with [`WorkerEvent::Woken`].
    Submit(DepartedVehicle),
    /// Go on with [`WorkerEvent::Woken`]: this lane keeps no log.
    Proceed,
    /// The event does not concern what the worker is doing: go on with that.
    Resume,
}

/// A payment lane: the vehicles that wait at it, the first to be served in
/// front.
#[derive(Debug)]
pub struct Gate {
    pub queue: VecDeque<WaitingVehicle>,
    /// Whether the vehicles that leave this lane are recorded.
    pub logging: bool,
}

impl View for Gate {
    type V = Seq<WaitingVehicle>;

    open spec fn view(&self) -> Seq<WaitingVehicle> {
        self.queue@
    }
}

/// The queue, the state and the action that follow from one event.
pub open spec fn spec_step(
    queue: Seq<WaitingVehicle>,
    logging: bool,
    state: WorkerState,
    event: WorkerEvent,
    elapsed: Span,
) -> (Seq<WaitingVehicle>, WorkerState, WorkerAction) {
    match (state, event) {
        (WorkerState::Idle, WorkerEvent::Woken) => {
            if queue.len() == 0 {
                (queue, WorkerState::Idle, WorkerAction::Park)
            } else {
                (
                    queue.subrange(1, queue.len() as int),
                    WorkerState::Dispatching(queue[0]),
                    WorkerAction::Draw,
                )
            }
        },
        (WorkerState::Dispatching(waiting), WorkerEvent::Drawn(draw_secs)) => (
            queue,
            WorkerState::Serving(waiting),
            WorkerAction::Pause(waiting.spec_service_pause(draw_secs)),
        ),
        (WorkerState::Serving(waiting), WorkerEvent::Served) => (
            queue,
            WorkerState::Idle,
            if logging {
                WorkerAction::Submit(waiting.spec_leave_after(elapsed))
            } else {
                WorkerAction::Proceed
            },
        ),
        _ => (queue, state, WorkerAction::Resume),
    }
}

impl WorkerState {
    /// A vehicle that waits for its payment time came with a clock that
    /// runs: the pause is the payment time divided by the clock's
    /// acceleration factor.
    pub open spec fn wf(self) -> bool {
        self matches WorkerState::Dispatching(waiting) ==> waiting.arrival.acceleration_factor > 0
    }

    /// The vehicle that the worker has in hand, if it has one.
    pub open spec fn in_hand(self) -> Seq<WaitingVehicle> {
        match self {
            WorkerState::Idle => Seq::<WaitingVehicle>::empty(),
            WorkerState::Dispatching(waiting) => seq![waiting],
            WorkerState::Serving(waiting) => seq![waiting],
        }
    }

    /// Whether the state is in order: see [`WorkerState::wf`].
    pub fn is_valid(&self) -> (r: bool)
        ensures
            r == self.wf(),
    {
        match self {
            WorkerState::Dispatching(waiting) => waiting.arrival.acceleration_factor > 0,
            _ => true,
        }
    }
}

impl Gate {
    /// Every vehicle in the queue came with a clock that runs.
    pub open spec fn wf(self) -> bool {
        forall|i: int| 0 <= i < self@.len() ==> (#[trigger] self@[i]).arrival.acceleration_factor > 0
    }

    /// Whether the lane is in order: see [`Gate::wf`].
    pub fn is_valid(&self) -> (r: bool)
        ensures
            r == self.wf(),
    {
        let n: usize = self.queue.len();
        let mut i: usize = 0;
        while i < n
            invariant
                i <= n,
                n == self@.len(),
                forall|k: int| 0 <= k < i ==> (#[trigger] self@[k]).arrival.acceleration_factor > 0,
            decreases n - i,
        {
            if self.queue[i].arrival.acceleration_factor == 0 {
                return false;
            }
            i += 1;
        }
        true
    }

    /// A gate at which nobody waits, and which keeps no log.
    pub fn new() -> (r: Gate)
        ensures
            r@ == Seq::<WaitingVehicle>::empty(),
            !r.logging,
            r.wf(),
    {
        Gate { queue: VecDeque::with_capacity(10), logging: false }
    }

    /// Whether nobody waits at this lane.
    pub fn empty(&self) -> (r: bool)
        ensures
            r == (self@.len() == 0),
    {
        self.queue.len() == 0
    }

    /// How many vehicles wait at this lane.
    pub fn nb_cars(&self) -> (r: usize)
        ensures
            r == self@.len(),
    {
        self.queue.len()
    }

    /// Puts a vehicle at the end of the queue.
    pub fn enqueue(&mut self, vehicle: Vehicle, arrival: TollClock)
        ensures
            final(self)@ == old(self)@.push(WaitingVehicle { vehicle, arrival }),
            final(self).logging == old(self).logging,
            old(self).wf() && arrival.acceleration_factor > 0 ==> final(self).wf(),
    {
        self.queue.push_back(WaitingVehicle { vehicle, arrival });
    }

    /// Takes the vehicle at the front of the queue, if there is one.
    pub fn dequeue(&mut self) -> (r: Option<WaitingVehicle>)
        ensures
            final(self).logging == old(self).logging,
            old(self)@.len() == 0 ==> r.is_none() && final(self)@ == old(self)@,
            old(self)@.len() > 0 ==> r == Some(old(self)@[0]) && final(self)@ == old(self)@.subrange(
                1,
                old(self)@.len() as int,
            ),
            old(self).wf() ==> final(self).wf(),
    {
        self.queue.pop_front()
    }

    /// What the worker of a lane does on `event` when it is in `state`:
    /// its next state and what it has to do. `elapsed` is the real time that
    /// has passed since the vehicle that it serves was admitted.
    ///
    /// Woken while idle, it parks if nobody waits, and else takes the
    /// vehicle in front and asks for a payment time. Given that time, it
    /// pauses for it. After the pause it is idle again, and hands the
    /// record of the departure to the log if the lane keeps one.
    pub fn step_after(&mut self, state: WorkerState, event: WorkerEvent, elapsed: Span) -> (r: (
        WorkerState,
        WorkerAction,
    ))
        requires
            old(self).wf(),
            state.wf(),
        ensures
            (final(self)@, r.0, r.1) == spec_step(
                old(self)@,
                old(self).logging,
                state,
                event,
                elapsed,
            ),
            final(self).logging == old(self).logging,
            final(self).wf(),
            r.0.wf(),
    {
        match state {
            WorkerState::Idle => match event {
                WorkerEvent::Woken => match self.dequeue() {
                    None => (WorkerState::Idle, WorkerAction::Park),
                    Some(waiting) => (WorkerState::Dispatching(waiting), WorkerAction::Draw),
                },
                _ => (WorkerState::Idle, WorkerAction::Resume),
            },
            WorkerState::Dispatching(waiting) => match event {
                WorkerEvent::Drawn(draw_secs) => {
                    let pause: Span = waiting.service_pause(draw_secs);
                    (WorkerState::Serving(waiting), WorkerAction::Pause(pause))
                },
                _ => (WorkerState::Dispatching(waiting), WorkerAction::Resume),
            },
            WorkerState::Serving(waiting) => match event {
                WorkerEvent::Served => {
                    if self.logging {
                        let record: DepartedVehicle = waiting.leave_after(elapsed);
                        (WorkerState::Idle, WorkerAction::Submit(record))
                    } else {
                        (WorkerState::Idle, WorkerAction::Proceed)
                    }
                },
                _ => (WorkerState::Serving(waiting), WorkerAction::Resume),
            },
        }
    }

    /// What the worker of a lane does on `event` when it is in `state`, at
    /// present: see [`Gate::step_after`].
    pub fn step(&mut self, state: WorkerState, event: WorkerEvent) -> (r: (
        WorkerState,
        WorkerAction,
    ))
        requires
            old(self).wf(),
            state.wf(),
        ensures
            final(self).wf(),
            r.0.wf(),
            exists|elapsed: Span|
                elapsed.wf() && (final(self)@, r.0, r.1) == #[trigger] spec_step(
                    old(self)@,
                    old(self).logging,
                    state,
                    event,
                    elapsed,
                ),
            final(self).logging == old(self).logging,
    {
        let elapsed: Span = match &state {
            WorkerState::Serving(waiting) => waiting.arrival.elapsed(),
            _ => Span::from_secs(0),
        };
        self.step_after(state, event, elapsed)
    }
}

/// No vehicle is lost and none is served twice. The end of a pause is the
/// one step at which a vehicle leaves: the one in the worker's hand, with a
/// record of it exactly where the lane keeps a log. At every other step the
/// vehicle in hand followed by the queue is what it was before.
pub proof fn lemma_step_keeps_vehicles(
    queue: Seq<WaitingVehicle>,
    logging: bool,
    state: WorkerState,
    event: WorkerEvent,
    elapsed: Span,
)
    ensures
        ({
            let (after, next, action) = spec_step(queue, logging, state, event, elapsed);
            let leaving = state is Serving && event == WorkerEvent::Served;
            &&& leaving ==> after == queue && next.in_hand().len() == 0
            &&& !leaving ==> next.in_hand() + after == state.in_hand() + queue
            &&& action is Submit <==> leaving && logging
            &&& action matches WorkerAction::Submit(record) ==> state matches WorkerState::Serving(
                waiting,
            ) && record == waiting.spec_leave_after(elapsed)
        }),
{
    let (after, next, action) = spec_step(queue, logging, state, event, elapsed);
    if state is Idle && event == WorkerEvent::Woken && queue.len() > 0 {
        assert(seq![queue[0]] + queue.subrange(1, queue.len() as int) =~= queue);
        assert(state.in_hand() + queue =~= queue);
    }
}

/// What happens at a gate: a vehicle comes, or the worker takes one.
pub enum GateOp {
    Enqueue(WaitingVehicle),
    Dequeue,
}

/// The vehicles that came with `ops`, in the order in which they came.
pub open spec fn arrivals(ops: Seq<GateOp>) -> Seq<WaitingVehicle>
    decreases ops.len(),
{
    if ops.len() == 0 {
        Seq::<WaitingVehicle>::empty()
    } else {
        match ops.last() {
            GateOp::Enqueue(waiting) => arrivals(ops.drop_last()).push(waiting),
            GateOp::Dequeue => arrivals(ops.drop_last()),
        }
    }
}

/// The queue of a gate that started with `queue` and went through `ops`.
pub open spec fn left_waiting(queue: Seq<WaitingVehicle>, ops: Seq<GateOp>) -> Seq<WaitingVehicle>
    decreases ops.len(),
{
    if ops.len() == 0 {
        queue
    } else {
        let before = left_waiting(queue, ops.drop_last());
        match ops.last() {
            GateOp::Enqueue(waiting) => before.push(waiting),
            GateOp::Dequeue => if before.len() == 0 {
                before
            } else {
                before.subrange(1, before.len() as int)
            },
        }
    }
}

/// The vehicles that the worker took, in the order in which it took them,
/// at a gate that started with `queue` and went through `ops`.
pub open spec fn served(queue: Seq<WaitingVehicle>, ops: Seq<GateOp>) -> Seq<WaitingVehicle>
    decreases ops.len(),
{
    if ops.len() == 0 {
        Seq::<WaitingVehicle>::empty()
    } else {
        let before = left_waiting(queue, ops.drop_last());
        match ops.last() {
            GateOp::Enqueue(waiting) => served(queue, ops.drop_last()),
            GateOp::Dequeue => if before.len() == 0 {
                served(queue, ops.drop_last())
            } else {
                served(queue, ops.drop_last()).push(before[0])
            },
        }
    }
}

/// First come, first served: whatever happens at a gate, the vehicles that
/// were served followed by those that still wait are the vehicles that
/// waited at the start followed by those that came, each once and in the
/// order of coming.
pub proof fn lemma_first_come_first_served(queue: Seq<WaitingVehicle>, ops: Seq<GateOp>)
    ensures
        served(queue, ops) + left_waiting(queue, ops) == queue + arrivals(ops),
    decreases ops.len(),
{
    if ops.len() == 0 {
        assert(served(queue, ops) + left_waiting(queue, ops) =~= queue + arrivals(ops));
    } else {
        let earlier = ops.drop_last();
        lemma_first_come_first_served(queue, earlier);
        let before = left_waiting(queue, earlier);
        let done = served(queue, earlier);
        assert(done + before == queue + arrivals(earlier));
        match ops.last() {
            GateOp::Enqueue(waiting) => {
                assert(done + before.push(waiting) =~= (done + before).push(waiting));
                assert((queue + arrivals(earlier)).push(waiting) =~= queue + arrivals(
                    earlier,
                ).push(waiting));
            },
            GateOp::Dequeue => {
                if before.len() > 0 {
                    assert(done.push(before[0]) + before.subrange(1, before.len() as int) =~= done
                        + before);
                }
            },
        }
    }
}

} // verus!
