//! The plaza: its gates, its clock, and the policy that picks a gate for
//! each vehicle that comes.

use crate::gate::{Gate, WaitingVehicle};
use crate::logger::{spec_store_name, store_name};
use crate::span::Span;
use crate::text::{decimal, push_decimal};
use crate::toll_clock::{SimpleTime, TollClock};
use crate::vehicle::Vehicle;
use vstd::prelude::*;
use vstd::string::StringExecFns;

verus! {

/// From this many waiting vehicles on, a gate counts as congested.
pub const CONGESTION_THRESHOLD: usize = 5;

/// How many gates, counted from the first, a vehicle may use: all of them
/// if it may take the carpooling lane, all but the last if not.
pub open spec fn eligible_count(gates: nat, carpooling: bool) -> nat {
    if carpooling {
        gates
    } else {
        (gates - 1) as nat
    }
}

/// Nobody waits at any of the first `eligible` gates.
pub open spec fn all_idle(lens: Seq<nat>, eligible: nat) -> bool {
    forall|j: int| 0 <= j < eligible ==> lens[j] == 0
}

/// Nobody waits at one of the first `eligible` gates.
pub open spec fn some_idle(lens: Seq<nat>, eligible: nat) -> bool {
    exists|j: int| 0 <= j < eligible && lens[j] == 0
}

/// Gate `g` is the first of the first `eligible` gates at which nobody waits.
pub open spec fn is_first_idle(lens: Seq<nat>, eligible: nat, g: int) -> bool {
    &&& 0 <= g < eligible
    &&& lens[g] == 0
    &&& forall|j: int| 0 <= j < g ==> lens[j] > 0
}

/// Among the first `eligible` gates at which somebody waits, gate `g` has
/// the shortest queue, and is the first to have it.
pub open spec fn is_least_loaded(lens: Seq<nat>, eligible: nat, g: int) -> bool {
    &&& 0 <= g < eligible
    &&& lens[g] > 0
    &&& forall|j: int| 0 <= j < eligible && lens[j] > 0 ==> lens[g] <= lens[j]
    &&& forall|j: int| 0 <= j < g && lens[j] > 0 ==> lens[g] < lens[j]
}

/// The first of the first `eligible` gates at which nobody waits.
pub open spec fn first_idle(lens: Seq<nat>, eligible: nat) -> int {
    choose|g: int| is_first_idle(lens, eligible, g)
}

/// The lane with the shortest queue among the first `eligible` gates at
/// which somebody waits.
pub open spec fn least_loaded(lens: Seq<nat>, eligible: nat) -> int {
    choose|g: int| is_least_loaded(lens, eligible, g)
}

/// The lane for a vehicle that comes when the queues are `lens` long.
///
/// Where nobody waits at any gate that the vehicle may use, the first gate.
/// Else the lane with the shortest queue among those at which somebody
/// waits, unless that queue has reached [`CONGESTION_THRESHOLD`] and some
/// gate is idle: then the first idle gate.
pub open spec fn placement(lens: Seq<nat>, carpooling: bool) -> int {
    let eligible = eligible_count(lens.len(), carpooling);
    if all_idle(lens, eligible) {
        0
    } else {
        let busy = least_loaded(lens, eligible);
        if lens[busy] >= CONGESTION_THRESHOLD && some_idle(lens, eligible) {
            first_idle(lens, eligible)
        } else {
            busy
        }
    }
}

/// There is one first idle gate at most.
pub proof fn lemma_first_idle_is_unique(lens: Seq<nat>, eligible: nat, g: int, h: int)
    requires
        is_first_idle(lens, eligible, g),
        is_first_idle(lens, eligible, h),
    ensures
        g == h,
{
}

/// There is one least loaded gate at most.
pub proof fn lemma_least_loaded_is_unique(lens: Seq<nat>, eligible: nat, g: int, h: int)
    requires
        is_least_loaded(lens, eligible, g),
        is_least_loaded(lens, eligible, h),
    ensures
        g == h,
{
}

/// A vehicle that may not take the carpooling lane is never sent to the
/// last gate, and every vehicle is sent to a gate that it may use.
pub proof fn lemma_placement_is_eligible(lens: Seq<nat>, carpooling: bool)
    requires
        lens.len() >= 2,
    ensures
        0 <= placement(lens, carpooling) < eligible_count(lens.len(), carpooling),
        !carpooling ==> placement(lens, carpooling) != lens.len() - 1,
{
    let eligible = eligible_count(lens.len(), carpooling);
    if !all_idle(lens, eligible) {
        lemma_least_loaded_exists(lens, eligible);
        let busy = least_loaded(lens, eligible);
        if lens[busy] >= CONGESTION_THRESHOLD && some_idle(lens, eligible) {
            lemma_first_idle_exists(lens, eligible);
        }
    }
}

/// Where nobody waits at any gate that the vehicle may use, it is sent to
/// the first gate.
pub proof fn lemma_all_idle_picks_first(lens: Seq<nat>, carpooling: bool)
    requires
        all_idle(lens, eligible_count(lens.len(), carpooling)),
    ensures
        placement(lens, carpooling) == 0,
{
}

/// A least loaded gate that is not congested is picked, whether or not
/// another gate is idle.
pub proof fn lemma_uncongested_picks_least_loaded(lens: Seq<nat>, carpooling: bool, g: int)
    requires
        is_least_loaded(lens, eligible_count(lens.len(), carpooling), g),
        lens[g] < CONGESTION_THRESHOLD,
    ensures
        placement(lens, carpooling) == g,
{
    let eligible = eligible_count(lens.len(), carpooling);
    assert(!all_idle(lens, eligible));
    lemma_least_loaded_is_unique(lens, eligible, g, least_loaded(lens, eligible));
}

/// Where the least loaded gate is congested and a gate is idle, the first
/// idle gate is picked.
pub proof fn lemma_congested_picks_idle(lens: Seq<nat>, carpooling: bool, g: int, idle: int)
    requires
        is_least_loaded(lens, eligible_count(lens.len(), carpooling), g),
        lens[g] >= CONGESTION_THRESHOLD,
        is_first_idle(lens, eligible_count(lens.len(), carpooling), idle),
    ensures
        placement(lens, carpooling) == idle,
{
    let eligible = eligible_count(lens.len(), carpooling);
    assert(!all_idle(lens, eligible));
    assert(some_idle(lens, eligible));
    lemma_least_loaded_is_unique(lens, eligible, g, least_loaded(lens, eligible));
    lemma_first_idle_is_unique(lens, eligible, idle, first_idle(lens, eligible));
}

/// Where the least loaded gate is congested and no gate is idle, the least
/// loaded gate is picked all the same.
pub proof fn lemma_congested_without_idle_picks_least_loaded(
    lens: Seq<nat>,
    carpooling: bool,
    g: int,
)
    requires
        is_least_loaded(lens, eligible_count(lens.len(), carpooling), g),
        !some_idle(lens, eligible_count(lens.len(), carpooling)),
    ensures
        placement(lens, carpooling) == g,
{
    let eligible = eligible_count(lens.len(), carpooling);
    assert(!all_idle(lens, eligible));
    lemma_least_loaded_is_unique(lens, eligible, g, least_loaded(lens, eligible));
}

/// Where somebody waits at one of the first `eligible` gates, one of them
/// is the least loaded.
pub proof fn lemma_least_loaded_exists(lens: Seq<nat>, eligible: nat)
    requires
        !all_idle(lens, eligible),
    ensures
        is_least_loaded(lens, eligible, least_loaded(lens, eligible)),
    decreases eligible,
{
    let j = choose|j: int| 0 <= j < eligible && lens[j] != 0;
    let shorter = (eligible - 1) as nat;
    if all_idle(lens, shorter) {
        assert(j == eligible - 1);
        assert(is_least_loaded(lens, eligible, eligible - 1));
    } else {
        lemma_least_loaded_exists(lens, shorter);
        let g = least_loaded(lens, shorter);
        if lens[eligible - 1] > 0 && lens[eligible - 1] < lens[g] {
            assert(is_least_loaded(lens, eligible, eligible - 1));
        } else {
            assert(is_least_loaded(lens, eligible, g));
        }
    }
}

/// Where nobody waits at one of the first `eligible` gates, one of them is
/// the first such.
pub proof fn lemma_first_idle_exists(lens: Seq<nat>, eligible: nat)
    requires
        some_idle(lens, eligible),
    ensures
        is_first_idle(lens, eligible, first_idle(lens, eligible)),
    decreases eligible,
{
    let j = choose|j: int| 0 <= j < eligible && lens[j] == 0;
    let shorter = (eligible - 1) as nat;
    if some_idle(lens, shorter) {
        lemma_first_idle_exists(lens, shorter);
        assert(is_first_idle(lens, eligible, first_idle(lens, shorter)));
    } else {
        assert(j == eligible - 1);
        assert(is_first_idle(lens, eligible, eligible - 1));
    }
}

/// The plaza.
#[derive(Debug)]
pub struct Toll {
    /// The gates. The last one is the carpooling lane.
    pub gates: Vec<Gate>,
    /// The clock of the simulation.
    pub clock: TollClock,
    /// The name of the store in which departures are recorded, if they are.
    pub logger: Option<String>,
}

impl Toll {
    /// There are two gates at least, so that one can be kept for carpooling;
    /// the clock runs; and every gate is in order.
    pub open spec fn wf(self) -> bool {
        &&& self.gates@.len() >= 2
        &&& self.clock.acceleration_factor > 0
        &&& forall|i: int| 0 <= i < self.gates@.len() ==> (#[trigger] self.gates@[i]).wf()
    }

    /// How many vehicles wait at each gate.
    pub open spec fn queue_lengths(self) -> Seq<nat> {
        Seq::new(self.gates@.len(), |i: int| self.gates@[i]@.len())
    }

    /// `after` is this plaza once `vehicle` has been put at the end of the
    /// queue of gate `g`, with the clock `arrival`. Nothing else differs.
    pub open spec fn admits(
        self,
        after: Toll,
        vehicle: Vehicle,
        arrival: TollClock,
        g: int,
    ) -> bool {
        &&& 0 <= g < self.gates@.len()
        &&& after.gates@.len() == self.gates@.len()
        &&& after.gates@[g]@ == self.gates@[g]@.push(WaitingVehicle { vehicle, arrival })
        &&& after.gates@[g].logging == self.gates@[g].logging
        &&& forall|i: int| 0 <= i < self.gates@.len() && i != g ==> after.gates@[i] == self.gates@[i]
        &&& after.clock == self.clock
        &&& after.logger == self.logger
    }

    /// The lane for a vehicle that comes now: see [`placement`].
    pub fn choose_gate(&self, carpooling: bool) -> (g: usize)
        requires
            self.gates@.len() >= 2,
        ensures
            g == placement(self.queue_lengths(), carpooling),
            g < eligible_count(self.gates@.len(), carpooling),
    {
        let ghost lens = self.queue_lengths();
        let eligible: usize = if carpooling {
            self.gates.len()
        } else {
            self.gates.len() - 1
        };
        let mut busy: Option<usize> = None;
        let mut shortest: usize = 0;
        let mut idle: Option<usize> = None;
        let mut i: usize = 0;
        while i < eligible
            invariant
                i <= eligible,
                eligible <= self.gates@.len(),
                lens == self.queue_lengths(),
                busy.is_none() ==> all_idle(lens, i as nat),
                busy matches Some(b) ==> is_least_loaded(lens, i as nat, b as int) && shortest
                    == lens[b as int],
                idle.is_none() ==> !some_idle(lens, i as nat),
                idle matches Some(k) ==> is_first_idle(lens, i as nat, k as int),
            decreases eligible - i,
        {
            let len: usize = self.gates[i].nb_cars();
            assert(lens[i as int] == len);
            if len == 0 {
                if idle.is_none() {
                    idle = Some(i);
                }
            } else {
                match busy {
                    None => {
                        busy = Some(i);
                        shortest = len;
                    },
                    Some(_) => {
                        if len < shortest {
                            busy = Some(i);
                            shortest = len;
                        }
                    },
                }
            }
            i += 1;
        }
        proof {
            assert(eligible == eligible_count(lens.len(), carpooling));
        }
        match busy {
            None => 0,
            Some(b) => {
                proof {
                    assert(!all_idle(lens, eligible as nat));
                    lemma_least_loaded_exists(lens, eligible as nat);
                    lemma_least_loaded_is_unique(
                        lens,
                        eligible as nat,
                        b as int,
                        least_loaded(lens, eligible as nat),
                    );
                }
                if shortest < CONGESTION_THRESHOLD {
                    b
                } else {
                    match idle {
                        None => b,
                        Some(k) => {
                            proof {
                                assert(some_idle(lens, eligible as nat));
                                lemma_first_idle_exists(lens, eligible as nat);
                                lemma_first_idle_is_unique(
                                    lens,
                                    eligible as nat,
                                    k as int,
                                    first_idle(lens, eligible as nat),
                                );
                            }
                            k
                        },
                    }
                }
            },
        }
    }

    /// Admits `vehicle` with the clock `arrival`: it goes to the end of the
    /// queue of the lane that [`placement`] names, which is handed back.
    pub fn place(&mut self, vehicle: Vehicle, arrival: TollClock) -> (g: usize)
        requires
            old(self).wf(),
            arrival.acceleration_factor > 0,
        ensures
            g == placement(old(self).queue_lengths(), vehicle.spec_carpooling()),
            old(self).admits(*final(self), vehicle, arrival, g as int),
            final(self).wf(),
    {
        let g: usize = self.choose_gate(vehicle.carpooling());
        self.gates[g].enqueue(vehicle, arrival);
        g
    }

    /// Admits `vehicle` now: it is stamped with the clock brought up to the
    /// present and goes to the end of the queue of the lane that
    /// [`placement`] names, which is handed back so that its worker can be
    /// woken. The plaza's own clock is left as it is.
    pub fn add_vehicle(&mut self, vehicle: Vehicle) -> (g: usize)
        requires
            old(self).wf(),
        ensures
            g == placement(old(self).queue_lengths(), vehicle.spec_carpooling()),
            exists|elapsed: Span, arrival: TollClock|
                elapsed.wf() && #[trigger] old(self).clock.advanced(elapsed, arrival) && old(self).admits(*final(self), vehicle, arrival, g as int),
            final(self).wf(),
    {
        let mut arrival: TollClock = self.clock.clone();
        arrival.update();
        let ghost stamp = arrival;
        let ghost elapsed = choose|elapsed: Span|
            elapsed.wf() && #[trigger] self.clock.advanced(elapsed, stamp);
        let g: usize = self.place(vehicle, arrival);
        assert(old(self).clock.advanced(elapsed, stamp) && old(self).admits(
            *self,
            vehicle,
            stamp,
            g as int,
        ));
        g
    }

    /// Whether the plaza is in order: see [`Toll::wf`].
    pub fn is_valid(&self) -> (r: bool)
        ensures
            r == self.wf(),
    {
        if self.gates.len() < 2 || self.clock.acceleration_factor == 0 {
            return false;
        }
        let mut i: usize = 0;
        while i < self.gates.len()
            invariant
                i <= self.gates@.len(),
                forall|k: int| 0 <= k < i ==> (#[trigger] self.gates@[k]).wf(),
            decreases self.gates@.len() - i,
        {
            if !self.gates[i].is_valid() {
                return false;
            }
            i += 1;
        }
        true
    }
}

/// How many vehicles come in a million seconds, for each hour of the day.
pub open spec fn arrival_rates() -> Seq<u32> {
    seq![
        12_500u32,
        10_000u32,
        9_090u32,
        12_500u32,
        12_500u32,
        14_285u32,
        33_333u32,
        66_666u32,
        232_558u32,
        200_000u32,
        50_000u32,
        40_000u32,
        40_000u32,
        33_333u32,
        28_571u32,
        40_000u32,
        100_000u32,
        250_000u32,
        100_000u32,
        33_333u32,
        25_000u32,
        20_000u32,
        16_666u32,
        14_285u32,
    ]
}

/// How many vehicles come in a million seconds during the hour `hour` of
/// the day.
pub fn arrival_rate(hour: u32) -> (r: u32)
    requires
        hour < 24,
    ensures
        r == arrival_rates()[hour as int],
        r > 0,
{
    let rates: [u32; 24] = [
        12_500,
        10_000,
        9_090,
        12_500,
        12_500,
        14_285,
        33_333,
        66_666,
        232_558,
        200_000,
        50_000,
        40_000,
        40_000,
        33_333,
        28_571,
        40_000,
        100_000,
        250_000,
        100_000,
        33_333,
        25_000,
        20_000,
        16_666,
        14_285,
    ];
    assert(rates@ =~= arrival_rates());
    rates[hour as usize]
}

/// The classes of the vehicles in `queue`, one digit each, the first to be
/// served in front.
pub open spec fn classes_text(queue: Seq<WaitingVehicle>) -> Seq<char>
    decreases queue.len(),
{
    if queue.len() == 0 {
        Seq::<char>::empty()
    } else {
        classes_text(queue.drop_last()) + decimal(queue.last().vehicle.type_.spec_code())
    }
}

/// The line that shows gate `index`: its number, a bar, then `X` where
/// nobody waits and else the classes of those who do.
pub open spec fn gate_text(index: nat, queue: Seq<WaitingVehicle>) -> Seq<char> {
    let waiting = if queue.len() == 0 {
        "X"@
    } else {
        classes_text(queue)
    };
    decimal(index) + " | "@ + waiting + "\n"@
}

/// The lines that show `gates`, in their order.
pub open spec fn gates_text(gates: Seq<Gate>) -> Seq<char>
    decreases gates.len(),
{
    if gates.len() == 0 {
        Seq::<char>::empty()
    } else {
        gates_text(gates.drop_last()) + gate_text((gates.len() - 1) as nat, gates.last()@)
    }
}

impl Toll {
    /// The text of [`Toll::to_string`].
    pub open spec fn display_text(self) -> Seq<char> {
        self.clock.clock.display_text() + gates_text(self.gates@)
    }

    /// A builder with no gates, the default clock and no store.
    pub fn builder() -> (r: TollBuilder)
        ensures
            r.gate_count() == 0,
            r.start().acceleration_factor == 10,
            r.start().clock == (SimpleTime { day: 0, hour: 7, minute: 0, second: 0 }),
            r.store().is_none(),
    {
        TollBuilder::default()
    }

    /// How many vehicles come in a million seconds at the hour that the
    /// clock showed at its last update.
    pub fn arrival_rate(&self) -> (r: u32)
        requires
            self.clock.clock.hour < 24,
        ensures
            r == arrival_rates()[self.clock.clock.hour as int],
            r > 0,
    {
        arrival_rate(self.clock.clock.hour)
    }

    /// How many vehicles come in a million seconds at the hour that the
    /// clock shows at present.
    pub fn arrival_rate_now(&self) -> (r: u32)
        ensures
            exists|elapsed: Span|
                elapsed.wf() && r == arrival_rates()[(#[trigger] self.clock.spec_time_after(
                    elapsed,
                )).hour as int],
            r > 0,
    {
        let now: SimpleTime = self.clock.now();
        let ghost elapsed = choose|elapsed: Span|
            elapsed.wf() && now == #[trigger] self.clock.spec_time_after(elapsed);
        let r: u32 = arrival_rate(now.hour);
        assert(elapsed.wf() && r == arrival_rates()[self.clock.spec_time_after(elapsed).hour as int]);
        r
    }

    /// The plaza for a reader: the time at the clock's last update, then a
    /// line for each gate.
    pub fn to_string(&self) -> (r: String)
        ensures
            r@ == self.display_text(),
    {
        let mut out: String = self.clock.clock.to_string();
        let ghost head = out@;
        let n: usize = self.gates.len();
        let mut i: usize = 0;
        while i < n
            invariant
                i <= n,
                n == self.gates@.len(),
                head == self.clock.clock.display_text(),
                out@ == head + gates_text(self.gates@.take(i as int)),
            decreases n - i,
        {
            let ghost before = out@;
            let gate: &Gate = &self.gates[i];
            push_decimal(&mut out, i as u64);
            out.append(" | ");
            let ghost line_start = out@;
            if gate.empty() {
                out.append("X");
            }
            let m: usize = gate.nb_cars();
            let mut j: usize = 0;
            while j < m
                invariant
                    j <= m,
                    m == gate@.len(),
                    out@ == line_start + (if m == 0 {
                        "X"@
                    } else {
                        classes_text(gate@.take(j as int))
                    }),
                decreases m - j,
            {
                let code: usize = gate.queue[j].vehicle.type_num();
                push_decimal(&mut out, code as u64);
                proof {
                    assert(gate@.take(j + 1).drop_last() =~= gate@.take(j as int));
                    assert(gate@.take(j + 1).last() == gate@[j as int]);
                    assert(line_start + classes_text(gate@.take(j as int)) + decimal(
                        code as nat,
                    ) =~= line_start + classes_text(gate@.take(j + 1)));
                }
                j += 1;
            }
            out.append("\n");
            proof {
                assert(gate@.take(m as int) =~= gate@);
                assert(self.gates@.take(i + 1).drop_last() =~= self.gates@.take(i as int));
                assert(self.gates@.take(i + 1).last() == self.gates@[i as int]);
                assert(out@ =~= before + gate_text(i as nat, gate@));
                assert(out@ =~= head + gates_text(self.gates@.take(i + 1)));
            }
            i += 1;
        }
        assert(self.gates@.take(n as int) =~= self.gates@);
        out
    }
}

/// Why a plaza cannot be built.
#[derive(Clone, Copy, Debug, PartialEq, Eq, Structural)]
pub enum ConfigError {
    /// No gate was asked for.
    NoGates,
    /// One gate was asked for, and one is kept for carpooling.
    TooFewGates,
    /// The clock would stand still.
    ZeroAcceleration,
}

/// What a plaza is built from.
pub struct TollBuilder {
    nb_gates: usize,
    clock: TollClock,
    logger_name: Option<String>,
}

/// The characters of a name, if there is one.
pub open spec fn name_text(name: Option<String>) -> Option<Seq<char>> {
    match name {
        Some(text) => Some(text@),
        None => None,
    }
}

impl Default for TollBuilder {
    /// No gates, the default clock and no store.
    fn default() -> (r: Self)
        ensures
            r.gate_count() == 0,
            r.start().acceleration_factor == 10,
            r.start().clock == (SimpleTime { day: 0, hour: 7, minute: 0, second: 0 }),
            r.store().is_none(),
    {
        TollBuilder { nb_gates: 0, clock: TollClock::default(), logger_name: None }
    }
}

impl TollBuilder {
    /// How many gates the plaza will have.
    pub closed spec fn gate_count(self) -> nat {
        self.nb_gates as nat
    }

    /// The clock that the plaza will start with.
    pub closed spec fn start(self) -> TollClock {
        self.clock
    }

    /// The name of the store in which departures will be recorded, if they
    /// will be.
    pub closed spec fn store(self) -> Option<Seq<char>> {
        name_text(self.logger_name)
    }

    /// What is wrong with the plaza that was asked for, if anything: the
    /// number of gates is looked at first.
    pub open spec fn fault(self) -> Option<ConfigError> {
        if self.gate_count() == 0 {
            Some(ConfigError::NoGates)
        } else if self.gate_count() == 1 {
            Some(ConfigError::TooFewGates)
        } else if self.start().acceleration_factor == 0 {
            Some(ConfigError::ZeroAcceleration)
        } else {
            None
        }
    }

    /// `toll` is the plaza that was asked for: as many gates, nobody
    /// waiting at any of them, a log kept at each if a store was named, and
    /// the clock and the store's name as they were given.
    pub open spec fn builds(self, toll: Toll) -> bool {
        &&& toll.gates@.len() == self.gate_count()
        &&& forall|i: int|
            0 <= i < toll.gates@.len() ==> (#[trigger] toll.gates@[i])@.len() == 0
                && toll.gates@[i].logging == self.store().is_some()
        &&& toll.clock == self.start()
        &&& name_text(toll.logger) == self.store()
    }

    /// Sets the number of gates.
    pub fn nb_gates(self, nb_gates: usize) -> (r: Self)
        ensures
            r.gate_count() == nb_gates,
            r.start() == self.start(),
            r.store() == self.store(),
    {
        TollBuilder { nb_gates, clock: self.clock, logger_name: self.logger_name }
    }

    /// Sets the clock that the plaza starts with, its acceleration factor
    /// included.
    pub fn start_hour(self, hour: TollClock) -> (r: Self)
        ensures
            r.gate_count() == self.gate_count(),
            r.start() == hour,
            r.store() == self.store(),
    {
        TollBuilder { nb_gates: self.nb_gates, clock: hour, logger_name: self.logger_name }
    }

    /// Sets how many simulated seconds pass in one real second.
    pub fn acceleration_factor(self, factor: u32) -> (r: Self)
        ensures
            r.gate_count() == self.gate_count(),
            r.start().acceleration_factor == factor,
            r.start().clock == self.start().clock,
            r.start().last_tick == self.start().last_tick,
            r.store() == self.store(),
    {
        let clock: TollClock = TollClock {
            acceleration_factor: factor,
            clock: self.clock.clock,
            last_tick: self.clock.last_tick,
        };
        TollBuilder { nb_gates: self.nb_gates, clock, logger_name: self.logger_name }
    }

    /// Has the departures recorded in the store that `name` stands for:
    /// see [`spec_store_name`]. The name asked for last counts.
    pub fn set_logger(self, name: &str) -> (r: Self)
        ensures
            r.gate_count() == self.gate_count(),
            r.start() == self.start(),
            r.store() == Some(spec_store_name(name@)),
    {
        TollBuilder {
            nb_gates: self.nb_gates,
            clock: self.clock,
            logger_name: Some(store_name(name)),
        }
    }

    /// Builds the plaza, or says what is wrong with it: no gates, one gate
    /// only, or a clock that would stand still.
    pub fn build(self) -> (r: Result<Toll, ConfigError>)
        ensures
            self.fault() matches Some(error) ==> r == Err::<Toll, ConfigError>(error),
            self.fault().is_none() ==> (r matches Ok(toll) && self.builds(toll) && toll.wf()),
    {
        if self.nb_gates == 0 {
            return Err(ConfigError::NoGates);
        }
        if self.nb_gates == 1 {
            return Err(ConfigError::TooFewGates);
        }
        if self.clock.acceleration_factor == 0 {
            return Err(ConfigError::ZeroAcceleration);
        }
        let logging: bool = self.logger_name.is_some();
        let mut gates: Vec<Gate> = Vec::new();
        let mut i: usize = 0;
        while i < self.nb_gates
            invariant
                i <= self.nb_gates,
                gates@.len() == i,
                forall|k: int|
                    0 <= k < gates@.len() ==> (#[trigger] gates@[k])@.len() == 0
                        && gates@[k].logging == logging,
            decreases self.nb_gates - i,
        {
            let mut gate: Gate = Gate::new();
            gate.logging = logging;
            gates.push(gate);
            i += 1;
        }
        Ok(Toll { gates, clock: self.clock, logger: self.logger_name })
    }
}

} // verus!
