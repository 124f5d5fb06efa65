//! Vehicles: their class, their means of payment, and what the plaza needs
//! to know of each one.

use crate::span::Span;
use rand::distributions::{Bernoulli, Distribution, WeightedIndex};
use rand::rngs::StdRng;
use vstd::prelude::*;

verus! {

/// `rand::rngs::StdRng`, a random number generator that runs from its seed
/// alone. Nothing is known of what it holds.
#[verifier::external_type_specification]
#[verifier::external_body]
pub struct ExStdRng(StdRng);

/// The sum of `weights`.
pub open spec fn total_weight(weights: Seq<i32>) -> int
    decreases weights.len(),
{
    if weights.len() == 0 {
        0
    } else {
        total_weight(weights.drop_last()) + weights.last()
    }
}

/// `WeightedIndex::new` on `weights`, then `sample`: an index into `weights`
/// drawn at random, each with a chance in proportion to its weight. The
/// constructor fails on no weight, on a negative one and on a sum of zero,
/// and adds the weights up in an `i32`: all that is kept out. Of the index
/// only its range is claimed.
#[verifier::external_body]
fn draw_weighted_index(rng: &mut StdRng, weights: &Vec<i32>) -> (index: usize)
    requires
        weights@.len() > 0,
        forall|k: int| 0 <= k < weights@.len() ==> weights@[k] >= 0,
        0 < total_weight(weights@) <= i32::MAX,
    ensures
        index < weights@.len(),
{
    WeightedIndex::new(weights).unwrap().sample(rng)
}

/// `Bernoulli::from_ratio`, then `sample`: `true` with a chance of
/// `numerator` in `denominator`. The constructor fails where the numerator
/// is the larger or the denominator is zero: that is kept out. A chance of
/// zero always gives `false`, a sure one always `true`; nothing else is
/// claimed of the draw.
#[verifier::external_body]
fn draw_ratio(rng: &mut StdRng, numerator: u32, denominator: u32) -> (hit: bool)
    requires
        numerator <= denominator,
        denominator > 0,
    ensures
        numerator == 0 ==> !hit,
        numerator == denominator ==> hit,
{
    Bernoulli::from_ratio(numerator, denominator).unwrap().sample(rng)
}

/// The class of a vehicle, from the lightest tariff to motorcycles.
#[derive(Clone, Copy, Debug, PartialEq, Eq, Structural)]
pub enum VehicleType {
    Light,
    Medium,
    Truck,
    HeavyTruck,
    Motorcycle,
}

impl VehicleType {
    /// The number of the class: 0 light, 1 medium, 2 truck, 3 heavy truck,
    /// 4 motorcycle.
    pub open spec fn spec_code(self) -> nat {
        match self {
            VehicleType::Light => 0,
            VehicleType::Medium => 1,
            VehicleType::Truck => 2,
            VehicleType::HeavyTruck => 3,
            VehicleType::Motorcycle => 4,
        }
    }

    /// The number of the class.
    pub fn code(self) -> (r: usize)
        ensures
            r == self.spec_code(),
            r < 5,
    {
        match self {
            VehicleType::Light => 0,
            VehicleType::Medium => 1,
            VehicleType::Truck => 2,
            VehicleType::HeavyTruck => 3,
            VehicleType::Motorcycle => 4,
        }
    }

    /// The class with the number `index`.
    pub fn from_index(index: usize) -> (r: VehicleType)
        requires
            index < 5,
        ensures
            r.spec_code() == index,
    {
        if index == 0 {
            VehicleType::Light
        } else if index == 1 {
            VehicleType::Medium
        } else if index == 2 {
            VehicleType::Truck
        } else if index == 3 {
            VehicleType::HeavyTruck
        } else {
            VehicleType::Motorcycle
        }
    }

    /// How many vehicles in a hundred are of each class, in the order of the
    /// class numbers.
    pub open spec fn shares() -> Seq<i32> {
        seq![80, 10, 5, 4, 1]
    }

    /// A class drawn at random: 80 light vehicles in a hundred, 10 medium,
    /// 5 trucks, 4 heavy trucks and 1 motorcycle.
    pub fn sample(rng: &mut StdRng) -> (r: VehicleType) {
        let weights: Vec<i32> = vec![80, 10, 5, 4, 1];
        proof {
            let w = weights@;
            assert(w =~= VehicleType::shares());
            let w4 = w.drop_last();
            let w3 = w4.drop_last();
            let w2 = w3.drop_last();
            let w1 = w2.drop_last();
            assert(total_weight(w1.drop_last()) == 0);
            assert(total_weight(w1) == 80);
            assert(total_weight(w2) == 90);
            assert(total_weight(w3) == 95);
            assert(total_weight(w4) == 99);
            assert(total_weight(w) == 100);
        }
        let index: usize = draw_weighted_index(rng, &weights);
        VehicleType::from_index(index)
    }

    /// Whether the class pays the light tariff of the plaza: light vehicles
    /// and motorcycles.
    pub open spec fn spec_is_small(self) -> bool {
        self == VehicleType::Light || self == VehicleType::Motorcycle
    }

    /// Whether the class pays the light tariff of the plaza.
    pub fn is_small(self) -> (r: bool)
        ensures
            r == self.spec_is_small(),
    {
        match self {
            VehicleType::Light => true,
            VehicleType::Motorcycle => true,
            _ => false,
        }
    }

    /// The distance in kilometres that vehicles of the class travel on
    /// average before the plaza: 60 for the small ones, 76 for the others.
    pub fn mean_kilometres(self) -> (r: u32)
        ensures
            r == if self.spec_is_small() { 60u32 } else { 76u32 },
    {
        if self.is_small() {
            60
        } else {
            76
        }
    }
}

/// How a vehicle pays.
#[derive(Clone, Copy, Debug, PartialEq, Eq, Structural)]
pub enum PaymentMean {
    Cash,
    /// Electronic toll collection.
    Toll,
}

impl PaymentMean {
    /// The number of the means of payment: 0 cash, 1 electronic toll.
    pub fn code(self) -> (r: u32)
        ensures
            r == (if self == PaymentMean::Cash { 0u32 } else { 1u32 }),
    {
        match self {
            PaymentMean::Cash => 0,
            PaymentMean::Toll => 1,
        }
    }

    /// How many vehicles of the class in a hundred carry an electronic toll
    /// badge: 52 of the small ones, 94 of the others.
    pub fn toll_percent(vtype: &VehicleType) -> (r: u32)
        ensures
            r == if vtype.spec_is_small() { 52u32 } else { 94u32 },
    {
        if vtype.is_small() {
            52
        } else {
            94
        }
    }

    /// The means of payment of a vehicle that carries a badge, or does not.
    pub fn from_draw(badge: bool) -> (r: PaymentMean)
        ensures
            r == if badge { PaymentMean::Toll } else { PaymentMean::Cash },
    {
        if badge {
            PaymentMean::Toll
        } else {
            PaymentMean::Cash
        }
    }

    /// A means of payment drawn at random for a vehicle of the class
    /// `vtype`, electronic toll with the chance of
    /// [`PaymentMean::toll_percent`].
    pub fn rand_from_vehicle_type(rng: &mut StdRng, vtype: &VehicleType) -> (r: PaymentMean) {
        let percent: u32 = PaymentMean::toll_percent(vtype);
        let badge: bool = draw_ratio(rng, percent, 100);
        PaymentMean::from_draw(badge)
    }
}

/// The shortest time that a payment takes, in seconds.
pub const SHORTEST_PAYMENT_SECS: u64 = 30;

/// The most people that a vehicle is taken to carry.
pub const MOST_PASSENGERS: u8 = 8;

/// A vehicle at the plaza.
#[derive(Clone, Copy, Debug, PartialEq, Eq, Structural)]
pub struct Vehicle {
    /// People on board, the driver among them.
    pub nb_passengers: u8,
    pub taxi: bool,
    /// Whether the vehicle is rated as emitting next to no greenhouse gas.
    pub low_carbon: bool,
    pub payment_mean: PaymentMean,
    pub type_: VehicleType,
    /// The distance travelled before the plaza, in whole kilometres.
    pub nb_kilometres: u32,
}

impl Vehicle {
    /// Someone is on board.
    pub open spec fn wf(self) -> bool {
        self.nb_passengers >= 1
    }

    /// Whether the vehicle may take the carpooling lane: it carries more
    /// than one person, is a taxi, or is rated low carbon.
    pub open spec fn spec_carpooling(self) -> bool {
        self.nb_passengers > 1 || self.taxi || self.low_carbon
    }

    /// The vehicle that the draws describe. Only a light vehicle carries
    /// more than its driver, one person more for each unit of
    /// `extra_passengers` up to [`MOST_PASSENGERS`] in all, and only a light
    /// vehicle is a taxi or low carbon.
    pub open spec fn spec_assemble(
        vtype: VehicleType,
        extra_passengers: u64,
        low_carbon: bool,
        taxi: bool,
        payment_mean: PaymentMean,
        kilometres: u32,
    ) -> Vehicle {
        let light = vtype == VehicleType::Light;
        Vehicle {
            nb_passengers: if !light {
                1u8
            } else if extra_passengers >= 7 {
                8u8
            } else {
                (extra_passengers + 1) as u8
            },
            taxi: light && taxi,
            low_carbon: light && low_carbon,
            payment_mean,
            type_: vtype,
            nb_kilometres: kilometres,
        }
    }

    /// The time that the vehicle takes to pay when `draw_secs` seconds were
    /// drawn for it: the draw, or [`SHORTEST_PAYMENT_SECS`] if that is more,
    /// and half of it with electronic toll.
    pub open spec fn spec_payment_duration(self, draw_secs: u64) -> Span {
        let secs = if draw_secs < SHORTEST_PAYMENT_SECS {
            SHORTEST_PAYMENT_SECS
        } else {
            draw_secs
        };
        match self.payment_mean {
            PaymentMean::Cash => Span { secs, nanos: 0 },
            PaymentMean::Toll => Span::of_nanos((secs as nat) * 1_000_000_000 / 2),
        }
    }

    /// The vehicle that the draws describe: see [`Vehicle::spec_assemble`].
    pub fn assemble(
        vtype: VehicleType,
        extra_passengers: u64,
        low_carbon: bool,
        taxi: bool,
        payment_mean: PaymentMean,
        kilometres: u32,
    ) -> (r: Vehicle)
        ensures
            r == Vehicle::spec_assemble(
                vtype,
                extra_passengers,
                low_carbon,
                taxi,
                payment_mean,
                kilometres,
            ),
            r.wf(),
            r.nb_passengers <= MOST_PASSENGERS,
            vtype != VehicleType::Light ==> !r.spec_carpooling(),
    {
        let light: bool = match vtype {
            VehicleType::Light => true,
            _ => false,
        };
        let nb_passengers: u8 = if !light {
            1
        } else if extra_passengers >= 7 {
            MOST_PASSENGERS
        } else {
            (extra_passengers + 1) as u8
        };
        Vehicle {
            nb_passengers,
            taxi: light && taxi,
            low_carbon: light && low_carbon,
            payment_mean,
            type_: vtype,
            nb_kilometres: kilometres,
        }
    }

    /// A vehicle of the class `vtype` that has travelled `kilometres`, the rest
    /// drawn at random: one light vehicle in a hundred is low carbon, five in
    /// a hundred are taxis, and the means of payment goes by the class.
    /// `extra_passengers` is the draw for the people on board beside the
    /// driver.
    pub fn sample(rng: &mut StdRng, vtype: VehicleType, extra_passengers: u64, kilometres: u32) -> (r:
        Vehicle)
        ensures
            exists|low_carbon: bool, taxi: bool, payment_mean: PaymentMean|
                r == #[trigger] Vehicle::spec_assemble(
                    vtype,
                    extra_passengers,
                    low_carbon,
                    taxi,
                    payment_mean,
                    kilometres,
                ),
            r.wf(),
            r.type_ == vtype,
            r.nb_kilometres == kilometres,
            vtype != VehicleType::Light ==> !r.spec_carpooling(),
    {
        let low_carbon: bool = draw_ratio(rng, 1, 100);
        let taxi: bool = draw_ratio(rng, 5, 100);
        let payment_mean: PaymentMean = PaymentMean::rand_from_vehicle_type(rng, &vtype);
        Vehicle::assemble(vtype, extra_passengers, low_carbon, taxi, payment_mean, kilometres)
    }

    /// Whether the vehicle may take the carpooling lane.
    pub fn carpooling(&self) -> (r: bool)
        ensures
            r == self.spec_carpooling(),
    {
        self.nb_passengers > 1 || self.taxi || self.low_carbon
    }

    /// The time that the vehicle takes to pay when `draw_secs` seconds were
    /// drawn for it.
    pub fn payment_duration(&self, draw_secs: u64) -> (r: Span)
        ensures
            r == self.spec_payment_duration(draw_secs),
            r.wf(),
    {
        let secs: u64 = if draw_secs < SHORTEST_PAYMENT_SECS {
            SHORTEST_PAYMENT_SECS
        } else {
            draw_secs
        };
        let whole: Span = Span::from_secs(secs);
        match self.payment_mean {
            PaymentMean::Cash => whole,
            PaymentMean::Toll => whole.half(),
        }
    }

    /// The number of the vehicle's class.
    pub fn type_num(&self) -> (r: usize)
        ensures
            r == self.type_.spec_code(),
            r < 5,
    {
        self.type_.code()
    }
}

/// On the same draw, a vehicle with electronic toll pays in exactly half the
/// time of one that pays cash; cash never takes less than 30 seconds, and
/// electronic toll never less than 15.
pub proof fn lemma_toll_pays_in_half_the_time(cash: Vehicle, toll: Vehicle, draw_secs: u64)
    requires
        cash.payment_mean == PaymentMean::Cash,
        toll.payment_mean == PaymentMean::Toll,
    ensures
        2 * toll.spec_payment_duration(draw_secs).total_nanos() == cash.spec_payment_duration(
            draw_secs,
        ).total_nanos(),
        cash.spec_payment_duration(draw_secs).total_nanos() >= 30 * 1_000_000_000,
        toll.spec_payment_duration(draw_secs).total_nanos() >= 15 * 1_000_000_000,
        cash.spec_payment_duration(draw_secs).wf(),
        toll.spec_payment_duration(draw_secs).wf(),
{
}

} // verus!
