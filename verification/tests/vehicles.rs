use rand::rngs::StdRng;
use rand::SeedableRng;
use toll_plaza::span::Span;
use toll_plaza::vehicle::{PaymentMean, Vehicle, VehicleType};

fn light(extra: u64, low_carbon: bool, taxi: bool, mean: PaymentMean) -> Vehicle {
    Vehicle::assemble(VehicleType::Light, extra, low_carbon, taxi, mean, 60)
}

#[test]
fn class_numbers() {
    assert_eq!(VehicleType::Light.code(), 0);
    assert_eq!(VehicleType::Medium.code(), 1);
    assert_eq!(VehicleType::Truck.code(), 2);
    assert_eq!(VehicleType::HeavyTruck.code(), 3);
    assert_eq!(VehicleType::Motorcycle.code(), 4);
}

#[test]
fn class_from_its_number() {
    let mut i: usize = 0;
    while i < 5 {
        assert_eq!(VehicleType::from_index(i).code(), i);
        i += 1;
    }
    assert_eq!(VehicleType::from_index(3), VehicleType::HeavyTruck);
}

#[test]
fn small_classes_and_their_mean_distance() {
    assert!(VehicleType::Light.is_small());
    assert!(VehicleType::Motorcycle.is_small());
    assert!(!VehicleType::Medium.is_small());
    assert!(!VehicleType::Truck.is_small());
    assert!(!VehicleType::HeavyTruck.is_small());
    assert_eq!(VehicleType::Light.mean_kilometres(), 60);
    assert_eq!(VehicleType::Motorcycle.mean_kilometres(), 60);
    assert_eq!(VehicleType::Truck.mean_kilometres(), 76);
}

#[test]
fn payment_numbers() {
    assert_eq!(PaymentMean::Cash.code(), 0);
    assert_eq!(PaymentMean::Toll.code(), 1);
}

#[test]
fn badge_share_by_class() {
    assert_eq!(PaymentMean::toll_percent(&VehicleType::Light), 52);
    assert_eq!(PaymentMean::toll_percent(&VehicleType::Motorcycle), 52);
    assert_eq!(PaymentMean::toll_percent(&VehicleType::Medium), 94);
    assert_eq!(PaymentMean::toll_percent(&VehicleType::Truck), 94);
    assert_eq!(PaymentMean::toll_percent(&VehicleType::HeavyTruck), 94);
}

#[test]
fn payment_from_a_draw() {
    assert_eq!(PaymentMean::from_draw(true), PaymentMean::Toll);
    assert_eq!(PaymentMean::from_draw(false), PaymentMean::Cash);
}

#[test]
fn sampled_classes_follow_their_shares() {
    let mut rng = StdRng::seed_from_u64(1);
    let mut counts: [u32; 5] = [0; 5];
    let mut i: u32 = 0;
    while i < 20_000 {
        let code: usize = VehicleType::sample(&mut rng).code();
        assert!(code < 5);
        counts[code] += 1;
        i += 1;
    }
    assert!(counts[0] > 14_000 && counts[0] < 18_000);
    assert!(counts[1] > 1_000 && counts[1] < 3_000);
    assert!(counts[2] > 400 && counts[2] < 1_600);
    assert!(counts[3] > 300 && counts[3] < 1_400);
    assert!(counts[4] > 20 && counts[4] < 600);
}

#[test]
fn sampled_payment_follows_the_share_of_the_class() {
    let mut rng = StdRng::seed_from_u64(2);
    let mut small: u32 = 0;
    let mut large: u32 = 0;
    let mut i: u32 = 0;
    while i < 10_000 {
        if PaymentMean::rand_from_vehicle_type(&mut rng, &VehicleType::Light) == PaymentMean::Toll {
            small += 1;
        }
        if PaymentMean::rand_from_vehicle_type(&mut rng, &VehicleType::Truck) == PaymentMean::Toll {
            large += 1;
        }
        i += 1;
    }
    assert!(small > 4_200 && small < 6_200);
    assert!(large > 8_800 && large < 9_900);
}

#[test]
fn assemble_counts_the_driver() {
    let v = light(0, false, false, PaymentMean::Cash);
    assert_eq!(v.nb_passengers, 1);
    assert_eq!(light(1, false, false, PaymentMean::Cash).nb_passengers, 2);
    assert_eq!(light(6, false, false, PaymentMean::Cash).nb_passengers, 7);
}

#[test]
fn assemble_carries_eight_people_at_most() {
    assert_eq!(light(7, false, false, PaymentMean::Cash).nb_passengers, 8);
    assert_eq!(light(8, false, false, PaymentMean::Cash).nb_passengers, 8);
    assert_eq!(light(255, false, false, PaymentMean::Cash).nb_passengers, 8);
    assert_eq!(light(u64::MAX, false, false, PaymentMean::Cash).nb_passengers, 8);
}

#[test]
fn assemble_keeps_what_it_is_given() {
    let v = Vehicle::assemble(VehicleType::Light, 2, true, true, PaymentMean::Toll, 73);
    assert_eq!(
        v,
        Vehicle {
            nb_passengers: 3,
            taxi: true,
            low_carbon: true,
            payment_mean: PaymentMean::Toll,
            type_: VehicleType::Light,
            nb_kilometres: 73,
        }
    );
}

#[test]
fn assemble_gives_only_light_vehicles_passengers_and_labels() {
    let v = Vehicle::assemble(VehicleType::Truck, 5, true, true, PaymentMean::Toll, 80);
    assert_eq!(v.nb_passengers, 1);
    assert!(!v.taxi);
    assert!(!v.low_carbon);
    assert!(!v.carpooling());
    assert_eq!(v.type_num(), 2);
    assert_eq!(v.nb_kilometres, 80);
    let m = Vehicle::assemble(VehicleType::Motorcycle, 3, true, true, PaymentMean::Cash, 10);
    assert_eq!(m.nb_passengers, 1);
    assert!(!m.carpooling());
}

#[test]
fn carpooling_needs_company_a_taxi_or_low_carbon() {
    assert!(!light(0, false, false, PaymentMean::Cash).carpooling());
    assert!(light(1, false, false, PaymentMean::Cash).carpooling());
    assert!(light(0, true, false, PaymentMean::Cash).carpooling());
    assert!(light(0, false, true, PaymentMean::Cash).carpooling());
}

#[test]
fn type_num_is_the_class_number() {
    assert_eq!(light(0, false, false, PaymentMean::Cash).type_num(), 0);
    let v = Vehicle::assemble(VehicleType::Motorcycle, 0, false, false, PaymentMean::Cash, 1);
    assert_eq!(v.type_num(), 4);
}

#[test]
fn cash_payment_takes_the_draw() {
    let v = light(0, false, false, PaymentMean::Cash);
    assert_eq!(v.payment_duration(61), Span::from_secs(61));
    assert_eq!(v.payment_duration(30), Span::from_secs(30));
    assert_eq!(v.payment_duration(u64::MAX), Span::from_secs(u64::MAX));
}

#[test]
fn cash_payment_never_takes_less_than_thirty_seconds() {
    let v = light(0, false, false, PaymentMean::Cash);
    assert_eq!(v.payment_duration(0), Span::from_secs(30));
    assert_eq!(v.payment_duration(29), Span::from_secs(30));
}

#[test]
fn toll_payment_takes_half_the_time() {
    let v = light(0, false, false, PaymentMean::Toll);
    assert_eq!(v.payment_duration(60), Span::from_secs(30));
    assert_eq!(v.payment_duration(61), Span { secs: 30, nanos: 500_000_000 });
    assert_eq!(
        v.payment_duration(u64::MAX),
        Span { secs: u64::MAX / 2, nanos: 500_000_000 }
    );
}

#[test]
fn toll_payment_never_takes_less_than_fifteen_seconds() {
    let v = light(0, false, false, PaymentMean::Toll);
    assert_eq!(v.payment_duration(0), Span::from_secs(15));
    assert_eq!(v.payment_duration(29), Span::from_secs(15));
    assert_eq!(v.payment_duration(30), Span::from_secs(15));
}

#[test]
fn toll_is_half_of_cash_on_every_draw() {
    let cash = light(0, false, false, PaymentMean::Cash);
    let toll = light(0, false, false, PaymentMean::Toll);
    let mut draw: u64 = 0;
    while draw < 200 {
        let c = cash.payment_duration(draw);
        let t = toll.payment_duration(draw);
        let c_nanos: u128 = (c.secs as u128) * 1_000_000_000 + c.nanos as u128;
        let t_nanos: u128 = (t.secs as u128) * 1_000_000_000 + t.nanos as u128;
        assert_eq!(2 * t_nanos, c_nanos);
        assert!(c_nanos >= 30_000_000_000);
        assert!(t_nanos >= 15_000_000_000);
        draw += 1;
    }
}

#[test]
fn sampled_vehicles_keep_the_rules() {
    let mut rng = StdRng::seed_from_u64(3);
    let mut i: u64 = 0;
    while i < 2_000 {
        let vtype = VehicleType::sample(&mut rng);
        let v = Vehicle::sample(&mut rng, vtype, i % 11, 60 + (i % 7) as u32);
        assert_eq!(v.type_, vtype);
        assert_eq!(v.nb_kilometres, 60 + (i % 7) as u32);
        assert!(v.nb_passengers >= 1 && v.nb_passengers <= 8);
        if vtype == VehicleType::Light {
            let expected: u64 = if i % 11 >= 7 { 8 } else { i % 11 + 1 };
            assert_eq!(v.nb_passengers as u64, expected);
        } else {
            assert_eq!(v.nb_passengers, 1);
            assert!(!v.taxi);
            assert!(!v.low_carbon);
            assert!(!v.carpooling());
        }
        i += 1;
    }
}

#[test]
fn sampled_light_vehicles_are_seldom_taxis_or_low_carbon() {
    let mut rng = StdRng::seed_from_u64(4);
    let mut taxis: u32 = 0;
    let mut clean: u32 = 0;
    let mut i: u32 = 0;
    while i < 20_000 {
        let v = Vehicle::sample(&mut rng, VehicleType::Light, 0, 60);
        if v.taxi {
            taxis += 1;
        }
        if v.low_carbon {
            clean += 1;
        }
        i += 1;
    }
    assert!(taxis > 600 && taxis < 1_500);
    assert!(clean > 60 && clean < 450);
}
