use std::time::Instant;
use toll_plaza::toll::{arrival_rate, ConfigError, Toll, CONGESTION_THRESHOLD};
use toll_plaza::toll_clock::{SimpleTime, TollClock};
use toll_plaza::vehicle::{PaymentMean, Vehicle, VehicleType};

fn plaza(gates: usize) -> Toll {
    Toll::builder().nb_gates(gates).acceleration_factor(1).build().unwrap()
}

fn solo(kilometres: u32) -> Vehicle {
    Vehicle::assemble(VehicleType::Light, 0, false, false, PaymentMean::Cash, kilometres)
}

fn shared(kilometres: u32) -> Vehicle {
    Vehicle::assemble(VehicleType::Light, 1, false, false, PaymentMean::Cash, kilometres)
}

fn stamp() -> TollClock {
    TollClock {
        acceleration_factor: 1,
        clock: SimpleTime { day: 0, hour: 7, minute: 0, second: 0 },
        last_tick: Instant::now(),
    }
}

fn fill(toll: &mut Toll, lens: &[usize]) {
    let mut g: usize = 0;
    while g < lens.len() {
        let mut k: usize = 0;
        while k < lens[g] {
            toll.gates[g].enqueue(solo(0), stamp());
            k += 1;
        }
        g += 1;
    }
}

fn lengths(toll: &Toll) -> Vec<usize> {
    let mut out: Vec<usize> = Vec::new();
    let mut g: usize = 0;
    while g < toll.gates.len() {
        out.push(toll.gates[g].nb_cars());
        g += 1;
    }
    out
}

fn choice(lens: &[usize], carpooling: bool) -> usize {
    let mut toll = plaza(lens.len());
    fill(&mut toll, lens);
    toll.choose_gate(carpooling)
}

#[test]
fn builder_without_gates_is_refused() {
    assert_eq!(Toll::builder().build().err(), Some(ConfigError::NoGates));
    assert_eq!(Toll::builder().nb_gates(0).build().err(), Some(ConfigError::NoGates));
}

#[test]
fn builder_with_one_gate_is_refused() {
    assert_eq!(Toll::builder().nb_gates(1).build().err(), Some(ConfigError::TooFewGates));
}

#[test]
fn builder_with_a_standing_clock_is_refused() {
    let built = Toll::builder().nb_gates(3).acceleration_factor(0).build();
    assert_eq!(built.err(), Some(ConfigError::ZeroAcceleration));
}

#[test]
fn builder_looks_at_the_gates_first() {
    let built = Toll::builder().nb_gates(0).acceleration_factor(0).build();
    assert_eq!(built.err(), Some(ConfigError::NoGates));
    let built = Toll::builder().acceleration_factor(0).nb_gates(1).build();
    assert_eq!(built.err(), Some(ConfigError::TooFewGates));
}

#[test]
fn builder_makes_empty_gates() {
    let toll = Toll::builder().nb_gates(6).build().unwrap();
    assert_eq!(toll.gates.len(), 6);
    assert_eq!(lengths(&toll), vec![0, 0, 0, 0, 0, 0]);
    assert!(toll.gates.iter().all(|g| !g.logging));
    assert_eq!(toll.logger, None);
    assert_eq!(toll.clock.acceleration_factor, 10);
    assert_eq!(toll.clock.clock, SimpleTime { day: 0, hour: 7, minute: 0, second: 0 });
}

#[test]
fn builder_takes_the_number_of_gates_asked_for_last() {
    let toll = Toll::builder().nb_gates(6).nb_gates(2).build().unwrap();
    assert_eq!(toll.gates.len(), 2);
}

#[test]
fn builder_sets_the_factor() {
    let toll = Toll::builder().nb_gates(2).acceleration_factor(60).build().unwrap();
    assert_eq!(toll.clock.acceleration_factor, 60);
    assert_eq!(toll.clock.clock, SimpleTime { day: 0, hour: 7, minute: 0, second: 0 });
}

#[test]
fn builder_sets_the_starting_clock() {
    let clock = TollClock {
        acceleration_factor: 5,
        clock: SimpleTime { day: 2, hour: 17, minute: 30, second: 0 },
        last_tick: Instant::now(),
    };
    let toll = Toll::builder().nb_gates(2).acceleration_factor(60).start_hour(clock).build().unwrap();
    assert_eq!(toll.clock.acceleration_factor, 5);
    assert_eq!(toll.clock.clock, SimpleTime { day: 2, hour: 17, minute: 30, second: 0 });
}

#[test]
fn builder_names_the_store() {
    let toll = Toll::builder().nb_gates(3).set_logger("toll").build().unwrap();
    assert_eq!(toll.logger, Some("toll.sqlite".to_string()));
    assert!(toll.gates.iter().all(|g| g.logging));
    let toll = Toll::builder().nb_gates(3).set_logger("db").set_logger("other.sqlite").build().unwrap();
    assert_eq!(toll.logger, Some("other.sqlite".to_string()));
    let toll = Toll::builder().nb_gates(3).set_logger(":memory:").build().unwrap();
    assert_eq!(toll.logger, Some(":memory:".to_string()));
}

#[test]
fn congestion_starts_at_five() {
    assert_eq!(CONGESTION_THRESHOLD, 5);
}

#[test]
fn idle_plaza_takes_the_first_gate() {
    assert_eq!(choice(&[0, 0, 0], false), 0);
    assert_eq!(choice(&[0, 0, 0], true), 0);
    assert_eq!(choice(&[0, 0], false), 0);
}

#[test]
fn idle_eligible_gates_take_the_first_even_if_the_last_is_busy() {
    assert_eq!(choice(&[0, 0, 3], false), 0);
}

#[test]
fn short_queue_is_taken_before_an_idle_gate() {
    assert_eq!(choice(&[0, 1, 0], false), 1);
    assert_eq!(choice(&[0, 4, 0], true), 1);
    assert_eq!(choice(&[3, 0, 2, 0], true), 2);
    assert_eq!(choice(&[4, 0, 0], false), 0);
}

#[test]
fn first_of_equally_short_queues_is_taken() {
    assert_eq!(choice(&[2, 1, 1, 0], true), 1);
    assert_eq!(choice(&[3, 3, 3], true), 0);
}

#[test]
fn congested_plaza_takes_the_first_idle_gate() {
    assert_eq!(choice(&[5, 0, 0], false), 1);
    assert_eq!(choice(&[6, 5, 0, 0], true), 2);
    assert_eq!(choice(&[9, 0, 7, 0], false), 1);
}

#[test]
fn congested_plaza_without_an_idle_gate_takes_the_shortest_queue() {
    assert_eq!(choice(&[7, 5, 6], true), 1);
    assert_eq!(choice(&[7, 6, 0], false), 1);
    assert_eq!(choice(&[5, 5, 5], false), 0);
}

#[test]
fn last_gate_is_kept_for_carpooling() {
    assert_eq!(choice(&[7, 6, 0], true), 2);
    assert_eq!(choice(&[7, 6, 1], true), 2);
    assert_eq!(choice(&[7, 6, 1], false), 1);
    assert_eq!(choice(&[2, 1], false), 0);
    assert_eq!(choice(&[2, 1], true), 1);
}

#[test]
fn vehicles_alone_never_reach_the_last_gate() {
    let mut toll = plaza(3);
    let mut k: u32 = 0;
    while k < 40 {
        let before = lengths(&toll);
        toll.add_vehicle(solo(k));
        let after = lengths(&toll);
        assert_eq!(after[2], 0);
        assert_eq!(after[0] + after[1], before[0] + before[1] + 1);
        k += 1;
    }
    assert_eq!(lengths(&toll), vec![20, 20, 0]);
}

#[test]
fn place_puts_the_vehicle_at_the_end_of_one_queue() {
    let mut toll = plaza(3);
    fill(&mut toll, &[2, 1, 0]);
    let g: usize = toll.place(solo(77), stamp());
    assert_eq!(g, 1);
    assert_eq!(lengths(&toll), vec![2, 2, 0]);
    assert_eq!(toll.gates[1].queue[1].vehicle, solo(77));
    assert_eq!(toll.gates[1].queue[0].vehicle, solo(0));
    assert_eq!(
        toll.gates[1].queue[1].arrival.clock,
        SimpleTime { day: 0, hour: 7, minute: 0, second: 0 }
    );
}

#[test]
fn add_vehicle_stamps_with_the_present_time() {
    let clock = TollClock {
        acceleration_factor: 1_000,
        clock: SimpleTime { day: 0, hour: 7, minute: 0, second: 0 },
        last_tick: Instant::now(),
    };
    let mut toll = Toll::builder().nb_gates(2).start_hour(clock).build().unwrap();
    let wait = Instant::now();
    while wait.elapsed() < std::time::Duration::from_millis(10) {
        std::hint::spin_loop();
    }
    toll.add_vehicle(shared(5));
    assert_eq!(lengths(&toll), vec![1, 0]);
    let w = &toll.gates[0].queue[0];
    assert_eq!(w.vehicle, shared(5));
    assert_eq!(w.arrival.acceleration_factor, 1_000);
    assert_eq!(w.arrival.clock.hour, 7);
    assert!(w.arrival.clock.minute * 60 + w.arrival.clock.second >= 10);
    assert_eq!(toll.clock.clock, SimpleTime { day: 0, hour: 7, minute: 0, second: 0 });
}

#[test]
fn three_gates_and_six_vehicles_alone() {
    let mut toll = plaza(3);
    toll.add_vehicle(solo(0));
    assert_eq!(lengths(&toll), vec![1, 0, 0]);
    let mut k: u32 = 1;
    while k < 6 {
        toll.add_vehicle(solo(k));
        assert_eq!(toll.gates[2].nb_cars(), 0);
        k += 1;
    }
    assert_eq!(lengths(&toll), vec![5, 1, 0]);
    assert_eq!(toll.gates[1].queue[0].vehicle, solo(5));
    let mut i: usize = 0;
    while i < 5 {
        assert_eq!(toll.gates[0].queue[i].vehicle, solo(i as u32));
        i += 1;
    }
}

#[test]
fn carpooling_vehicles_fill_the_last_gate_when_the_others_are_congested() {
    let mut toll = plaza(3);
    let mut k: u32 = 0;
    while k < 11 {
        toll.add_vehicle(shared(k));
        k += 1;
    }
    assert_eq!(lengths(&toll), vec![5, 5, 1]);
    toll.add_vehicle(shared(11));
    assert_eq!(lengths(&toll), vec![5, 5, 2]);
    toll.add_vehicle(solo(12));
    assert_eq!(lengths(&toll), vec![6, 5, 2]);
}

#[test]
fn arrival_rates_by_hour() {
    let expected: [u32; 24] = [
        12_500, 10_000, 9_090, 12_500, 12_500, 14_285, 33_333, 66_666, 232_558, 200_000, 50_000,
        40_000, 40_000, 33_333, 28_571, 40_000, 100_000, 250_000, 100_000, 33_333, 25_000, 20_000,
        16_666, 14_285,
    ];
    let mut hour: u32 = 0;
    while hour < 24 {
        assert_eq!(arrival_rate(hour), expected[hour as usize]);
        hour += 1;
    }
}

#[test]
fn arrival_rate_of_the_plaza_goes_by_its_clock() {
    let toll = plaza(2);
    assert_eq!(toll.arrival_rate(), 66_666);
    let evening = TollClock {
        acceleration_factor: 1,
        clock: SimpleTime { day: 3, hour: 17, minute: 59, second: 59 },
        last_tick: Instant::now(),
    };
    let toll = Toll::builder().nb_gates(2).start_hour(evening).build().unwrap();
    assert_eq!(toll.arrival_rate(), 250_000);
}

#[test]
fn arrival_rate_now_goes_by_the_present_hour() {
    let toll = plaza(2);
    assert_eq!(toll.arrival_rate_now(), 66_666);
}

#[test]
fn arrival_rate_now_takes_any_clock() {
    let standing = TollClock {
        acceleration_factor: 0,
        clock: SimpleTime { day: 0, hour: 41, minute: 0, second: 0 },
        last_tick: Instant::now(),
    };
    let toll = Toll { gates: Vec::new(), clock: standing, logger: None };
    assert_eq!(toll.arrival_rate_now(), 250_000);
}

#[test]
fn arrival_rate_now_moves_with_real_time() {
    let fast = TollClock {
        acceleration_factor: 3_600_000,
        clock: SimpleTime { day: 0, hour: 0, minute: 0, second: 0 },
        last_tick: Instant::now(),
    };
    let toll = Toll::builder().nb_gates(2).start_hour(fast).build().unwrap();
    let wait = Instant::now();
    while wait.elapsed() < std::time::Duration::from_millis(3) {
        std::hint::spin_loop();
    }
    let shown = toll.clock.now();
    assert!(shown.day > 0 || shown.hour >= 3);
    let rate: u32 = toll.arrival_rate_now();
    let mut known = false;
    let mut hour: u32 = 0;
    while hour < 24 {
        known = known || arrival_rate(hour) == rate;
        hour += 1;
    }
    assert!(known);
}

#[test]
fn display_of_an_idle_plaza() {
    let toll = plaza(3);
    assert_eq!(toll.to_string(), "07h00m00s\n0 | X\n1 | X\n2 | X\n");
}

#[test]
fn display_shows_the_classes_that_wait() {
    let mut toll = plaza(12);
    toll.gates[0].enqueue(solo(0), stamp());
    toll.gates[0].enqueue(
        Vehicle::assemble(VehicleType::Motorcycle, 0, false, false, PaymentMean::Cash, 0),
        stamp(),
    );
    toll.gates[0].enqueue(
        Vehicle::assemble(VehicleType::Truck, 0, false, false, PaymentMean::Toll, 0),
        stamp(),
    );
    toll.gates[11].enqueue(
        Vehicle::assemble(VehicleType::HeavyTruck, 0, false, false, PaymentMean::Toll, 0),
        stamp(),
    );
    toll.gates[10].enqueue(
        Vehicle::assemble(VehicleType::Medium, 0, false, false, PaymentMean::Toll, 0),
        stamp(),
    );
    toll.clock.clock = SimpleTime { day: 1, hour: 9, minute: 5, second: 0 };
    assert_eq!(
        toll.to_string(),
        "1 jour 09h05m00s\n0 | 042\n1 | X\n2 | X\n3 | X\n4 | X\n5 | X\n6 | X\n7 | X\n8 | X\n9 | X\n10 | 1\n11 | 3\n"
    );
}
