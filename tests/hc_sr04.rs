use nucleo_h743zi::hc_sr04::{Distance, Echo, HcSr04, Reading, State};
use nucleo_h743zi::smart_timer::SmartTimer;

const MHZ: u32 = 1_000_000;

#[test]
fn end_to_end_twelve_millis() {
    // one cycle per microsecond: 12 ms is 12_000 cycles
    let timer = SmartTimer::new(MHZ);
    let mut sensor = HcSr04::new(&timer);
    assert_eq!(sensor.state(), State::Idle);
    assert!(sensor.needs_trigger());

    assert_eq!(sensor.wait_distance(Echo::High, 0), Reading::NotReady);
    assert_eq!(sensor.state(), State::Waiting(0));
    assert!(!sensor.needs_trigger());

    assert_eq!(sensor.wait_distance(Echo::Low, 12_000), Reading::NotReady);
    let expected = Distance { micrometers: 2_041_740 };
    assert_eq!(sensor.state(), State::Ready(expected));

    assert_eq!(sensor.wait_distance(Echo::Low, 12_000), Reading::Measured(expected));
    assert_eq!(sensor.state(), State::Idle);
    assert_eq!(expected.mm(), 2_041);
    assert_eq!(expected.cm(), 204);
}

#[test]
fn full_cycle_state_sequence() {
    let timer = SmartTimer::new(100_000_000);
    let mut sensor = HcSr04::new(&timer);
    let start: u32 = 5_000;
    assert_eq!(sensor.wait_distance(Echo::Low, start), Reading::NotReady);
    assert_eq!(sensor.state(), State::Waiting(start));
    let mut now = start;
    for _ in 0..10 {
        now += 100_000;
        assert_eq!(sensor.wait_distance(Echo::High, now), Reading::NotReady);
        assert_eq!(sensor.state(), State::Waiting(start));
    }
    now += 100_000;
    assert_eq!(sensor.wait_distance(Echo::Low, now), Reading::NotReady);
    // 1_100_000 cycles at 100 MHz is 11 ms
    let d = Distance { micrometers: 1_871_595 };
    assert_eq!(sensor.state(), State::Ready(d));
    assert_eq!(sensor.wait_distance(Echo::High, now + 5), Reading::Measured(d));
    assert_eq!(sensor.state(), State::Idle);
    // the next poll starts a new measurement
    assert_eq!(sensor.wait_distance(Echo::High, now + 9), Reading::NotReady);
    assert_eq!(sensor.state(), State::Waiting(now + 9));
}

#[test]
fn distance_for_ten_millis() {
    let timer = SmartTimer::new(100_000_000);
    let mut sensor = HcSr04::new(&timer);
    sensor.wait_distance(Echo::High, 40);
    sensor.wait_distance(Echo::Low, 40 + 1_000_000);
    let d = Distance { micrometers: 1_701_450 };
    assert_eq!(sensor.state(), State::Ready(d));
    assert_eq!(sensor.wait_distance(Echo::High, 0), Reading::Measured(d));
    let meters = 10.0f64 / 1_000.0 * 170.145;
    assert!((d.um() as f64 / 1_000_000.0 - meters).abs() < 1e-9);
}

#[test]
fn distance_for_zero_delay() {
    let timer = SmartTimer::new(MHZ);
    let mut sensor = HcSr04::new(&timer);
    sensor.wait_distance(Echo::High, 77);
    sensor.wait_distance(Echo::Low, 77);
    assert_eq!(sensor.state(), State::Ready(Distance { micrometers: 0 }));
}

#[test]
fn distance_across_counter_wrap() {
    let timer = SmartTimer::new(MHZ);
    let mut sensor = HcSr04::new(&timer);
    let start = u32::MAX - 999;
    sensor.wait_distance(Echo::High, start);
    // 1_000 cycles to the wrap, 9_000 after it: 10 ms in all
    sensor.wait_distance(Echo::Low, 9_000);
    assert_eq!(sensor.state(), State::Ready(Distance { micrometers: 1_701_450 }));
}

#[test]
fn read_failures_keep_waiting() {
    let timer = SmartTimer::new(MHZ);
    let mut sensor = HcSr04::new(&timer);
    sensor.wait_distance(Echo::High, 1_000);
    assert_eq!(sensor.echo_faults(), 0);
    for i in 0..1_000u32 {
        assert_eq!(sensor.wait_distance(Echo::ReadFailed, 1_000 + i * 30), Reading::NotReady);
        assert_eq!(sensor.state(), State::Waiting(1_000));
    }
    assert_eq!(sensor.echo_faults(), 1_000);
    assert_eq!(sensor.wait_distance(Echo::Low, 21_000), Reading::NotReady);
    assert_eq!(sensor.state(), State::Ready(Distance { micrometers: 3_402_900 }));
    assert_eq!(sensor.echo_faults(), 1_000);
}

#[test]
fn timeout_resets_to_idle() {
    let timer = SmartTimer::new(MHZ);
    let mut sensor = HcSr04::new(&timer);
    sensor.wait_distance(Echo::High, 0);
    // exactly at the limit the wait goes on
    assert_eq!(sensor.wait_distance(Echo::High, 36_000), Reading::NotReady);
    assert_eq!(sensor.state(), State::Waiting(0));
    assert_eq!(sensor.wait_distance(Echo::High, 36_001), Reading::TimedOut);
    assert_eq!(sensor.state(), State::Idle);
    assert!(sensor.needs_trigger());
}

#[test]
fn timeout_wins_over_late_echo() {
    let timer = SmartTimer::new(100_000_000);
    let mut sensor = HcSr04::new(&timer);
    sensor.wait_distance(Echo::High, 0);
    assert_eq!(sensor.wait_distance(Echo::Low, 4_000_000), Reading::TimedOut);
    assert_eq!(sensor.state(), State::Idle);
}

#[test]
fn timeout_after_read_failures_is_not_a_fault() {
    let timer = SmartTimer::new(MHZ);
    let mut sensor = HcSr04::new(&timer);
    sensor.wait_distance(Echo::High, 0);
    assert_eq!(sensor.wait_distance(Echo::ReadFailed, 50_000), Reading::TimedOut);
    assert_eq!(sensor.echo_faults(), 0);
}

#[test]
fn trigger_pulse_is_ten_micros() {
    let timer = SmartTimer::new(100_000_000);
    let sensor = HcSr04::new(&timer);
    assert_eq!(sensor.trigger_pulse_cycles(), 1_000);
    let slow = SmartTimer::new(MHZ);
    assert_eq!(HcSr04::new(&slow).trigger_pulse_cycles(), 10);
    let fastest = SmartTimer::new(u32::MAX);
    assert_eq!(HcSr04::new(&fastest).trigger_pulse_cycles(), 42_949);
}

#[test]
fn distance_units() {
    let d = Distance { micrometers: 1_234_567 };
    assert_eq!(d.um(), 1_234_567);
    assert_eq!(d.mm(), 1_234);
    assert_eq!(d.cm(), 123);
}

#[test]
fn two_sensors_share_one_timer() {
    let timer = SmartTimer::new(MHZ);
    let mut a = HcSr04::new(&timer);
    let mut b = HcSr04::new(&timer);
    a.wait_distance(Echo::High, 0);
    b.wait_distance(Echo::High, 100);
    a.wait_distance(Echo::Low, 1_000);
    b.wait_distance(Echo::Low, 2_100);
    assert_eq!(a.wait_distance(Echo::High, 3_000), Reading::Measured(Distance { micrometers: 170_145 }));
    assert_eq!(b.wait_distance(Echo::High, 3_000), Reading::Measured(Distance { micrometers: 340_290 }));
}
