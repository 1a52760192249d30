use doorway_counter::ranging::{
    echo_to_distance, measure_samples, Action, Measurement, Phase, Sample,
};

fn low(ticks: u16) -> Sample {
    Sample { echo_high: false, ticks }
}

fn high(ticks: u16) -> Sample {
    Sample { echo_high: true, ticks }
}

#[test]
fn conversion_exact_values() {
    assert_eq!(echo_to_distance(0), Some(0));
    assert_eq!(echo_to_distance(145), Some(10));
    assert_eq!(echo_to_distance(1000), Some(68));
    assert_eq!(echo_to_distance(16383), Some(1129));
}

#[test]
fn conversion_saturation_is_timeout() {
    assert_eq!(echo_to_distance(16384), None);
    assert_eq!(echo_to_distance(40000), None);
    assert_eq!(echo_to_distance(u16::MAX), None);
}

#[test]
fn measurement_reports_distance_after_interval() {
    let samples = vec![
        low(10),
        low(49_999),
        high(50_000),
        high(100),
        low(1450),
        low(20_000),
        low(25_000),
    ];
    assert_eq!(measure_samples(&samples), Some(Some(100)));
}

#[test]
fn measurement_waits_for_interval() {
    let samples = vec![high(3), low(1450), low(24_999)];
    assert_eq!(measure_samples(&samples), None);
}

#[test]
fn measurement_times_out_without_rise() {
    let samples = vec![low(0), low(30_000), low(50_000), high(1), low(100), low(30_000)];
    assert_eq!(measure_samples(&samples), Some(None));
}

#[test]
fn measurement_times_out_on_saturated_echo() {
    let samples = vec![high(5), high(60_000), low(16_384), low(30_000)];
    assert_eq!(measure_samples(&samples), Some(None));
}

#[test]
fn measurement_step_actions() {
    let mut m = Measurement::new();
    assert_eq!(m.on_sample(low(5)), Action::Sample);
    assert_eq!(m.on_sample(high(9)), Action::ResetClock);
    assert_eq!(m.phase, Phase::AwaitFall);
    assert_eq!(m.on_sample(high(50)), Action::Sample);
    assert_eq!(m.on_sample(low(580)), Action::Sample);
    assert_eq!(m.phase, Phase::Pacing { distance: 40 });
    assert_eq!(m.outcome(), None);
    assert_eq!(m.on_sample(low(25_001)), Action::Report { reading: Some(40) });
    assert_eq!(m.outcome(), Some(Some(40)));
    assert_eq!(m.on_sample(high(1)), Action::Report { reading: Some(40) });
}
