use audact::clock::{Clock, ClockError, SAMPLE_RATE};

#[test]
fn clock_rejects_bad_parameters() {
    assert_eq!(Clock::new(0, 120, 4000), Err(ClockError::NoSteps));
    assert_eq!(Clock::new(-3, 0, 0), Err(ClockError::NoSteps));
    assert_eq!(Clock::new(16, 0, 4000), Err(ClockError::BadBpm));
    assert_eq!(Clock::new(16, -120, 4000), Err(ClockError::BadBpm));
    assert_eq!(Clock::new(16, 120, 0), Err(ClockError::BadBeatsPerBar));
    assert_eq!(Clock::new(16, 120, -4000), Err(ClockError::BadBeatsPerBar));
}

#[test]
fn clock_keeps_its_parameters() {
    let c = Clock::new(16, 120, 4000).unwrap();
    assert_eq!(c.steps, 16);
    assert_eq!(c.bpm, 120);
    assert_eq!(c.beats_per_bar_milli, 4000);
}

#[test]
fn clock_at_120_bpm_four_beats() {
    let c = Clock::new(16, 120, 4000).unwrap();
    assert_eq!(SAMPLE_RATE, 44100);
    assert_eq!(c.step_millis(), 125);
    assert_eq!(c.samples_per_step(), 4410);
    assert_eq!(c.total_samples(), 70560);
}

#[test]
fn clock_at_100_bpm_four_beats() {
    let c = Clock::new(16, 100, 4000).unwrap();
    assert_eq!(c.step_millis(), 150);
    assert_eq!(c.samples_per_step(), 5292);
    assert_eq!(c.total_samples(), 16 * 5292);
}

#[test]
fn clock_rounds_step_length_down() {
    // 60000 ms / 7 bpm / 3 beats = 2857.14.. ms
    let c = Clock::new(2, 7, 3000).unwrap();
    assert_eq!(c.step_millis(), 2857);
    // 44100 * 2.857 * 0.8 = 100794.96..
    assert_eq!(c.samples_per_step(), 100794);
    assert_eq!(c.total_samples(), 2 * 100794);
}

#[test]
fn clock_fractional_beats_per_bar() {
    // 2.5 beats per bar at 120 bpm: 200 ms per step
    let c = Clock::new(4, 120, 2500).unwrap();
    assert_eq!(c.step_millis(), 200);
    assert_eq!(c.samples_per_step(), 7056);
}

#[test]
fn clock_step_too_short_for_a_sample() {
    let c = Clock::new(4, 2_000_000, 1_000_000).unwrap();
    assert_eq!(c.step_millis(), 0);
    assert_eq!(c.samples_per_step(), 0);
    assert_eq!(c.total_samples(), 0);
}

#[test]
fn clock_slowest_tempo_fits() {
    let c = Clock::new(i32::MAX, 1, 1).unwrap();
    assert_eq!(c.step_millis(), 60_000_000);
    assert_eq!(c.samples_per_step(), 2_116_800_000);
    assert_eq!(c.total_samples(), i32::MAX as u64 * 2_116_800_000);
}

#[test]
fn clock_step_of_sample() {
    let c = Clock::new(16, 120, 4000).unwrap();
    assert_eq!(c.step_of(0), 0);
    assert_eq!(c.step_of(4409), 0);
    assert_eq!(c.step_of(4410), 1);
    assert_eq!(c.step_of(70559), 15);
}

#[test]
fn faster_tempo_gives_shorter_steps() {
    let mut prev = Clock::new(1, 1, 1000).unwrap().samples_per_step();
    for bpm in 2..400 {
        let now = Clock::new(1, bpm, 1000).unwrap().samples_per_step();
        assert!(now <= prev);
        prev = now;
    }
    assert_eq!(Clock::new(1, 60, 1000).unwrap().samples_per_step(), 35280);
    assert_eq!(Clock::new(1, 61, 1000).unwrap().samples_per_step(), 34680);
}
