use audact::clock::Clock;
use audact::system::{pattern_from_triggers, plan_bar, ChannelError, Wave};

#[test]
fn waves_are_distinct() {
    assert_eq!(Wave::Sine, Wave::Sine);
    assert_ne!(Wave::Sine, Wave::Square);
    assert_ne!(Wave::Saw, Wave::Noise);
}

#[test]
fn triggers_mark_their_steps() {
    let p = pattern_from_triggers(16, &vec![0, 4, 8, 12]).unwrap();
    assert_eq!(p.len(), 16);
    for s in 0..16 {
        assert_eq!(p[s], s % 4 == 0);
    }
}

#[test]
fn triggers_repeated_and_unordered() {
    let p = pattern_from_triggers(4, &vec![3, 1, 3]).unwrap();
    assert_eq!(p, vec![false, true, false, true]);
}

#[test]
fn no_triggers_is_all_silent() {
    let p = pattern_from_triggers(3, &vec![]).unwrap();
    assert_eq!(p, vec![false, false, false]);
}

#[test]
fn trigger_past_the_bar_is_refused() {
    assert_eq!(pattern_from_triggers(16, &vec![0, 16]), Err(ChannelError::TriggerOutOfRange));
    assert_eq!(pattern_from_triggers(0, &vec![0]), Err(ChannelError::TriggerOutOfRange));
}

#[test]
fn plan_refuses_wrong_length() {
    let c = Clock::new(16, 120, 4000).unwrap();
    assert_eq!(plan_bar(&c, &vec![true; 15]), Err(ChannelError::LengthMismatch));
    assert_eq!(plan_bar(&c, &vec![true; 17]), Err(ChannelError::LengthMismatch));
    assert_eq!(plan_bar(&c, &vec![]), Err(ChannelError::LengthMismatch));
}

#[test]
fn plan_length_is_steps_times_samples_per_step() {
    for (steps, bpm, beats) in [(16, 120, 4000), (3, 600, 4000), (5, 97, 3500), (1, 1000, 1000)] {
        let c = Clock::new(steps, bpm, beats).unwrap();
        let plan = plan_bar(&c, &vec![true; steps as usize]).unwrap();
        assert_eq!(plan.len() as u64, steps as u64 * c.samples_per_step());
        assert_eq!(plan.len() as u64, c.total_samples());
    }
}

#[test]
fn plan_all_active_names_each_step() {
    let c = Clock::new(3, 600, 4000).unwrap();
    let per_step = c.samples_per_step() as usize;
    assert_eq!(per_step, 882);
    let plan = plan_bar(&c, &vec![true, true, true]).unwrap();
    for (t, entry) in plan.iter().enumerate() {
        assert_eq!(*entry, Some(t / per_step));
    }
}

#[test]
fn plan_all_silent() {
    let c = Clock::new(3, 600, 4000).unwrap();
    let plan = plan_bar(&c, &vec![false, false, false]).unwrap();
    assert!(plan.iter().all(|e| e.is_none()));
}

#[test]
fn four_on_the_floor_bar_has_four_equal_segments() {
    let c = Clock::new(16, 120, 4000).unwrap();
    let active = pattern_from_triggers(16, &vec![0, 4, 8, 12]).unwrap();
    let plan = plan_bar(&c, &active).unwrap();
    assert_eq!(plan.len(), 70560);
    // collect maximal runs of sounding samples
    let mut runs: Vec<(usize, usize)> = Vec::new();
    let mut t = 0;
    while t < plan.len() {
        if plan[t].is_some() {
            let start = t;
            while t < plan.len() && plan[t].is_some() {
                t += 1;
            }
            runs.push((start, t - start));
        } else {
            t += 1;
        }
    }
    assert_eq!(runs, vec![(0, 4410), (17640, 4410), (35280, 4410), (52920, 4410)]);
    for (i, (start, len)) in runs.iter().enumerate() {
        assert!(plan[*start..start + len].iter().all(|e| *e == Some(4 * i)));
    }
    assert!(plan[4410..17640].iter().all(|e| e.is_none()));
}

#[test]
fn adjacent_active_steps_keep_their_own_index() {
    let c = Clock::new(4, 600, 4000).unwrap();
    let plan = plan_bar(&c, &vec![false, true, true, false]).unwrap();
    assert_eq!(plan[881], None);
    assert_eq!(plan[882], Some(1));
    assert_eq!(plan[1763], Some(1));
    assert_eq!(plan[1764], Some(2));
    assert_eq!(plan[2645], Some(2));
    assert_eq!(plan[2646], None);
}
