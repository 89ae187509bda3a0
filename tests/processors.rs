use raug_ext::channel::{absorb, channel, latest, send_outcome, ChannelError};
use raug_ext::choice::{hold_choice, random_choice};
use raug_ext::clock::{metro, trig_to_gate, Metro, TrigToGate};
use raug_ext::control::{
    clamp, cond, eq, ge, gt, le, lt, max, message, min, ne, register, sample_and_hold, some,
    toggle, unwrap_or,
};
use raug_ext::envelope::{adsr_gate, adsr_settle, rising_edge, AdsrLevel, AdsrSlope, AdsrState};
use raug_ext::list::{get, ListError};
use raug_ext::pattern::{bool_pattern, bool_pattern_steps, parse_bool_pattern, pattern, word_spans_of};
use raug_ext::playback::{first_channel, one_shot_advance, one_shot_trigger, OneShotAction, OneShotState, SampleStorage};
use raug_ext::ring::RingBuffer;

#[test]
fn cond_selects() {
    assert_eq!(cond(true, 1, 2), 1);
    assert_eq!(cond(false, 1, 2), 2);
}

#[test]
fn comparisons() {
    assert!(gt(3, 2) && !gt(2, 2));
    assert!(lt(2, 3) && !lt(3, 3));
    assert!(ge(3, 3) && !ge(2, 3));
    assert!(le(3, 3) && !le(4, 3));
    assert!(eq(5, 5) && !eq(5, 6));
    assert!(ne(5, 6) && !ne(5, 5));
}

#[test]
fn min_max_clamp() {
    assert_eq!(max(-4, 7), 7);
    assert_eq!(min(-4, 7), -4);
    assert_eq!(clamp(-10, 0, 5), 0);
    assert_eq!(clamp(10, 0, 5), 5);
    assert_eq!(clamp(3, 0, 5), 3);
}

#[test]
fn toggle_flips_on_trigger() {
    let mut s = false;
    assert!(toggle(&mut s, true));
    assert!(toggle(&mut s, false));
    assert!(!toggle(&mut s, true));
}

#[test]
fn register_set_and_clear() {
    let mut held = 0i64;
    assert_eq!(register(&mut held, 9, true, false, 0), 9);
    assert_eq!(register(&mut held, 4, false, false, 0), 9);
    assert_eq!(register(&mut held, 4, true, true, 0), 4);
    assert_eq!(register(&mut held, 4, false, true, 0), 0);
}

#[test]
fn sample_and_hold_holds() {
    let mut held = 0i64;
    assert_eq!(sample_and_hold(&mut held, 5, true), 5);
    assert_eq!(sample_and_hold(&mut held, 8, false), 5);
}

#[test]
fn optional_values() {
    assert_eq!(unwrap_or(Some(3), 7), 3);
    assert_eq!(unwrap_or(None, 7), 7);
    assert_eq!(some(2), Some(2));
    assert_eq!(message(true, 'a'), Some('a'));
    assert_eq!(message(false, 'a'), None);
}

#[test]
fn list_get_in_and_out_of_bounds() {
    let l = vec![10i64, 20, 30];
    assert_eq!(get(&l, 0), Ok(10));
    assert_eq!(get(&l, 2), Ok(30));
    assert_eq!(get(&l, 3), Err(ListError::IndexOutOfBounds(3)));
    assert_eq!(get(&l, -1), Err(ListError::IndexOutOfBounds(usize::MAX)));
    let empty: Vec<i64> = Vec::new();
    assert_eq!(get(&empty, 0), Err(ListError::IndexOutOfBounds(0)));
}

#[test]
fn word_spans_of_descriptor() {
    assert_eq!(word_spans_of("  x .\tab\n"), vec![(2, 3), (4, 5), (6, 8)]);
    assert_eq!(word_spans_of(""), vec![]);
    assert_eq!(word_spans_of(" \r\n"), vec![]);
}

#[test]
fn parse_bool_descriptor() {
    assert_eq!(parse_bool_pattern("x . . ."), vec![true, false, false, false]);
    assert_eq!(parse_bool_pattern(" .. . x1 "), vec![true, false, true]);
    assert_eq!(parse_bool_pattern("   "), Vec::<bool>::new());
}

#[test]
fn bool_pattern_cursor_is_periodic() {
    let steps = vec![true, false, true];
    let mut idx = 1usize;
    for _ in 0..3 {
        bool_pattern_steps(&mut idx, true, &steps);
    }
    assert_eq!(idx, 1);
}

#[test]
fn bool_pattern_outputs_on_trigger_only() {
    let mut idx = 0usize;
    assert_eq!(bool_pattern(&mut idx, false, "x x"), (false, 0));
    assert_eq!(bool_pattern(&mut idx, true, "x ."), (true, 0));
    assert_eq!(bool_pattern(&mut idx, true, "x ."), (false, 1));
    assert_eq!(idx, 0);
}

#[test]
fn bool_pattern_empty_is_rest() {
    let mut idx = 2usize;
    assert_eq!(bool_pattern(&mut idx, true, ""), (false, 2));
    assert_eq!(idx, 2);
}

#[test]
fn signed_pattern_minus_one_reads_last() {
    let steps = vec![1.5f32, 2.5, 3.5];
    let mut idx: isize = -1;
    assert_eq!(pattern(&mut idx, false, &steps), (Some(3.5), -1));
    assert_eq!(pattern(&mut idx, true, &steps), (Some(3.5), -1));
    assert_eq!(idx, 0);
    assert_eq!(pattern(&mut idx, true, &steps), (Some(1.5), 0));
    assert_eq!(idx, 1);
}

#[test]
fn signed_pattern_counts_up_from_negative() {
    let steps = vec![10i64, 20, 30, 40];
    let mut idx: isize = -2;
    assert_eq!(pattern(&mut idx, true, &steps), (Some(30), -2));
    assert_eq!(idx, -1);
    assert_eq!(pattern(&mut idx, true, &steps), (Some(40), -1));
    assert_eq!(idx, 0);
    let mut j: isize = -3;
    for _ in 0..4 {
        pattern(&mut j, true, &steps);
    }
    assert_eq!(pattern(&mut j, false, &steps).0, Some(20));
}

#[test]
fn signed_pattern_periodic_and_empty() {
    let steps = vec![1i64, 2, 3, 4];
    let mut idx: isize = 2;
    for _ in 0..4 {
        pattern(&mut idx, true, &steps);
    }
    assert_eq!(idx, 2);
    let empty: Vec<i64> = Vec::new();
    let mut j: isize = -1;
    assert_eq!(pattern(&mut j, true, &empty), (None, -1));
}

#[test]
fn metro_ticks_every_period() {
    let mut m = Metro::new(3);
    let ticks: Vec<bool> = (0..7).map(|_| metro(&mut m, false)).collect();
    assert_eq!(ticks, vec![true, false, false, true, false, false, true]);
    assert_eq!(m.last_time, 6);
    assert_eq!(m.next_time, 9);
    assert!(metro(&mut m, true));
    assert_eq!(m.time, 1);
}

#[test]
fn metro_period_from_tempo() {
    assert_eq!(Metro::from_tempo_and_ticks(120, 4, 48000).period, 6000);
    assert_eq!(Metro::from_tempo_and_ticks(144, 4, 48000).period, 5000);
    assert_eq!(Metro::from_tempo_and_ticks(7, 1, 10).period, 86);
    assert_eq!(Metro::from_tempo_and_ticks(0, 4, 48000).period, u64::MAX);
}

#[test]
fn metro_drives_quarter_pattern() {
    let mut m = Metro::from_tempo_and_ticks(120, 4, 48000);
    let mut idx = 0usize;
    let mut tick_count = 0usize;
    let mut gates = Vec::new();
    for _ in 0..(16 * 6000) {
        let tick = metro(&mut m, false);
        let (gate, _) = bool_pattern(&mut idx, tick, "x . . .");
        if tick {
            gates.push((tick_count, gate));
            tick_count += 1;
        } else {
            assert!(!gate);
        }
    }
    assert_eq!(tick_count, 16);
    for (k, gate) in gates {
        assert_eq!(gate, k % 4 == 0);
    }
}

#[test]
fn trig_to_gate_stretches() {
    let mut g = TrigToGate::new();
    let out: Vec<bool> = [true, false, false, false, false]
        .iter()
        .map(|t| trig_to_gate(&mut g, *t, 2))
        .collect();
    // the falling edge after the trigger sample restarts the count
    assert_eq!(out, vec![true, true, true, false, false]);
}

#[test]
fn rising_edge_detects() {
    let mut last = false;
    assert!(rising_edge(&mut last, true));
    assert!(!rising_edge(&mut last, true));
    assert!(!rising_edge(&mut last, false));
    assert!(rising_edge(&mut last, true));
}

#[test]
fn adsr_stage_machine() {
    let mut s = AdsrState::idle();
    let mut last = false;
    assert!(adsr_gate(&mut s, &mut last, true));
    assert_eq!(s, AdsrState::Attack);
    assert_eq!(s.slope(), AdsrSlope::Rise);
    assert_eq!(s.target(), Some(AdsrLevel::Peak));
    assert_eq!(adsr_settle(&mut s, false), None);
    assert_eq!(adsr_settle(&mut s, true), Some(AdsrLevel::Peak));
    assert_eq!(s, AdsrState::Decay);
    assert_eq!(adsr_settle(&mut s, true), Some(AdsrLevel::SustainLevel));
    assert_eq!(s, AdsrState::Sustain);
    assert_eq!(s.slope(), AdsrSlope::Flat);
    assert!(!adsr_gate(&mut s, &mut last, false));
    assert_eq!(s, AdsrState::Release);
    assert_eq!(adsr_settle(&mut s, true), Some(AdsrLevel::Zero));
    assert_eq!(s, AdsrState::Sustain);
}

#[test]
fn adsr_release_from_attack() {
    let mut s = AdsrState::idle();
    let mut last = false;
    adsr_gate(&mut s, &mut last, true);
    adsr_gate(&mut s, &mut last, false);
    assert_eq!(s, AdsrState::Release);
}

#[test]
fn ring_taps_wrap() {
    let mut rb = RingBuffer::new(4, 0i64);
    for v in 1..=4 {
        rb.write_advance(v);
    }
    assert_eq!(rb.taps(0), (4, 1, 2, 3));
    assert_eq!(rb.taps(3), (3, 4, 1, 2));
    assert_eq!(rb.taps(6), (2, 3, 4, 1));
    assert_eq!(rb.current(), 1);
}

#[test]
fn ring_grow_keeps_samples() {
    let mut rb = RingBuffer::new(2, 0i64);
    rb.write_advance(7);
    rb.write_advance(8);
    rb.write_advance(9);
    // slots [9, 8], next write at slot 1
    rb.ensure_delay(5, 3, 0);
    assert_eq!(rb.len(), 8);
    assert_eq!(rb.write_index(), 1);
    // the newest sample is one slot behind the write position, the one
    // before it two slots behind, whatever the new length
    assert_eq!(rb.taps(0), (8, 9, 0, 0));
    assert_eq!(rb.current(), 0);
    rb.ensure_delay(2, 3, 0);
    assert_eq!(rb.len(), 8);
}

#[test]
fn ring_grow_history_behind_wrap_point() {
    let mut rb = RingBuffer::new(2, 0i64);
    rb.write_advance(5);
    rb.write_advance(7);
    // slots [5, 7], next write at slot 0; a delay of one reads 7
    rb.ensure_delay(4, 1, 0);
    assert_eq!(rb.len(), 5);
    assert_eq!(rb.write_index(), 0);
    assert_eq!(rb.taps(4), (5, 7, 0, 0));
}

#[test]
fn ring_grows_to_delay_plus_margin() {
    let mut rb = RingBuffer::new(3, 0i64);
    rb.ensure_delay(2, 2, 0);
    assert_eq!(rb.len(), 4);
    rb.ensure_delay(1, 2, 0);
    assert_eq!(rb.len(), 4);
}

#[test]
fn ring_zero_length_gets_one_slot() {
    let mut rb = RingBuffer::new(0, 0i64);
    assert_eq!(rb.len(), 1);
    rb.write_advance(5);
    assert_eq!(rb.taps(0), (5, 5, 5, 5));
}

#[test]
fn first_channel_of_stereo() {
    assert_eq!(first_channel(&vec![1, 2, 3, 4, 5], 2), vec![1, 3, 5]);
    assert_eq!(first_channel(&vec![1, 2, 3, 4, 5, 6], 3), vec![1, 4]);
    assert_eq!(first_channel(&Vec::<i32>::new(), 2), Vec::<i32>::new());
}

#[test]
fn mono_same_rate_round_trip() {
    let wave = vec![0.0f32, 0.5, -0.25, 1.0];
    let mut s = SampleStorage::from_interleaved(&wave, 1, 44100);
    assert!(!s.needs_resample(44100));
    s.install_resampled(44100, vec![9.0]);
    assert_eq!(s.len(), 4);
    for (i, v) in wave.iter().enumerate() {
        assert_eq!(s.frame_or(i, 0.0), *v);
    }
    assert_eq!(s.frame_or(4, 0.0), 0.0);
}

#[test]
fn storage_resample_rules() {
    let mut s = SampleStorage::new(vec![1i32, 2], 44100);
    assert!(!s.needs_resample(0));
    assert!(s.needs_resample(48000));
    s.install_resampled(48000, vec![1, 1, 2]);
    assert_eq!(s.len(), 3);
    assert_eq!(s.sample_rate(), 48000);
    assert!(!s.is_empty());
}

#[test]
fn one_shot_machine() {
    let mut st = OneShotState::Waiting;
    assert_eq!(one_shot_advance(&mut st, false), OneShotAction::Hold);
    assert!(one_shot_trigger(&mut st, true));
    assert_eq!(st, OneShotState::Playing);
    assert_eq!(one_shot_advance(&mut st, false), OneShotAction::Play);
    assert!(!one_shot_trigger(&mut st, false));
    assert_eq!(one_shot_advance(&mut st, true), OneShotAction::Silence);
    assert_eq!(st, OneShotState::Waiting);
}

#[test]
fn channel_keeps_latest() {
    let (tx, mut rx) = channel(0i64);
    assert_eq!(rx.recv(), 0);
    assert!(tx.send(5).is_ok());
    assert!(tx.send(6).is_ok());
    assert_eq!(rx.recv(), 6);
    assert_eq!(rx.recv(), 6);
    tx.send(1).unwrap();
    tx.send(2).unwrap();
    assert_eq!(rx.recv_all(), vec![6, 1, 2]);
    assert_eq!(rx.recv(), 2);
}

#[test]
fn channel_send_error_when_closed() {
    let (tx, rx) = channel(0i64);
    drop(rx);
    assert!(matches!(tx.send(3), Err(ChannelError::SendError)));
    assert!(matches!(send_outcome(false), Err(ChannelError::SendError)));
    assert!(send_outcome(true).is_ok());
}

#[test]
fn absorb_appends_taken_messages() {
    let mut values = vec![1i64];
    let mut last = 1i64;
    assert!(absorb(&mut values, &mut last, Some(4)));
    assert_eq!((values.clone(), last), (vec![1, 4], 4));
    assert!(!absorb(&mut values, &mut last, None));
    assert_eq!((values, last), (vec![1, 4], 4));
}

#[test]
fn latest_value_cell() {
    let mut last = 3i64;
    assert_eq!(latest(&mut last, None), 3);
    assert_eq!(latest(&mut last, Some(8)), 8);
    assert_eq!(last, 8);
}

#[test]
fn random_choice_picks_from_options() {
    let opts = vec![3i64, 5, 7];
    let mut state = 0i64;
    for _ in 0..20 {
        let v = random_choice(&mut state, true, &opts, -1);
        assert!(opts.contains(&v));
    }
    let held = state;
    assert_eq!(random_choice(&mut state, false, &opts, -1), held);
    assert_eq!(random_choice(&mut state, true, &Vec::new(), -1), -1);
}

#[test]
fn hold_choice_exact() {
    let mut s = 1i64;
    assert_eq!(hold_choice(&mut s, true, Some(4), 0), 4);
    assert_eq!(hold_choice(&mut s, false, Some(9), 0), 4);
    assert_eq!(hold_choice(&mut s, true, None, 0), 0);
}

#[test]
fn metro_pattern_gate_formula() {
    let p = 3u64;
    let steps = vec![true, false, true, false, false];
    let mut m = Metro::new(p);
    let mut idx = 0usize;
    for n in 0..200u64 {
        let tick = metro(&mut m, false);
        let (gate, _) = bool_pattern_steps(&mut idx, tick, &steps);
        let expected = n % p == 0 && steps[((n / p) % steps.len() as u64) as usize];
        assert_eq!(gate, expected, "sample {n}");
    }
}

#[test]
fn metro_zero_period_ticks_every_sample() {
    let mut m = Metro::new(0);
    for _ in 0..5 {
        assert!(metro(&mut m, false));
    }
}
