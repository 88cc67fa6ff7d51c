use lattefm::instrument::{ADSRState, ADSRStep, Instrument, Waveform};

fn test_instrument() -> Instrument {
    Instrument {
        carrier_waveform: Waveform::Sine,
        amplitude: 60000,
        attack: 1024,
        decay: 512,
        sustain: 30000,
        release: 512,
        modulator_waveform: Waveform::Sine,
        modulator_amplitude: 0,
        modulator_mul: 1,
        modulator_div: 1,
        modulator_phase: 0,
    }
}

#[test]
fn adsr_exact_schedule() {
    // 0.25 s attack, 0.125 s decay and release at 8000 Hz, over a 2 s note
    let i = test_instrument();
    let a = i.get_adsr(8000, 16000, (256, 256));
    assert_eq!(a.cur_stage, 0);
    assert_eq!(a.stages[0].frames_left, 2000);
    assert_eq!(a.stages[0].amplitude_step, (7680, 7680));
    assert_eq!(a.stages[1].frames_left, 1000);
    assert_eq!(a.stages[1].amplitude_step, (-7680, -7680));
    assert_eq!(a.stages[2].frames_left, 12000);
    assert_eq!(a.stages[2].amplitude_step, (0, 0));
    assert_eq!(a.stages[3].frames_left, 1000);
    assert_eq!(a.stages[3].amplitude_step, (-7680, -7680));
}

#[test]
fn adsr_mass_conservation() {
    // the four stage frame counts always sum to exactly the note's length
    let i = test_instrument();
    for &length in [0i32, 1, 7, 1000, 3500, 16000, 100000].iter() {
        let a = i.get_adsr(8000, length, (256, 128));
        let total = a.stages[0].frames_left + a.stages[1].frames_left + a.stages[2].frames_left
            + a.stages[3].frames_left;
        assert_eq!(total, length);
    }
}

#[test]
fn adsr_short_note_clamps_release() {
    // a note shorter than attack + decay: the release is clamped to what
    // remains and the sustain stage vanishes
    let i = test_instrument();
    let a = i.get_adsr(8000, 1000, (256, 256));
    assert_eq!(a.stages[0].frames_left, 2000);
    assert_eq!(a.stages[1].frames_left, 1000);
    assert_eq!(a.stages[2].frames_left, 0);
    assert_eq!(a.stages[3].frames_left, -2000);
    let total = a.stages[0].frames_left + a.stages[1].frames_left + a.stages[2].frames_left
        + a.stages[3].frames_left;
    assert_eq!(total, 1000);
}

#[test]
fn amplitude_continuity_over_a_full_note() {
    // each stage's applied change (step times frames, or the whole step for
    // an instantaneous stage) telescopes back to zero within under one unit
    // per rendered frame
    let i = test_instrument();
    let a = i.get_adsr(8000, 16000, (256, 256));
    let mut sum: i64 = 0;
    let mut slack: i64 = 0;
    for k in 0..4 {
        let f = a.stages[k].frames_left as i64;
        let d = a.stages[k].amplitude_step.0 as i64;
        if f > 0 {
            sum += f * d;
            slack += f - 1;
        } else {
            sum += d;
        }
    }
    assert!(-slack <= sum && sum <= slack);
}

#[test]
fn init_stage_amplitude_skips_zero_stages() {
    let mut a = ADSRState {
        cur_stage: 0,
        stages: [
            ADSRStep { frames_left: 0, amplitude_step: (100, 200) },
            ADSRStep { frames_left: 0, amplitude_step: (-30, -60) },
            ADSRStep { frames_left: 5, amplitude_step: (1, 1) },
            ADSRStep { frames_left: 0, amplitude_step: (7, 7) },
        ],
    };
    let mut amplitude = (1000, 2000);
    a.init_stage_amplitude(&mut amplitude);
    // both leading zero-length stages applied their whole step, once each
    assert_eq!(a.cur_stage, 2);
    assert_eq!(amplitude, (1070, 2140));
}

#[test]
fn init_stage_amplitude_stops_at_the_end() {
    let mut a = ADSRState {
        cur_stage: 0,
        stages: [
            ADSRStep { frames_left: 0, amplitude_step: (1, 0) },
            ADSRStep { frames_left: 0, amplitude_step: (2, 0) },
            ADSRStep { frames_left: 0, amplitude_step: (4, 0) },
            ADSRStep { frames_left: 0, amplitude_step: (8, 0) },
        ],
    };
    let mut amplitude = (0, 0);
    a.init_stage_amplitude(&mut amplitude);
    assert_eq!(a.cur_stage, 4);
    assert_eq!(amplitude, (15, 0));
}

#[test]
fn timer_steps_for_known_pitches() {
    let i = test_instrument();
    let mut carrier: i32 = -1;
    let mut modulator: i32 = -1;
    // C4 at 8000 Hz: 261.63 Hz * 65536 / 8000, rounded to nearest
    i.get_timer_steps(8000, 48, &mut carrier, &mut modulator);
    assert_eq!(carrier, 2143);
    assert_eq!(modulator, 2143);
    // A4 at 44100 Hz: 440 Hz * 65536 / 44100, rounded to nearest
    i.get_timer_steps(44100, 57, &mut carrier, &mut modulator);
    assert_eq!(carrier, 654);
    assert_eq!(modulator, 654);
}

#[test]
fn timer_steps_follow_the_frequency_ratio() {
    let mut i = test_instrument();
    i.modulator_mul = 3;
    i.modulator_div = 2;
    let mut carrier: i32 = 0;
    let mut modulator: i32 = 0;
    i.get_timer_steps(8000, 48, &mut carrier, &mut modulator);
    assert_eq!(carrier, 2143);
    // base 17145893, times 3/2 = 25718839, then the rounding division
    assert_eq!(modulator, 3215);
}

#[test]
fn timer_steps_at_the_range_ends() {
    let i = test_instrument();
    let mut carrier: i32 = 0;
    let mut modulator: i32 = 0;
    // the lowest note, C0
    i.get_timer_steps(8000, 0, &mut carrier, &mut modulator);
    assert_eq!(carrier, 134);
    // the highest note, B8
    i.get_timer_steps(8000, 107, &mut carrier, &mut modulator);
    assert_eq!(carrier, 64734);
    i.get_timer_steps(44100, 107, &mut carrier, &mut modulator);
    assert_eq!(carrier, 11743);
}

#[test]
fn pitch_above_highest_note_is_silence() {
    // the silence sentinel: both steps zero, for 108 and for the pause mark
    let i = test_instrument();
    let mut carrier: i32 = -1;
    let mut modulator: i32 = -1;
    i.get_timer_steps(8000, 108, &mut carrier, &mut modulator);
    assert_eq!(carrier, 0);
    assert_eq!(modulator, 0);
    i.get_timer_steps(8000, 255, &mut carrier, &mut modulator);
    assert_eq!(carrier, 0);
    assert_eq!(modulator, 0);
}

#[test]
fn wavegen_selection_is_the_waveform_pair() {
    let mut i = test_instrument();
    i.carrier_waveform = Waveform::Triangle;
    i.modulator_waveform = Waveform::Noise;
    let wg = i.get_wavegen();
    assert_eq!(wg.carrier, Waveform::Triangle);
    assert_eq!(wg.modulator, Waveform::Noise);
}
