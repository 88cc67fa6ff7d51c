use lattefm::channel::Command;
use lattefm::instrument::{Instrument, Waveform};
use lattefm::note_names::{C4, C5, PAUSE};
use lattefm::player::{ChannelPlayer, Player};
use lattefm::tune::Tune;

fn pure_sine() -> Instrument {
    Instrument {
        carrier_waveform: Waveform::Sine,
        amplitude: 65535,
        attack: 0,
        decay: 0,
        sustain: 65535,
        release: 0,
        modulator_waveform: Waveform::Sine,
        modulator_amplitude: 0,
        modulator_mul: 1,
        modulator_div: 1,
        modulator_phase: 0,
    }
}

#[test]
fn c4_tone_has_the_c4_fundamental() {
    // one channel, 8000 Hz, one beat of one second, a steady sine at C4:
    // the rendered tone's period, measured by its rising zero crossings,
    // matches 261.63 Hz within the rounding tolerance of the step formula
    // (carrier step 2143 of 65536 per frame: 261.6 cycles in 8000 frames)
    let tune = Tune {
        samplerate: 8000,
        beat_length: 8000,
        instruments: vec![pure_sine()],
        channels: vec![vec![
            Command::SetInstrument(0),
            Command::Note(C4),
            Command::Beat(1),
            Command::Jump(0),
        ]],
    };
    let mut player = Player::new(&tune, vec![ChannelPlayer::default()]);
    let mut out: Vec<i8> = vec![0; 16000];
    player.generate(&mut out);
    let mut rising = 0;
    for k in 1..8000 {
        if out[2 * (k - 1)] < 0 && out[2 * k] >= 0 {
            rising += 1;
        }
    }
    assert!(259 <= rising && rising <= 264, "rising crossings: {}", rising);
    // unity pan on both sides: the two channels carry the same signal
    for k in 0..8000 {
        assert_eq!(out[2 * k], out[2 * k + 1]);
    }
    // and it is a full-scale tone, not silence
    assert_eq!(out.iter().map(|&s| s as i32).max(), Some(127));
    assert_eq!(out.iter().map(|&s| s as i32).min(), Some(-128));
}

#[test]
fn pause_pitch_renders_nothing() {
    // a pitch above the highest note zeroes the carrier step, and the wavegen
    // contributes nothing over that whole span
    let tune = Tune {
        samplerate: 8000,
        beat_length: 500,
        instruments: vec![pure_sine()],
        channels: vec![vec![
            Command::SetInstrument(0),
            Command::Note(PAUSE),
            Command::Beat(1),
            Command::Jump(0),
        ]],
    };
    let mut player = Player::new(&tune, vec![ChannelPlayer::default()]);
    let mut out: Vec<i8> = vec![0; 1000];
    player.generate(&mut out);
    assert!(out.iter().all(|&s| s == 0));
}

#[test]
fn player_clears_the_buffer_before_mixing() {
    let tune = Tune {
        samplerate: 8000,
        beat_length: 500,
        instruments: vec![pure_sine()],
        channels: vec![vec![
            Command::Note(PAUSE),
            Command::Beat(1),
            Command::Jump(0),
        ]],
    };
    let mut player = Player::new(&tune, vec![ChannelPlayer::default()]);
    let mut out: Vec<i8> = vec![99; 1000];
    player.generate(&mut out);
    assert!(out.iter().all(|&s| s == 0));
}

#[test]
fn two_channels_mix_additively() {
    let tune2 = Tune {
        samplerate: 8000,
        beat_length: 500,
        instruments: vec![pure_sine()],
        channels: vec![
            vec![
                Command::SetInstrument(0),
                Command::Note(C4),
                Command::Beat(1),
                Command::Jump(0),
            ],
            vec![
                Command::SetInstrument(0),
                Command::Note(C4),
                Command::Beat(1),
                Command::Jump(0),
            ],
        ],
    };
    let tune1 = Tune {
        samplerate: 8000,
        beat_length: 500,
        instruments: vec![pure_sine()],
        channels: vec![vec![
            Command::SetInstrument(0),
            Command::Note(C4),
            Command::Beat(1),
            Command::Jump(0),
        ]],
    };
    let mut both = Player::new(
        &tune2,
        vec![ChannelPlayer::default(), ChannelPlayer::default()],
    );
    let mut one = Player::new(&tune1, vec![ChannelPlayer::default()]);
    let mut out2: Vec<i8> = vec![0; 1000];
    let mut out1: Vec<i8> = vec![0; 1000];
    both.generate(&mut out2);
    one.generate(&mut out1);
    // identical channels: the mix is the single channel added to itself,
    // with the buffer's wrapping add semantics
    for k in 0..1000 {
        assert_eq!(out2[k], out1[k].wrapping_add(out1[k]));
    }
}

#[test]
fn odd_buffer_length_leaves_the_trailing_sample_alone() {
    let tune = Tune {
        samplerate: 8000,
        beat_length: 500,
        instruments: vec![pure_sine()],
        channels: vec![vec![
            Command::SetInstrument(0),
            Command::Note(C4),
            Command::Beat(1),
            Command::Jump(0),
        ]],
    };
    let mut player = Player::new(&tune, vec![ChannelPlayer::default()]);
    let mut out: Vec<i8> = vec![0; 201];
    player.generate(&mut out);
    assert_eq!(out[200], 0);
    assert!(out[..200].iter().any(|&s| s != 0));
}

#[test]
fn modulation_perturbs_the_carrier() {
    // the modulator drives the carrier's rate, so a nonzero modulation index
    // must change the rendered samples
    let make_tune = |mod_amp: u16| {
        let mut instr = pure_sine();
        instr.modulator_amplitude = mod_amp;
        instr.modulator_mul = 2;
        Tune {
            samplerate: 8000,
            beat_length: 500,
            instruments: vec![instr],
            channels: vec![vec![
                Command::SetInstrument(0),
                Command::Note(C4),
                Command::Beat(1),
                Command::Jump(0),
            ]],
        }
    };
    let plain_tune = make_tune(0);
    let fm_tune = make_tune(40000);
    let mut plain = Player::new(&plain_tune, vec![ChannelPlayer::default()]);
    let mut fm = Player::new(&fm_tune, vec![ChannelPlayer::default()]);
    let mut out_plain: Vec<i8> = vec![0; 1000];
    let mut out_fm: Vec<i8> = vec![0; 1000];
    plain.generate(&mut out_plain);
    fm.generate(&mut out_fm);
    assert_ne!(out_plain, out_fm);
}

#[test]
fn rendering_is_repeatable() {
    // hash-based noise, not a random source: two identical players render
    // bit-identical buffers
    let make_tune = || {
        let mut instr = pure_sine();
        instr.carrier_waveform = Waveform::Noise;
        instr.modulator_waveform = Waveform::Saw;
        instr.modulator_amplitude = 20000;
        Tune {
            samplerate: 8000,
            beat_length: 500,
            instruments: vec![instr],
            channels: vec![vec![
                Command::SetInstrument(0),
                Command::Note(C5),
                Command::Beat(1),
                Command::Jump(0),
            ]],
        }
    };
    let tune_a = make_tune();
    let tune_b = make_tune();
    let mut a = Player::new(&tune_a, vec![ChannelPlayer::default()]);
    let mut b = Player::new(&tune_b, vec![ChannelPlayer::default()]);
    let mut out_a: Vec<i8> = vec![0; 1000];
    let mut out_b: Vec<i8> = vec![0; 1000];
    a.generate(&mut out_a);
    b.generate(&mut out_b);
    assert_eq!(out_a, out_b);
    assert!(out_a.iter().any(|&s| s != 0));
}

#[test]
fn envelope_shapes_the_rendered_amplitude() {
    // a note with a long attack starts quiet and grows; its loudest samples
    // come later than its first ones
    let mut instr = pure_sine();
    instr.attack = 4096;  // one full second of attack
    instr.sustain = 65535;
    let tune = Tune {
        samplerate: 8000,
        beat_length: 8000,
        instruments: vec![instr],
        channels: vec![vec![
            Command::SetInstrument(0),
            Command::Note(C4),
            Command::Beat(1),
            Command::Jump(0),
        ]],
    };
    let mut player = Player::new(&tune, vec![ChannelPlayer::default()]);
    let mut out: Vec<i8> = vec![0; 16000];
    player.generate(&mut out);
    let peak_of = |range: &[i8]| range.iter().map(|&s| (s as i32).abs()).max().unwrap();
    let early = peak_of(&out[..2000]);
    let late = peak_of(&out[14000..]);
    assert!(early < late, "early peak {} not below late peak {}", early, late);
}

#[test]
fn generation_is_buffer_size_invariant() {
    // pulling 1000 frames in one call or in unequal small calls yields the
    // same samples and leaves the channel in the same state
    let make_tune = || Tune {
        samplerate: 8000,
        beat_length: 250,
        instruments: vec![pure_sine()],
        channels: vec![vec![
            Command::SetInstrument(0),
            Command::Note(C4),
            Command::Beat(1),
            Command::Note(C5),
            Command::Beat(2),
            Command::Jump(0),
        ]],
    };
    let tune = make_tune();
    let mut whole = Player::new(&tune, vec![ChannelPlayer::default()]);
    let mut big: Vec<i8> = vec![0; 2000];
    whole.generate(&mut big);

    let tune_again = make_tune();
    let mut pieces = Player::new(&tune_again, vec![ChannelPlayer::default()]);
    let mut got: Vec<i8> = Vec::new();
    let sizes = [14usize, 86, 300, 100, 250, 250];
    for &frames in sizes.iter() {
        let mut small: Vec<i8> = vec![0; 2 * frames];
        pieces.generate(&mut small);
        got.extend_from_slice(&small);
    }
    assert_eq!(got, big);
}
