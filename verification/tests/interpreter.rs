use lattefm::channel::Command;
use lattefm::instrument::{Instrument, Waveform};
use lattefm::note_names::{C4, PAUSE};
use lattefm::player::ChannelPlayer;
use lattefm::tune::Tune;

fn sine_instrument() -> Instrument {
    Instrument {
        carrier_waveform: Waveform::Sine,
        amplitude: 65535,
        attack: 0,
        decay: 0,
        sustain: 65535,
        release: 0,
        modulator_waveform: Waveform::Sine,
        modulator_amplitude: 0,
        modulator_mul: 1,
        modulator_div: 1,
        modulator_phase: 0,
    }
}

fn tune_with(channel: Vec<Command>) -> Tune {
    Tune {
        samplerate: 8000,
        beat_length: 100,
        instruments: vec![sine_instrument()],
        channels: vec![channel],
    }
}

#[test]
fn execute_stops_one_past_the_first_beat() {
    let tune = tune_with(vec![
        Command::SetInstrument(0),
        Command::Note(C4),
        Command::Beat(2),
        Command::Jump(0),
    ]);
    let mut ch = ChannelPlayer::default();
    ch.execute(&tune, &tune.channels[0]);
    assert_eq!(ch.command_index, 3);
    assert_eq!(ch.note_frames_left, 200);
    assert_eq!(ch.carrier_step, 2143);
}

#[test]
fn pan_zero_is_unity_on_both_channels() {
    let tune = tune_with(vec![Command::Pan(0), Command::Beat(1), Command::Jump(0)]);
    let mut ch = ChannelPlayer::default();
    ch.execute(&tune, &tune.channels[0]);
    assert_eq!(ch.pan, (256, 256));
}

#[test]
fn pan_extremes_reach_the_zero_floor_without_underflow() {
    let tune = tune_with(vec![
        Command::Pan(127),
        Command::Beat(1),
        Command::Pan(-128),
        Command::Beat(1),
        Command::Pan(3),
        Command::Beat(1),
        Command::Jump(0),
    ]);
    let mut ch = ChannelPlayer::default();
    ch.execute(&tune, &tune.channels[0]);
    // hard right: the left channel sits exactly on the fixed point floor
    assert_eq!(ch.pan, (0, 256));
    ch.execute(&tune, &tune.channels[0]);
    // hard left: the right channel sits exactly on the fixed point floor
    assert_eq!(ch.pan, (256, 0));
    ch.execute(&tune, &tune.channels[0]);
    // in between, both stay within [0, 256]
    assert_eq!(ch.pan, (256 - 6 - 2, 256));
}

#[test]
fn repeat_runs_the_guarded_section_count_plus_one_times() {
    // body = [Note, Beat] at 0..2, Repeat(2) at 2, Jump back at 3
    let tune = tune_with(vec![
        Command::Note(C4),
        Command::Beat(1),
        Command::Repeat(2),
        Command::Jump(0),
        Command::Note(PAUSE),
        Command::Beat(1),
        Command::Jump(4),
    ]);
    let mut ch = ChannelPlayer::default();
    // pass 1: the body runs, stopping one past its Beat
    ch.execute(&tune, &tune.channels[0]);
    assert_eq!(ch.command_index, 2);
    assert_eq!(ch.repeat_counter, 0);
    // pass 2: Repeat arms the counter with 2, Jump re-enters the body
    ch.execute(&tune, &tune.channels[0]);
    assert_eq!(ch.command_index, 2);
    assert_eq!(ch.repeat_counter, 2);
    // pass 3: the counter ticks down and the body runs a third time
    ch.execute(&tune, &tune.channels[0]);
    assert_eq!(ch.command_index, 2);
    assert_eq!(ch.repeat_counter, 1);
    // the counter reaches zero: the backward jump is skipped and execution
    // falls through to the pause section
    ch.execute(&tune, &tune.channels[0]);
    assert_eq!(ch.command_index, 6);
    assert_eq!(ch.repeat_counter, 0);
    assert_eq!(ch.carrier_step, 0);
}

#[test]
fn beat_from_silence_restarts_the_phases() {
    // the default channel accumulates no amplitude before its first beat, so
    // the phases restart cleanly at the instrument's configured offsets
    let mut instr = sine_instrument();
    instr.amplitude = 0;
    instr.sustain = 0;
    instr.modulator_phase = 777;
    let tune = Tune {
        samplerate: 8000,
        beat_length: 100,
        instruments: vec![instr],
        channels: vec![vec![Command::Beat(1), Command::Jump(0)]],
    };
    let mut ch = ChannelPlayer::default();
    ch.carrier_phase = 123456;
    ch.modulator_phase = 654321;
    ch.execute(&tune, &tune.channels[0]);
    assert_eq!(ch.carrier_phase, 0);
    assert_eq!(ch.modulator_phase, 777);
}

#[test]
fn beat_under_audible_amplitude_masks_the_phases() {
    // a full-sustain instrument jumps straight to an audible amplitude, so
    // the phases continue, masked into the 16-bit range, to avoid a click
    let tune = tune_with(vec![Command::Beat(1), Command::Jump(0)]);
    let mut ch = ChannelPlayer::default();
    ch.carrier_phase = 0x2_1234;
    ch.modulator_phase = 0x5_4321;
    ch.execute(&tune, &tune.channels[0]);
    assert_eq!(ch.carrier_phase, 0x1234);
    assert_eq!(ch.modulator_phase, 0x4321);
    assert_eq!(ch.amplitude, (65535 * 256, 65535 * 256));
}

#[test]
fn set_instrument_reselects_the_wavegen() {
    let mut second = sine_instrument();
    second.carrier_waveform = Waveform::Saw;
    second.modulator_waveform = Waveform::Square;
    let tune = Tune {
        samplerate: 8000,
        beat_length: 100,
        instruments: vec![sine_instrument(), second],
        channels: vec![vec![
            Command::SetInstrument(1),
            Command::Beat(1),
            Command::Jump(0),
        ]],
    };
    let mut ch = ChannelPlayer::default();
    ch.execute(&tune, &tune.channels[0]);
    assert_eq!(ch.instrument_index, 1);
    assert_eq!(ch.wavegen.carrier, Waveform::Saw);
    assert_eq!(ch.wavegen.modulator, Waveform::Square);
}
