//! Instruments: immutable synthesis parameters, waveform selection, the
//! pitch-to-phase-increment conversion and the envelope-schedule construction.
use vstd::prelude::*;

use crate::wave::{cos_spec, noise_spec, saw_spec, square_spec, triangle_spec};
use crate::wave::{i16cos, i16noise, i16saw, i16square, i16triangle};

verus! {

/// The closed set of waveform shapes an oscillator can produce.
#[derive(Clone, Copy, Debug, PartialEq, Eq, Structural)]
pub enum Waveform {
    Sine,
    Square,
    Triangle,
    Saw,
    Noise,
}

/// The sample that the oscillator of shape `w` produces at phase `x`.
pub open spec fn osc_spec(w: Waveform, x: i16) -> i16 {
    match w {
        Waveform::Sine => cos_spec(x),
        Waveform::Square => square_spec(x),
        Waveform::Triangle => triangle_spec(x),
        Waveform::Saw => saw_spec(x),
        Waveform::Noise => noise_spec(x),
    }
}

/// Evaluate the oscillator of shape `w` at phase `x`.
pub fn osc(w: Waveform, x: i16) -> (r: i16)
    ensures
        r == osc_spec(w, x),
{
    match w {
        Waveform::Sine => i16cos(x),
        Waveform::Square => i16square(x),
        Waveform::Triangle => i16triangle(x),
        Waveform::Saw => i16saw(x),
        Waveform::Noise => i16noise(x),
    }
}

/// Periodicity of the oscillator bank: every oscillator reads its phase
/// through the low 16 bits only, so advancing a phase register by one full
/// period of 65536 units leaves the sample unchanged, for every representable
/// phase. No extra wraparound handling is needed anywhere else.
pub proof fn lemma_osc_periodic(w: Waveform, phase: i32)
    ensures
        osc_spec(w, phase.wrapping_add(65536) as i16) == osc_spec(w, phase as i16),
{
    assert(phase.wrapping_add(65536) as i16 == phase as i16) by (bit_vector);
}

/// One envelope stage: how many frames it still lasts and the signed
/// amplitude increment applied to each stereo channel once per frame.
#[derive(Clone, Copy, Debug)]
pub struct ADSRStep {
    pub frames_left: i32,
    pub amplitude_step: (i32, i32),
}

/// The four-stage linear-ramp envelope (attack, decay, sustain, release),
/// advanced sample by sample; `cur_stage` selects the active stage.
#[derive(Clone, Copy, Debug)]
pub struct ADSRState {
    pub cur_stage: usize,
    pub stages: [ADSRStep; 4],
}

/// Advancing past zero-length stages: each such stage's whole amplitude step
/// is applied instantaneously, and the cursor moves on, until it reaches a
/// stage with frames left (or runs off the end).
pub open spec fn skip_zero_stages(adsr: ADSRState, amplitude: (i32, i32)) -> (ADSRState, (i32, i32))
    decreases 4 - adsr.cur_stage,
{
    if adsr.cur_stage < 4 && adsr.stages[adsr.cur_stage as int].frames_left == 0 {
        let step = adsr.stages[adsr.cur_stage as int].amplitude_step;
        skip_zero_stages(
            ADSRState { cur_stage: (adsr.cur_stage + 1) as usize, ..adsr },
            (amplitude.0.wrapping_add(step.0), amplitude.1.wrapping_add(step.1)),
        )
    } else {
        (adsr, amplitude)
    }
}

impl ADSRState {
    /// Apply the amplitude steps of all leading zero-length stages and leave
    /// the cursor on the first stage with frames left.
    pub fn init_stage_amplitude(&mut self, amplitude: &mut (i32, i32))
        ensures
            (*final(self), *final(amplitude)) == skip_zero_stages(*old(self), *old(amplitude)),
    {
        while self.cur_stage < 4 && self.stages[self.cur_stage].frames_left == 0
            invariant
                skip_zero_stages(*self, *amplitude) == skip_zero_stages(*old(self), *old(
                    amplitude,
                )),
            decreases 4 - self.cur_stage,
        {
            let step = self.stages[self.cur_stage].amplitude_step;
            amplitude.0 = amplitude.0.wrapping_add(step.0);
            amplitude.1 = amplitude.1.wrapping_add(step.1);
            self.cur_stage = self.cur_stage + 1;
        }
    }
}

impl Default for ADSRState {
    /// A finished envelope: cursor at stage 0, all stages empty and silent.
    fn default() -> (r: ADSRState)
        ensures
            r.cur_stage == 0,
            forall|k: int|
                0 <= k < 4 ==> r.stages[k] == (ADSRStep {
                    frames_left: 0,
                    amplitude_step: (0i32, 0i32),
                }),
    {
        let step = ADSRStep { frames_left: 0, amplitude_step: (0, 0) };
        ADSRState { cur_stage: 0, stages: [step, step, step, step] }
    }
}

/// Immutable synthesis parameters for one instrument, shared by every note
/// that plays it. Amplitudes are 16-bit fixed point gains; attack, decay and
/// release are 12-bit fixed point seconds; the modulator-to-carrier frequency
/// ratio is the integer fraction `modulator_mul / modulator_div`.
#[derive(Clone, Copy, Debug, PartialEq, Eq, Structural)]
pub struct Instrument {
    pub carrier_waveform: Waveform,
    pub amplitude: u16,
    pub attack: u16,
    pub decay: u16,
    pub sustain: u16,
    pub release: u16,
    pub modulator_waveform: Waveform,
    pub modulator_amplitude: u16,
    pub modulator_mul: u16,
    pub modulator_div: u16,
    pub modulator_phase: u16,
}

/// The wavegen selection: the (carrier, modulator) waveform pair picked once
/// per instrument so the per-sample loop never re-dispatches on waveforms.
#[derive(Clone, Copy, Debug, PartialEq, Eq, Structural)]
pub struct Wavegen {
    pub carrier: Waveform,
    pub modulator: Waveform,
}

impl Instrument {
    /// Select the specialized inner loop for this instrument's waveform pair.
    /// The selection is total: every one of the 25 combinations is valid.
    pub fn get_wavegen(&self) -> (r: Wavegen)
        ensures
            r == (Wavegen {
                carrier: self.carrier_waveform,
                modulator: self.modulator_waveform,
            }),
    {
        Wavegen { carrier: self.carrier_waveform, modulator: self.modulator_waveform }
    }
}

/// The highest playable semitone index (B8); anything above is a pause.
pub const MAX_PITCH: u8 = 107;

/// Top-octave note frequencies (C8..B8), multiplied by 65536 and rounded to
/// the nearest integer. Lower octaves are derived by halving.
pub open spec fn note_freq_spec(idx: int) -> u32 {
    if idx == 0 {
        274334289
    } else if idx == 1 {
        290647054
    } else if idx == 2 {
        307929828
    } else if idx == 3 {
        326240288
    } else if idx == 4 {
        345639545
    } else if idx == 5 {
        366192342
    } else if idx == 6 {
        387967272
    } else if idx == 7 {
        411037006
    } else if idx == 8 {
        435478539
    } else if idx == 9 {
        461373440
    } else if idx == 10 {
        488808132
    } else {
        517874176
    }
}

fn note_freq(idx: usize) -> (r: u32)
    requires
        idx < 12,
    ensures
        r == note_freq_spec(idx as int),
        274334289 <= r <= 517874176,
{
    if idx == 0 {
        274334289
    } else if idx == 1 {
        290647054
    } else if idx == 2 {
        307929828
    } else if idx == 3 {
        326240288
    } else if idx == 4 {
        345639545
    } else if idx == 5 {
        366192342
    } else if idx == 6 {
        387967272
    } else if idx == 7 {
        411037006
    } else if idx == 8 {
        435478539
    } else if idx == 9 {
        461373440
    } else if idx == 10 {
        488808132
    } else {
        517874176
    }
}

/// Truncating (round-toward-zero) division, as the machine divides; it agrees
/// with Euclidean division on a nonnegative dividend.
pub open spec fn div_trunc(a: int, b: int) -> int {
    if a >= 0 {
        a / b
    } else {
        -((-a) / b)
    }
}

/// How many octaves below the top octave the pitch lies.
pub open spec fn octave_of(pitch: int) -> int {
    (107 - pitch) / 12
}

/// The index into the top-octave table for the pitch.
pub open spec fn lookup_index_of(pitch: int) -> int {
    octave_of(pitch) * 12 + pitch - 107 + 11
}

/// The per-second phase advance (frequency times 65536) for the pitch: the
/// top-octave table entry halved once per octave below the top.
pub open spec fn carrier_base_of(pitch: int) -> int {
    (note_freq_spec(lookup_index_of(pitch)) >> octave_of(pitch)) as int
}

/// The modulator's per-second phase advance: the carrier's, scaled by the
/// instrument's frequency ratio.
pub open spec fn modulator_base_of(i: Instrument, pitch: int) -> int {
    carrier_base_of(pitch) * (i.modulator_mul as int) / (i.modulator_div as int)
}

/// Converts a per-second phase advance into a per-sample phase increment:
/// division by the sample rate, rounded to nearest by a half-rate bias.
pub open spec fn step_for(base: int, samplerate: int) -> int {
    div_trunc(base - (samplerate + 1) / 2, samplerate) + 1
}

/// The (carrier, modulator) per-sample phase increment pair for a pitch: zero
/// increments above the highest playable note (the silence sentinel), the
/// rounding division of the per-second phase advances otherwise.
pub open spec fn timer_steps_spec(i: Instrument, samplerate: i32, pitch: int) -> (i32, i32) {
    if pitch > 107 {
        (0i32, 0i32)
    } else {
        (
            step_for(carrier_base_of(pitch), samplerate as int) as i32,
            step_for(modulator_base_of(i, pitch), samplerate as int) as i32,
        )
    }
}

impl Instrument {
    /// Convert a pitch (semitones above C0) to the carrier and modulator
    /// per-sample phase increments at the given sample rate. A pitch above
    /// the highest playable note yields zero increments: the silence
    /// sentinel; every playable pitch yields a positive carrier increment.
    pub fn get_timer_steps(
        &self,
        samplerate: i32,
        pitch: i32,
        carrier_step: &mut i32,
        modulator_step: &mut i32,
    )
        requires
            1 <= samplerate < i32::MAX,
            0 <= pitch,
            self.modulator_div >= 1,
            pitch <= 107 ==> step_for(modulator_base_of(*self, pitch as int), samplerate as int)
                <= i32::MAX,
        ensures
            (*final(carrier_step), *final(modulator_step)) == timer_steps_spec(
                *self,
                samplerate,
                pitch as int,
            ),
            pitch > 107 ==> *final(carrier_step) == 0 && *final(modulator_step) == 0,
            pitch <= 107 ==> {
                &&& *final(carrier_step) == step_for(
                    carrier_base_of(pitch as int),
                    samplerate as int,
                )
                &&& *final(modulator_step) == step_for(
                    modulator_base_of(*self, pitch as int),
                    samplerate as int,
                )
                &&& 1 <= *final(carrier_step)
                &&& 0 <= *final(modulator_step)
            },
    {
        let max_note = MAX_PITCH as i32;
        if pitch <= max_note {
            let octave: i32 = (max_note - pitch) / 12;
            assert(12 * octave <= 107 - pitch < 12 * (octave + 1)) by {
                vstd::arithmetic::div_mod::lemma_fundamental_div_mod(107 - pitch, 12);
            };
            let lookup_index: i32 = octave * 12 + pitch - max_note + 11;
            let freq: u32 = note_freq(lookup_index as usize);
            let base_u32: u32 = freq >> (octave as u32);
            assert(base_u32 <= freq && base_u32 >= (freq >> 8u32)) by (bit_vector)
                requires
                    0 <= octave <= 8 && base_u32 == freq >> (octave as u32),
            ;
            assert((freq >> 8u32) >= 1071618) by (bit_vector)
                requires
                    274334289 <= freq <= 517874176,
            ;
            let carrier_base_steps: i32 = base_u32 as i32;
            let half: i32 = (samplerate + 1) / 2;
            assert(half <= samplerate) by {
                vstd::arithmetic::div_mod::lemma_fundamental_div_mod(samplerate + 1, 2);
            };
            let cnum: i32 = carrier_base_steps - half;
            *carrier_step = cnum / samplerate + 1;
            proof {
                if cnum < 0 {
                    assert(0 <= -cnum < samplerate);
                    vstd::arithmetic::div_mod::lemma_basic_div(-cnum as int, samplerate as int);
                }
            }
            proof {
                assert(carrier_base_steps * self.modulator_mul <= 517874176 * 65535)
                    by (nonlinear_arith)
                    requires
                        0 <= carrier_base_steps <= 517874176 && 0 <= self.modulator_mul <= 65535,
                ;
            }
            let modulator_base_steps: i64 = (carrier_base_steps as i64) * (self.modulator_mul
                as i64) / (self.modulator_div as i64);
            let mnum: i64 = modulator_base_steps - (half as i64);
            let mstep: i64 = mnum / (samplerate as i64) + 1;
            proof {
                if mnum < 0 {
                    assert(modulator_base_steps >= 0) by {
                        vstd::arithmetic::div_mod::lemma_div_pos_is_pos(
                            carrier_base_steps as int * self.modulator_mul as int,
                            self.modulator_div as int,
                        );
                    };
                    assert(0 <= -mnum <= samplerate);
                    if -mnum < samplerate {
                        vstd::arithmetic::div_mod::lemma_basic_div(-mnum as int, samplerate as int);
                    } else {
                        assert((-mnum as int) / (samplerate as int) == 1) by {
                            vstd::arithmetic::div_mod::lemma_div_by_multiple(1, samplerate as int);
                        };
                    }
                }
                assert(mstep == step_for(modulator_base_of(*self, pitch as int), samplerate as int));
            }
            *modulator_step = mstep as i32;
        } else {
            *carrier_step = 0;
            *modulator_step = 0;
        }
    }
}

/// The amplitude step applied once per frame in a stage: the stage's total
/// amplitude change spread over its frames, or applied whole at the stage
/// transition if the stage has no frames.
pub open spec fn stage_step_of(total: int, frames: int) -> i32 {
    (if frames > 0 {
        div_trunc(total, frames)
    } else {
        total
    }) as i32
}

/// Frame count of a stage whose length is given in 12-bit fixed point seconds.
pub open spec fn stage_frames_of(seconds: u16, samplerate: int) -> int {
    seconds * samplerate / 4096
}

/// The envelope schedule that `Instrument::get_adsr` builds: attack and decay
/// ramps toward the peak and sustain amplitudes, a release ramp back to zero
/// clamped to the frames that remain, and a silent sustain stage holding
/// whatever the note's length leaves over.
pub open spec fn adsr_spec(i: Instrument, samplerate: int, length: int, pan: (i32, i32)) -> ADSRState {
    let af = stage_frames_of(i.attack, samplerate);
    let df = stage_frames_of(i.decay, samplerate);
    let wanted_rf = stage_frames_of(i.release, samplerate);
    let frames_left = length - af - df;
    let rf = if frames_left < wanted_rf {
        frames_left
    } else {
        wanted_rf
    };
    let sf = length - af - df - rf;
    let decay_base = i.sustain - i.amplitude;
    let release_base = -(i.sustain as int);
    ADSRState {
        cur_stage: 0,
        stages: [
            ADSRStep {
                frames_left: af as i32,
                amplitude_step: (
                    stage_step_of(i.amplitude * pan.0, af),
                    stage_step_of(i.amplitude * pan.1, af),
                ),
            },
            ADSRStep {
                frames_left: df as i32,
                amplitude_step: (
                    stage_step_of(decay_base * pan.0, df),
                    stage_step_of(decay_base * pan.1, df),
                ),
            },
            ADSRStep { frames_left: sf as i32, amplitude_step: (0i32, 0i32) },
            ADSRStep {
                frames_left: rf as i32,
                amplitude_step: (
                    stage_step_of(release_base * pan.0, rf),
                    stage_step_of(release_base * pan.1, rf),
                ),
            },
        ],
    }
}

impl Instrument {
    /// Build the envelope schedule for one note of `length` frames at the
    /// given sample rate and stereo pan pair. The four stage frame counts
    /// always sum to exactly the note's length, and a stage's amplitude is
    /// divided by its frame count only when that count is positive.
    pub fn get_adsr(&self, samplerate: i32, length: i32, pan: (i32, i32)) -> (r: ADSRState)
        requires
            1 <= samplerate < i32::MAX,
            0 <= length,
            self.attack * samplerate <= i32::MAX,
            self.decay * samplerate <= i32::MAX,
            self.release * samplerate <= i32::MAX,
            0 <= pan.0 <= 256,
            0 <= pan.1 <= 256,
        ensures
            r == adsr_spec(*self, samplerate as int, length as int, pan),
            r.cur_stage == 0,
            r.stages[0].frames_left + r.stages[1].frames_left + r.stages[2].frames_left
                + r.stages[3].frames_left == length,
    {
        proof {
            assert(self.amplitude * pan.0 <= 65535 * 256 && self.amplitude * pan.1 <= 65535 * 256
                && -65535 * 256 <= (self.sustain - self.amplitude) * pan.0 <= 65535 * 256 && -65535
                * 256 <= (self.sustain - self.amplitude) * pan.1 <= 65535 * 256 && -65535 * 256
                <= -(self.sustain as int) * pan.0 <= 0 && -65535 * 256 <= -(self.sustain as int)
                * pan.1 <= 0) by (nonlinear_arith)
                requires
                    0 <= self.amplitude <= 65535 && 0 <= self.sustain <= 65535 && 0 <= pan.0 <= 256
                        && 0 <= pan.1 <= 256,
            ;
        }
        // Attack
        let af: i32 = (self.attack as i32) * samplerate / 4096;
        let mut attack0: i32 = (self.amplitude as i32) * pan.0;
        let mut attack1: i32 = (self.amplitude as i32) * pan.1;
        if af > 0 {
            attack0 = attack0 / af;
            attack1 = attack1 / af;
        }
        // Decay
        let df: i32 = (self.decay as i32) * samplerate / 4096;
        let decay_base: i32 = (self.sustain as i32) - (self.amplitude as i32);
        let mut decay0: i32 = decay_base * pan.0;
        let mut decay1: i32 = decay_base * pan.1;
        if df > 0 {
            decay0 = decay0 / df;
            decay1 = decay1 / df;
        }
        // Release, clamped to the frames the attack and decay leave over
        let frames_so_far: i32 = af + df;
        let frames_left: i32 = length - frames_so_far;
        let intended_release: i32 = (self.release as i32) * samplerate / 4096;
        let rf: i32 = if frames_left < intended_release {
            frames_left
        } else {
            intended_release
        };
        let release_base: i32 = -(self.sustain as i32);
        let mut release0: i32 = release_base * pan.0;
        let mut release1: i32 = release_base * pan.1;
        if rf > 0 {
            release0 = release0 / rf;
            release1 = release1 / rf;
        }
        // Sustain holds whatever remains, with no amplitude change
        let sf: i32 = length - af - df - rf;
        ADSRState {
            cur_stage: 0,
            stages: [
                ADSRStep { frames_left: af, amplitude_step: (attack0, attack1) },
                ADSRStep { frames_left: df, amplitude_step: (decay0, decay1) },
                ADSRStep { frames_left: sf, amplitude_step: (0, 0) },
                ADSRStep { frames_left: rf, amplitude_step: (release0, release1) },
            ],
        }
    }
}

/// The total amplitude change one stage contributes to each stereo channel
/// over its lifetime: its per-frame step applied once per frame, or — for a
/// stage with no frames — its whole step applied once at the stage
/// transition.
pub open spec fn stage_applied(s: ADSRStep) -> (int, int) {
    if s.frames_left > 0 {
        (s.frames_left * s.amplitude_step.0, s.frames_left * s.amplitude_step.1)
    } else {
        (s.amplitude_step.0 as int, s.amplitude_step.1 as int)
    }
}

/// The truncation slack a stage can accumulate: under one unit per frame, and
/// none at all for an instantaneous stage.
pub open spec fn stage_slack(s: ADSRStep) -> int {
    if s.frames_left > 0 {
        s.frames_left - 1
    } else {
        0
    }
}

/// The per-frame step both fits its register and, applied over all the
/// stage's frames, reproduces the stage's intended total change to within
/// one unit per frame but the last.
proof fn lemma_stage_step_bounds(total: int, frames: int)
    requires
        i32::MIN <= total <= i32::MAX,
    ensures
        stage_step_of(total, frames) == (if frames > 0 {
            div_trunc(total, frames)
        } else {
            total
        }),
        frames > 0 ==> total - (frames - 1) <= frames * div_trunc(total, frames) <= total + (frames
            - 1),
{
    if frames > 0 {
        if total >= 0 {
            vstd::arithmetic::div_mod::lemma_fundamental_div_mod(total, frames);
            vstd::arithmetic::div_mod::lemma_mod_bound(total, frames);
            vstd::arithmetic::div_mod::lemma_div_is_ordered_by_denominator(total, 1, frames);
            vstd::arithmetic::div_mod::lemma_div_pos_is_pos(total, frames);
        } else {
            vstd::arithmetic::div_mod::lemma_fundamental_div_mod(-total, frames);
            vstd::arithmetic::div_mod::lemma_mod_bound(-total, frames);
            vstd::arithmetic::div_mod::lemma_div_is_ordered_by_denominator(-total, 1, frames);
            vstd::arithmetic::div_mod::lemma_div_pos_is_pos(-total, frames);
            vstd::arithmetic::mul::lemma_mul_unary_negation(frames, (-total) / frames);
        }
    }
}

/// Amplitude continuity: over one completed note, the changes the four
/// envelope stages apply to the accumulated amplitude — each stage's
/// per-frame step times its frame count, or its whole step for an
/// instantaneous stage — telescope back to the starting value, on both
/// stereo channels, within the truncation slack of the three ramp stages
/// (under one unit per rendered frame of each).
pub proof fn lemma_amplitude_continuity(
    i: Instrument,
    samplerate: int,
    length: int,
    pan: (i32, i32),
)
    requires
        1 <= samplerate,
        0 <= length <= i32::MAX,
        i.attack * samplerate <= i32::MAX,
        i.decay * samplerate <= i32::MAX,
        i.release * samplerate <= i32::MAX,
        0 <= pan.0 <= 256,
        0 <= pan.1 <= 256,
    ensures
        ({
            let a = adsr_spec(i, samplerate, length, pan);
            let sum_left = stage_applied(a.stages[0]).0 + stage_applied(a.stages[1]).0
                + stage_applied(a.stages[2]).0 + stage_applied(a.stages[3]).0;
            let sum_right = stage_applied(a.stages[0]).1 + stage_applied(a.stages[1]).1
                + stage_applied(a.stages[2]).1 + stage_applied(a.stages[3]).1;
            let slack = stage_slack(a.stages[0]) + stage_slack(a.stages[1]) + stage_slack(
                a.stages[3],
            );
            &&& -slack <= sum_left <= slack
            &&& -slack <= sum_right <= slack
        }),
{
    let a = adsr_spec(i, samplerate, length, pan);
    let af = stage_frames_of(i.attack, samplerate);
    let df = stage_frames_of(i.decay, samplerate);
    assert(0 <= i.attack * samplerate && 0 <= i.decay * samplerate && 0 <= i.release * samplerate)
        by (nonlinear_arith)
        requires
            0 <= i.attack && 0 <= i.decay && 0 <= i.release && 1 <= samplerate,
    ;
    vstd::arithmetic::div_mod::lemma_div_pos_is_pos(i.attack * samplerate, 4096);
    vstd::arithmetic::div_mod::lemma_div_pos_is_pos(i.decay * samplerate, 4096);
    // intended totals per stage and channel
    let t0 = (i.amplitude * pan.0, i.amplitude * pan.1);
    let t1 = ((i.sustain - i.amplitude) * pan.0, (i.sustain - i.amplitude) * pan.1);
    let t3 = (-(i.sustain as int) * pan.0, -(i.sustain as int) * pan.1);
    assert((i.amplitude * pan.0) + ((i.sustain - i.amplitude) * pan.0) + (-(i.sustain as int)
        * pan.0) == 0) by (nonlinear_arith);
    assert((i.amplitude * pan.1) + ((i.sustain - i.amplitude) * pan.1) + (-(i.sustain as int)
        * pan.1) == 0) by (nonlinear_arith);
    assert(0 <= i.amplitude * pan.0 <= 16776960 && 0 <= i.amplitude * pan.1 <= 16776960)
        by (nonlinear_arith)
        requires
            0 <= i.amplitude <= 65535 && 0 <= pan.0 <= 256 && 0 <= pan.1 <= 256,
    ;
    assert(-16776960 <= (i.sustain - i.amplitude) * pan.0 <= 16776960 && -16776960 <= (i.sustain
        - i.amplitude) * pan.1 <= 16776960) by (nonlinear_arith)
        requires
            0 <= i.amplitude <= 65535 && 0 <= i.sustain <= 65535 && 0 <= pan.0 <= 256 && 0 <= pan.1
                <= 256,
    ;
    assert(-16776960 <= -(i.sustain as int) * pan.0 <= 0 && -16776960 <= -(i.sustain as int)
        * pan.1 <= 0) by (nonlinear_arith)
        requires
            0 <= i.sustain <= 65535 && 0 <= pan.0 <= 256 && 0 <= pan.1 <= 256,
    ;
    vstd::arithmetic::div_mod::lemma_div_is_ordered(i.attack * samplerate, i32::MAX as int, 4096);
    vstd::arithmetic::div_mod::lemma_div_is_ordered(i.decay * samplerate, i32::MAX as int, 4096);
    vstd::arithmetic::div_mod::lemma_div_is_ordered(i.release * samplerate, i32::MAX as int, 4096);
    vstd::arithmetic::div_mod::lemma_div_pos_is_pos(i.release * samplerate, 4096);
    let wanted = stage_frames_of(i.release, samplerate);
    let fl3 = length - af - df;
    let rf = if fl3 < wanted {
        fl3
    } else {
        wanted
    };
    assert(0 <= af <= 524287 && 0 <= df <= 524287 && 0 <= wanted <= 524287);
    assert(-1048574 <= rf <= 524287);
    assert(a.stages[0].frames_left == af && a.stages[1].frames_left == df && a.stages[3].frames_left
        == rf);
    lemma_stage_step_bounds(t0.0, af);
    lemma_stage_step_bounds(t0.1, af);
    lemma_stage_step_bounds(t1.0, df);
    lemma_stage_step_bounds(t1.1, df);
    lemma_stage_step_bounds(t3.0, rf);
    lemma_stage_step_bounds(t3.1, rf);
    assert(a.stages[0].amplitude_step.0 == stage_step_of(t0.0, af) && a.stages[0].amplitude_step.1
        == stage_step_of(t0.1, af));
    assert(a.stages[1].amplitude_step.0 == stage_step_of(t1.0, df) && a.stages[1].amplitude_step.1
        == stage_step_of(t1.1, df));
    assert(a.stages[3].amplitude_step.0 == stage_step_of(t3.0, rf) && a.stages[3].amplitude_step.1
        == stage_step_of(t3.1, rf));
    let s2 = a.stages[2];
    assert(s2.amplitude_step.0 == 0 && s2.amplitude_step.1 == 0);
    assert(s2.frames_left * s2.amplitude_step.0 == 0 && s2.frames_left * s2.amplitude_step.1 == 0)
        by (nonlinear_arith)
        requires
            s2.amplitude_step.0 == 0 && s2.amplitude_step.1 == 0,
    ;
    assert(stage_applied(a.stages[2]).0 == 0 && stage_applied(a.stages[2]).1 == 0);
}

/// The synthesis state a wavegen advances frame by frame: the envelope, the
/// accumulated stereo amplitude (24-bit fixed point, to avoid rounding drift
/// from small per-frame increments), and the two oscillator phases.
#[derive(Clone, Copy, Debug)]
pub struct WgState {
    pub adsr: ADSRState,
    pub amplitude: (i32, i32),
    pub carrier_phase: i32,
    pub modulator_phase: i32,
}

/// The stage array with entry `k` replaced by `v`.
pub open spec fn stages_update(s: [ADSRStep; 4], k: int, v: ADSRStep) -> [ADSRStep; 4] {
    [
        if k == 0 {
            v
        } else {
            s[0]
        },
        if k == 1 {
            v
        } else {
            s[1]
        },
        if k == 2 {
            v
        } else {
            s[2]
        },
        if k == 3 {
            v
        } else {
            s[3]
        },
    ]
}

/// The modulator's contribution to one frame: its sample scaled by the
/// modulation index (the right shift by 20 treats the modulator amplitude as
/// a 12-bit fixed point index over the 16-bit oscillator range).
pub open spec fn mod_value_spec(wg: Wavegen, i: Instrument, modulator_phase: i32) -> i32 {
    (osc_spec(wg.modulator, modulator_phase as i16) as i32).wrapping_mul(
        i.modulator_amplitude as i32,
    ) >> 20u32
}

/// The sample one frame adds into one output channel: the carrier sample
/// scaled by that channel's accumulated amplitude, mapped down to the 8-bit
/// output range.
pub open spec fn frame_out_spec(wg: Wavegen, amp: i32, carrier_phase: i32) -> i8 {
    ((osc_spec(wg.carrier, carrier_phase as i16) as i32).wrapping_mul(amp >> 9u32) >> 23u32) as i8
}

/// One frame of state advance. The carrier phase moves at a rate perturbed by
/// the modulator (phase modulation); the modulator phase moves at its own
/// fixed rate; the amplitude accumulates the active stage's per-frame step;
/// and a stage that runs out of frames hands over to the next one, applying
/// any zero-length stages' whole steps on the way.
pub open spec fn wg_step_spec(
    wg: Wavegen,
    i: Instrument,
    carrier_step: i32,
    modulator_step: i32,
    st: WgState,
) -> WgState {
    let mv = mod_value_spec(wg, i, st.modulator_phase);
    let cph = st.carrier_phase.wrapping_add(
        carrier_step.wrapping_mul(mv.wrapping_add(2048)) >> 11u32,
    );
    let mph = st.modulator_phase.wrapping_add(modulator_step);
    if st.adsr.cur_stage < 4 {
        let cur = st.adsr.cur_stage as int;
        let stage = st.adsr.stages[cur];
        let amp = (
            st.amplitude.0.wrapping_add(stage.amplitude_step.0),
            st.amplitude.1.wrapping_add(stage.amplitude_step.1),
        );
        let fl = stage.frames_left.wrapping_sub(1);
        let stages1 = stages_update(
            st.adsr.stages,
            cur,
            ADSRStep { frames_left: fl, amplitude_step: stage.amplitude_step },
        );
        if fl == 0 {
            let advanced = ADSRState {
                cur_stage: (st.adsr.cur_stage + 1) as usize,
                stages: stages1,
            };
            let skipped = skip_zero_stages(advanced, amp);
            WgState { adsr: skipped.0, amplitude: skipped.1, carrier_phase: cph, modulator_phase: mph }
        } else {
            WgState {
                adsr: ADSRState { cur_stage: st.adsr.cur_stage, stages: stages1 },
                amplitude: amp,
                carrier_phase: cph,
                modulator_phase: mph,
            }
        }
    } else {
        // past the last stage nothing is owed; the phases still advance
        WgState {
            adsr: st.adsr,
            amplitude: st.amplitude,
            carrier_phase: cph,
            modulator_phase: mph,
        }
    }
}

/// `n` frames of state advance.
pub open spec fn wg_run_spec(
    wg: Wavegen,
    i: Instrument,
    carrier_step: i32,
    modulator_step: i32,
    st: WgState,
    n: nat,
) -> WgState
    decreases n,
{
    if n == 0 {
        st
    } else {
        wg_run_spec(wg, i, carrier_step, modulator_step, wg_step_spec(wg, i, carrier_step, modulator_step, st), (n - 1) as nat)
    }
}

/// The output buffer after `n` frames have been rendered additively starting
/// at frame slot `start`: each frame adds its left and right samples into the
/// two interleaved slots it owns, then the state advances.
pub open spec fn render_frames_spec(
    wg: Wavegen,
    i: Instrument,
    carrier_step: i32,
    modulator_step: i32,
    st: WgState,
    out: Seq<i8>,
    start: int,
    n: nat,
) -> Seq<i8>
    decreases n,
{
    if n == 0 {
        out
    } else {
        let l = frame_out_spec(wg, st.amplitude.0, st.carrier_phase);
        let r = frame_out_spec(wg, st.amplitude.1, st.carrier_phase);
        let out1 = out.update(2 * start, out[2 * start].wrapping_add(l)).update(
            2 * start + 1,
            out[2 * start + 1].wrapping_add(r),
        );
        render_frames_spec(
            wg,
            i,
            carrier_step,
            modulator_step,
            wg_step_spec(wg, i, carrier_step, modulator_step, st),
            out1,
            start + 1,
            (n - 1) as nat,
        )
    }
}

/// Whether stages `from` and following can supply `n` more frames, skipping
/// zero-length stages instantaneously and never meeting a negative count.
pub open spec fn stages_cover(adsr: ADSRState, from: int, n: int) -> bool
    decreases 4 - from,
{
    if n <= 0 {
        true
    } else if from < 0 || from >= 4 {
        false
    } else {
        let fl = adsr.stages[from].frames_left;
        if fl == 0 {
            stages_cover(adsr, from + 1, n)
        } else {
            fl > 0 && (n <= fl || stages_cover(adsr, from + 1, n - fl))
        }
    }
}

/// Whether the envelope can be advanced by `n` frames from where it stands:
/// either nothing is asked, or the active stage has frames left and the
/// schedule covers the rest.
pub open spec fn can_render(adsr: ADSRState, n: int) -> bool {
    n <= 0 || (adsr.cur_stage < 4 && {
        let fl = adsr.stages[adsr.cur_stage as int].frames_left;
        fl > 0 && (n <= fl || stages_cover(adsr, adsr.cur_stage + 1, n - fl))
    })
}

/// Coverage only reads the stage entries at `from` and beyond, so it is
/// insensitive to what the entries before `from` hold.
pub proof fn lemma_cover_congruence(a: ADSRState, b: ADSRState, from: int, n: int)
    requires
        forall|k: int| from <= k < 4 ==> a.stages[k] == b.stages[k],
    ensures
        stages_cover(a, from, n) == stages_cover(b, from, n),
    decreases 4 - from,
{
    if n <= 0 || from < 0 || from >= 4 {
    } else {
        let fl = a.stages[from].frames_left;
        if fl == 0 {
            lemma_cover_congruence(a, b, from + 1, n);
        } else {
            lemma_cover_congruence(a, b, from + 1, n - fl);
        }
    }
}

/// Coverage of `n` frames includes coverage of any smaller demand.
pub proof fn lemma_cover_mono(adsr: ADSRState, from: int, n: int, m: int)
    requires
        stages_cover(adsr, from, n),
        m <= n,
    ensures
        stages_cover(adsr, from, m),
    decreases 4 - from,
{
    if m <= 0 || n <= 0 || from < 0 || from >= 4 {
    } else {
        let fl = adsr.stages[from].frames_left;
        if fl == 0 {
            lemma_cover_mono(adsr, from + 1, n, m);
        } else {
            if n <= fl {
            } else {
                lemma_cover_mono(adsr, from + 1, n - fl, m - fl);
            }
        }
    }
}

/// A renderable envelope is renderable for any smaller demand.
pub proof fn lemma_can_render_mono(adsr: ADSRState, n: int, m: int)
    requires
        can_render(adsr, n),
        m <= n,
    ensures
        can_render(adsr, m),
{
    if m > 0 {
        let fl = adsr.stages[adsr.cur_stage as int].frames_left;
        if n <= fl {
        } else {
            lemma_cover_mono(adsr, adsr.cur_stage + 1, n - fl, m - fl);
        }
    }
}

/// Skipping zero-length stages from a position whose schedule covers `n`
/// frames lands on a stage that can render them.
pub proof fn lemma_skip_can_render(adsr: ADSRState, amplitude: (i32, i32), n: int)
    requires
        adsr.cur_stage <= 4,
        stages_cover(adsr, adsr.cur_stage as int, n),
    ensures
        can_render(skip_zero_stages(adsr, amplitude).0, n),
        skip_zero_stages(adsr, amplitude).0.cur_stage <= 4,
        skip_zero_stages(adsr, amplitude).0.stages == adsr.stages,
    decreases 4 - adsr.cur_stage,
{
    if n <= 0 {
        if adsr.cur_stage < 4 && adsr.stages[adsr.cur_stage as int].frames_left == 0 {
            let next = ADSRState { cur_stage: (adsr.cur_stage + 1) as usize, ..adsr };
            lemma_skip_can_render(
                next,
                (
                    amplitude.0.wrapping_add(adsr.stages[adsr.cur_stage as int].amplitude_step.0),
                    amplitude.1.wrapping_add(adsr.stages[adsr.cur_stage as int].amplitude_step.1),
                ),
                n,
            );
        }
    } else {
        let fl = adsr.stages[adsr.cur_stage as int].frames_left;
        if fl == 0 {
            let next = ADSRState { cur_stage: (adsr.cur_stage + 1) as usize, ..adsr };
            lemma_cover_congruence(adsr, next, adsr.cur_stage + 1, n);
            assert(stages_cover(next, next.cur_stage as int, n));
            lemma_skip_can_render(
                next,
                (
                    amplitude.0.wrapping_add(adsr.stages[adsr.cur_stage as int].amplitude_step.0),
                    amplitude.1.wrapping_add(adsr.stages[adsr.cur_stage as int].amplitude_step.1),
                ),
                n,
            );
        }
    }
}

/// One frame of advance keeps the envelope renderable for what remains.
pub proof fn lemma_wg_step_can_render(
    wg: Wavegen,
    i: Instrument,
    carrier_step: i32,
    modulator_step: i32,
    st: WgState,
    n: int,
)
    requires
        1 <= n,
        can_render(st.adsr, n),
    ensures
        can_render(wg_step_spec(wg, i, carrier_step, modulator_step, st).adsr, n - 1),
        wg_step_spec(wg, i, carrier_step, modulator_step, st).adsr.cur_stage <= 4,
{
    let cur = st.adsr.cur_stage as int;
    let stage = st.adsr.stages[cur];
    let fl = stage.frames_left;
    let fl1 = fl.wrapping_sub(1);
    assert(fl1 == fl - 1);
    let stages1 = stages_update(
        st.adsr.stages,
        cur,
        ADSRStep { frames_left: fl1, amplitude_step: stage.amplitude_step },
    );
    let adsr1 = ADSRState { cur_stage: st.adsr.cur_stage, stages: stages1 };
    if fl1 == 0 {
        let advanced = ADSRState { cur_stage: (st.adsr.cur_stage + 1) as usize, stages: stages1 };
        if n - 1 > 0 {
            // fl was exactly 1, so the remaining demand moved wholly past it
            assert(stages_cover(st.adsr, cur + 1, n - fl));
            lemma_cover_congruence(st.adsr, advanced, cur + 1, n - 1);
        }
        lemma_skip_can_render(advanced, (0, 0), n - 1);
        let skipped0 = skip_zero_stages(
            advanced,
            (
                st.amplitude.0.wrapping_add(stage.amplitude_step.0),
                st.amplitude.1.wrapping_add(stage.amplitude_step.1),
            ),
        ).0;
        lemma_skip_amp_independent(
            advanced,
            (0, 0),
            (
                st.amplitude.0.wrapping_add(stage.amplitude_step.0),
                st.amplitude.1.wrapping_add(stage.amplitude_step.1),
            ),
        );
    } else {
        if n - 1 > 0 {
            if n <= fl {
            } else {
                lemma_cover_congruence(st.adsr, adsr1, cur + 1, n - fl);
            }
        }
    }
}

impl Wavegen {
    /// Render `n_frames` interleaved stereo frames additively into `out`,
    /// starting at frame slot `start_frame`, advancing the envelope, the
    /// accumulated amplitude and both oscillator phases exactly one frame at
    /// a time as `wg_step_spec` describes.
    #[verifier::rlimit(60)]
    pub fn run(
        &self,
        instr: &Instrument,
        adsr: &mut ADSRState,
        amplitude: &mut (i32, i32),
        carrier_step: i32,
        carrier_phase: &mut i32,
        modulator_step: i32,
        modulator_phase: &mut i32,
        out: &mut Vec<i8>,
        start_frame: usize,
        n_frames: usize,
    )
        requires
            old(adsr).cur_stage <= 4,
            can_render(*old(adsr), n_frames as int),
            2 * (start_frame + n_frames) <= old(out).len(),
        ensures
            ({
                let st0 = WgState {
                    adsr: *old(adsr),
                    amplitude: *old(amplitude),
                    carrier_phase: *old(carrier_phase),
                    modulator_phase: *old(modulator_phase),
                };
                let st1 = wg_run_spec(*self, *instr, carrier_step, modulator_step, st0, n_frames as nat);
                &&& *final(adsr) == st1.adsr
                &&& *final(amplitude) == st1.amplitude
                &&& *final(carrier_phase) == st1.carrier_phase
                &&& *final(modulator_phase) == st1.modulator_phase
                &&& final(out)@ == render_frames_spec(
                    *self,
                    *instr,
                    carrier_step,
                    modulator_step,
                    st0,
                    old(out)@,
                    start_frame as int,
                    n_frames as nat,
                )
            }),
            final(out).len() == old(out).len(),
            final(adsr).cur_stage <= 4,
    {
        let ghost st0 = WgState {
            adsr: *adsr,
            amplitude: *amplitude,
            carrier_phase: *carrier_phase,
            modulator_phase: *modulator_phase,
        };
        let ghost out0 = out@;
        let mut k: usize = 0;
        while k < n_frames
            invariant
                k <= n_frames,
                2 * (start_frame + n_frames) <= out.len(),
                out.len() == out0.len(),
                adsr.cur_stage <= 4,
                can_render(*adsr, n_frames - k),
                wg_run_spec(*self, *instr, carrier_step, modulator_step, st0, n_frames as nat)
                    == wg_run_spec(
                    *self,
                    *instr,
                    carrier_step,
                    modulator_step,
                    WgState {
                        adsr: *adsr,
                        amplitude: *amplitude,
                        carrier_phase: *carrier_phase,
                        modulator_phase: *modulator_phase,
                    },
                    (n_frames - k) as nat,
                ),
                render_frames_spec(
                    *self,
                    *instr,
                    carrier_step,
                    modulator_step,
                    st0,
                    out0,
                    start_frame as int,
                    n_frames as nat,
                ) == render_frames_spec(
                    *self,
                    *instr,
                    carrier_step,
                    modulator_step,
                    WgState {
                        adsr: *adsr,
                        amplitude: *amplitude,
                        carrier_phase: *carrier_phase,
                        modulator_phase: *modulator_phase,
                    },
                    out@,
                    start_frame + k,
                    (n_frames - k) as nat,
                ),
            decreases n_frames - k,
        {
            let ghost st_pre = WgState {
                adsr: *adsr,
                amplitude: *amplitude,
                carrier_phase: *carrier_phase,
                modulator_phase: *modulator_phase,
            };
            let ghost old_out_iter = out@;
            let idx: usize = start_frame + k;
            // the modulator perturbs the carrier's rate, not its amplitude
            let modulator: i16 = osc(
                self.modulator,
                #[verifier::truncate]
                (*modulator_phase as i16),
            );
            let mod_value: i32 = (modulator as i32).wrapping_mul(instr.modulator_amplitude as i32)
                >> 20u32;
            let carrier: i32 = osc(
                self.carrier,
                #[verifier::truncate]
                (*carrier_phase as i16),
            ) as i32;
            let left: i8 = #[verifier::truncate] ((carrier.wrapping_mul(amplitude.0 >> 9u32)
                >> 23u32) as i8);
            let right: i8 = #[verifier::truncate] ((carrier.wrapping_mul(amplitude.1 >> 9u32)
                >> 23u32) as i8);
            out[2 * idx] = out[2 * idx].wrapping_add(left);
            out[2 * idx + 1] = out[2 * idx + 1].wrapping_add(right);
            *carrier_phase = carrier_phase.wrapping_add(
                carrier_step.wrapping_mul(mod_value.wrapping_add(2048)) >> 11u32,
            );
            *modulator_phase = modulator_phase.wrapping_add(modulator_step);
            let stage = adsr.stages[adsr.cur_stage];
            amplitude.0 = amplitude.0.wrapping_add(stage.amplitude_step.0);
            amplitude.1 = amplitude.1.wrapping_add(stage.amplitude_step.1);
            let fl: i32 = stage.frames_left.wrapping_sub(1);
            adsr.stages[adsr.cur_stage] = ADSRStep {
                frames_left: fl,
                amplitude_step: stage.amplitude_step,
            };
            let ghost adsr_mid = *adsr;
            let ghost amp_mid = *amplitude;
            if fl == 0 {
                adsr.cur_stage = adsr.cur_stage + 1;
                adsr.init_stage_amplitude(amplitude);
            }
            proof {
                let cur = st_pre.adsr.cur_stage as int;
                let stages1 = stages_update(
                    st_pre.adsr.stages,
                    cur,
                    ADSRStep { frames_left: fl, amplitude_step: stage.amplitude_step },
                );
                assert(adsr_mid.stages =~= stages1);
                let st_post = WgState {
                    adsr: *adsr,
                    amplitude: *amplitude,
                    carrier_phase: *carrier_phase,
                    modulator_phase: *modulator_phase,
                };
                if fl == 0 {
                    let advanced = ADSRState {
                        cur_stage: (st_pre.adsr.cur_stage + 1) as usize,
                        stages: stages1,
                    };
                    assert((*adsr, *amplitude) == skip_zero_stages(advanced, amp_mid));
                }
                assert(st_post == wg_step_spec(*self, *instr, carrier_step, modulator_step, st_pre));
                lemma_wg_step_can_render(
                    *self,
                    *instr,
                    carrier_step,
                    modulator_step,
                    st_pre,
                    n_frames - k,
                );
                // one frame of the remaining run has been performed
                let nrem = (n_frames - k) as nat;
                assert(wg_run_spec(*self, *instr, carrier_step, modulator_step, st_pre, nrem)
                    == wg_run_spec(
                    *self,
                    *instr,
                    carrier_step,
                    modulator_step,
                    st_post,
                    (nrem - 1) as nat,
                ));
                let out_pre = old_out_iter;
                let l_spec = frame_out_spec(*self, st_pre.amplitude.0, st_pre.carrier_phase);
                let r_spec = frame_out_spec(*self, st_pre.amplitude.1, st_pre.carrier_phase);
                assert(left == l_spec && right == r_spec);
                let out1 = out_pre.update(2 * (start_frame + k), out_pre[2 * (start_frame + k)].wrapping_add(l_spec)).update(
                    2 * (start_frame + k) + 1,
                    out_pre[2 * (start_frame + k) + 1].wrapping_add(r_spec),
                );
                assert(out@ =~= out1);
                assert(render_frames_spec(
                    *self,
                    *instr,
                    carrier_step,
                    modulator_step,
                    st_pre,
                    out_pre,
                    start_frame + k,
                    nrem,
                ) == render_frames_spec(
                    *self,
                    *instr,
                    carrier_step,
                    modulator_step,
                    st_post,
                    out1,
                    start_frame + k + 1,
                    (nrem - 1) as nat,
                ));
            }
            k = k + 1;
        }
    }
}

/// A run of `m` frames keeps the envelope renderable for what remains.
pub proof fn lemma_wg_run_can_render(
    wg: Wavegen,
    i: Instrument,
    carrier_step: i32,
    modulator_step: i32,
    st: WgState,
    m: nat,
    n: int,
)
    requires
        m <= n,
        st.adsr.cur_stage <= 4,
        can_render(st.adsr, n),
    ensures
        can_render(wg_run_spec(wg, i, carrier_step, modulator_step, st, m).adsr, n - m),
        wg_run_spec(wg, i, carrier_step, modulator_step, st, m).adsr.cur_stage <= 4,
    decreases m,
{
    if m > 0 {
        lemma_wg_step_can_render(wg, i, carrier_step, modulator_step, st, n);
        lemma_wg_run_can_render(
            wg,
            i,
            carrier_step,
            modulator_step,
            wg_step_spec(wg, i, carrier_step, modulator_step, st),
            (m - 1) as nat,
            n - 1,
        );
    }
}

/// A freshly built envelope, once its leading zero-length stages have been
/// skipped, can render the whole note it was built for: the attack, decay and
/// sustain counts are nonnegative and the release clamp makes the four counts
/// cover the note's length exactly (or the first stages alone overrun it).
pub proof fn lemma_adsr_can_render(
    i: Instrument,
    samplerate: int,
    length: int,
    pan: (i32, i32),
    amplitude: (i32, i32),
)
    requires
        1 <= samplerate,
        0 <= length <= i32::MAX,
        i.attack * samplerate <= i32::MAX,
        i.decay * samplerate <= i32::MAX,
        i.release * samplerate <= i32::MAX,
    ensures
        can_render(skip_zero_stages(adsr_spec(i, samplerate, length, pan), amplitude).0, length),
        skip_zero_stages(adsr_spec(i, samplerate, length, pan), amplitude).0.cur_stage <= 4,
{
    let a = adsr_spec(i, samplerate, length, pan);
    assert(0 <= i.attack * samplerate && 0 <= i.decay * samplerate && 0 <= i.release * samplerate)
        by (nonlinear_arith)
        requires
            0 <= i.attack && 0 <= i.decay && 0 <= i.release && 1 <= samplerate,
    ;
    let af = stage_frames_of(i.attack, samplerate);
    let df = stage_frames_of(i.decay, samplerate);
    let wanted = stage_frames_of(i.release, samplerate);
    vstd::arithmetic::div_mod::lemma_div_is_ordered(0, i.attack * samplerate, 4096);
    vstd::arithmetic::div_mod::lemma_div_is_ordered(0, i.decay * samplerate, 4096);
    vstd::arithmetic::div_mod::lemma_div_is_ordered(0, i.release * samplerate, 4096);
    vstd::arithmetic::div_mod::lemma_div_is_ordered(i.attack * samplerate, i32::MAX as int, 4096);
    vstd::arithmetic::div_mod::lemma_div_is_ordered(i.decay * samplerate, i32::MAX as int, 4096);
    vstd::arithmetic::div_mod::lemma_div_is_ordered(i.release * samplerate, i32::MAX as int, 4096);
    assert(0 <= af <= i32::MAX && 0 <= df <= i32::MAX && 0 <= wanted <= i32::MAX);
    reveal_with_fuel(stages_cover, 6);
    assert(stages_cover(a, 0, length));
    lemma_skip_can_render(a, amplitude, length);
}

/// The stage cursor that skipping lands on does not depend on the amplitude
/// the skip is threading through.
pub proof fn lemma_skip_amp_independent(adsr: ADSRState, a: (i32, i32), b: (i32, i32))
    ensures
        skip_zero_stages(adsr, a).0 == skip_zero_stages(adsr, b).0,
    decreases 4 - adsr.cur_stage,
{
    if adsr.cur_stage < 4 && adsr.stages[adsr.cur_stage as int].frames_left == 0 {
        let step = adsr.stages[adsr.cur_stage as int].amplitude_step;
        let next = ADSRState { cur_stage: (adsr.cur_stage + 1) as usize, ..adsr };
        lemma_skip_amp_independent(
            next,
            (a.0.wrapping_add(step.0), a.1.wrapping_add(step.1)),
            (b.0.wrapping_add(step.0), b.1.wrapping_add(step.1)),
        );
    }
}

} // verus!
