//! The channel player (a bytecode-interpreting state machine that drives note
//! timing, instrument switching, looping and panning) and the player that
//! mixes all channels into one interleaved stereo buffer.
use vstd::prelude::*;

use crate::channel::{code_wf, command_ok, ctrl_beat_in, ctrl_reaches_beat, ctrl_step, Command};
use crate::instrument::{
    adsr_spec, can_render, lemma_adsr_can_render, lemma_can_render_mono, lemma_wg_run_can_render,
    render_frames_spec, skip_zero_stages, timer_steps_spec, wg_run_spec, ADSRState, ADSRStep,
    Wavegen, Waveform, WgState,
};
use crate::tune::Tune;

verus! {

/// One channel's execution state: the bytecode cursor, the active instrument
/// and wavegen selection, the frames left in the current note, the oscillator
/// phases and per-sample increments, the stereo pan pair (8-bit fixed point,
/// 256 = unity), the accumulated stereo amplitude, the envelope, and the
/// repeat counter.
#[derive(Clone, Copy, Debug)]
pub struct ChannelPlayer {
    pub command_index: usize,
    pub instrument_index: usize,
    pub wavegen: Wavegen,
    pub note_frames_left: i32,
    pub carrier_step: i32,
    pub carrier_phase: i32,
    pub modulator_step: i32,
    pub modulator_phase: i32,
    pub pan: (i32, i32),
    pub amplitude: (i32, i32),
    pub adsr: ADSRState,
    pub repeat_counter: i32,
}

impl Default for ChannelPlayer {
    /// A channel about to run its first command: cursor and instrument at
    /// zero, a spent note, unity pan, silence, and an exhausted envelope.
    fn default() -> (r: ChannelPlayer)
        ensures
            r == default_channel_player(),
    {
        ChannelPlayer {
            command_index: 0,
            instrument_index: 0,
            wavegen: Wavegen { carrier: Waveform::Sine, modulator: Waveform::Sine },
            note_frames_left: 0,
            carrier_step: 0,
            carrier_phase: 0,
            modulator_step: 0,
            modulator_phase: 0,
            pan: (256, 256),
            amplitude: (0, 0),
            adsr: ADSRState {
                cur_stage: 0,
                stages: [
                    ADSRStep { frames_left: 0, amplitude_step: (0, 0) },
                    ADSRStep { frames_left: 0, amplitude_step: (0, 0) },
                    ADSRStep { frames_left: 0, amplitude_step: (0, 0) },
                    ADSRStep { frames_left: 0, amplitude_step: (0, 0) },
                ],
            },
            repeat_counter: 0,
        }
    }
}

/// The state a fresh channel player starts in.
pub open spec fn default_channel_player() -> ChannelPlayer {
    ChannelPlayer {
        command_index: 0,
        instrument_index: 0,
        wavegen: Wavegen { carrier: Waveform::Sine, modulator: Waveform::Sine },
        note_frames_left: 0,
        carrier_step: 0,
        carrier_phase: 0,
        modulator_step: 0,
        modulator_phase: 0,
        pan: (256i32, 256i32),
        amplitude: (0i32, 0i32),
        adsr: ADSRState {
            cur_stage: 0,
            stages: [
                ADSRStep { frames_left: 0i32, amplitude_step: (0i32, 0i32) },
                ADSRStep { frames_left: 0i32, amplitude_step: (0i32, 0i32) },
                ADSRStep { frames_left: 0i32, amplitude_step: (0i32, 0i32) },
                ADSRStep { frames_left: 0i32, amplitude_step: (0i32, 0i32) },
            ],
        },
        repeat_counter: 0,
    }
}

/// The stereo pan pair a `Pan(offset)` command installs: a linear crossfade,
/// kept inside the 8-bit fixed point range on both branches (the positive
/// branch is two units shy of symmetric for exactly that reason).
pub open spec fn pan_spec(p: i8) -> (i32, i32) {
    if p <= 0 {
        (256i32, (256 + p * 2) as i32)
    } else {
        ((256 - p * 2 - 2) as i32, 256i32)
    }
}

/// Pan boundaries: a zero offset keeps both channels at unity gain, the
/// extreme offsets drive one channel exactly to the fixed point zero floor
/// while the other stays at unity, and no offset ever takes either channel
/// below zero or above unity.
pub proof fn lemma_pan_bounds(p: i8)
    ensures
        pan_spec(0i8) == (256i32, 256i32),
        pan_spec(127i8) == (0i32, 256i32),
        pan_spec(-128i8) == (256i32, 0i32),
        0 <= pan_spec(p).0 <= 256,
        0 <= pan_spec(p).1 <= 256,
{
}

/// Whether the channel's cursor stands on a `Beat` command: the suspension
/// point at which the interpreter returns control to sample generation.
pub open spec fn at_beat(code: Seq<Command>, ch: ChannelPlayer) -> bool {
    (ch.command_index as int) < code.len() && code[ch.command_index as int] is Beat
}

/// One command's effect on the channel state. The cursor moves past the
/// command first; `Jump` then overrides it and `Repeat` may skip one slot.
pub open spec fn step_command_spec(tune: &Tune, code: Seq<Command>, ch: ChannelPlayer) -> ChannelPlayer {
    if ch.command_index as int >= code.len() {
        ch
    } else {
        let next = (ch.command_index + 1) as usize;
        match code[ch.command_index as int] {
            Command::Note(pitch) => {
                let instr = tune.instruments[ch.instrument_index as int];
                let steps = timer_steps_spec(instr, tune.samplerate, pitch as int);
                ChannelPlayer {
                    command_index: next,
                    carrier_step: steps.0,
                    modulator_step: steps.1,
                    ..ch
                }
            },
            Command::SetInstrument(k) => {
                let instr = tune.instruments[k as int];
                ChannelPlayer {
                    command_index: next,
                    instrument_index: k as usize,
                    wavegen: Wavegen {
                        carrier: instr.carrier_waveform,
                        modulator: instr.modulator_waveform,
                    },
                    ..ch
                }
            },
            Command::Beat(beats) => {
                let length = (tune.beat_length * beats) as i32;
                let instr = tune.instruments[ch.instrument_index as int];
                let built = adsr_spec(instr, tune.samplerate as int, length as int, ch.pan);
                let skipped = skip_zero_stages(built, (0i32, 0i32));
                if skipped.1.0 == 0 && skipped.1.1 == 0 {
                    // silence: restart both phases cleanly
                    ChannelPlayer {
                        command_index: next,
                        note_frames_left: length,
                        amplitude: skipped.1,
                        adsr: skipped.0,
                        carrier_phase: 0i32,
                        modulator_phase: instr.modulator_phase as i32,
                        ..ch
                    }
                } else {
                    // audible: keep the phases (masked) to avoid a click
                    ChannelPlayer {
                        command_index: next,
                        note_frames_left: length,
                        amplitude: skipped.1,
                        adsr: skipped.0,
                        carrier_phase: ch.carrier_phase & 0xFFFF,
                        modulator_phase: ch.modulator_phase & 0xFFFF,
                        ..ch
                    }
                }
            },
            Command::Jump(target) => ChannelPlayer { command_index: target as usize, ..ch },
            Command::Repeat(count) => {
                if ch.repeat_counter == 0 {
                    ChannelPlayer { command_index: next, repeat_counter: count as i32, ..ch }
                } else if ch.repeat_counter == 1 {
                    ChannelPlayer {
                        command_index: (ch.command_index + 2) as usize,
                        repeat_counter: 0i32,
                        ..ch
                    }
                } else {
                    ChannelPlayer {
                        command_index: next,
                        repeat_counter: (ch.repeat_counter - 1) as i32,
                        ..ch
                    }
                }
            },
            Command::Pan(p) => ChannelPlayer { command_index: next, pan: pan_spec(p), ..ch },
        }
    }
}

/// The channel state after `n` commands have been interpreted.
pub open spec fn steps_n_spec(tune: &Tune, code: Seq<Command>, ch: ChannelPlayer, n: nat) -> ChannelPlayer
    decreases n,
{
    if n == 0 {
        ch
    } else {
        step_command_spec(tune, code, steps_n_spec(tune, code, ch, (n - 1) as nat))
    }
}

impl ChannelPlayer {
    /// What stays true of a channel player between calls, for the tune and
    /// command stream it runs: the cursor and instrument index are in bounds,
    /// the note counter is nonnegative and the envelope can supply it, the
    /// pan pair sits in the 8-bit fixed point range, and the repeat counter
    /// holds a byte.
    pub open spec fn inv(&self, tune: &Tune, code: Seq<Command>) -> bool {
        &&& (self.command_index as int) < code.len()
        &&& (self.instrument_index as int) < tune.instruments.len()
        &&& 0 <= self.note_frames_left
        &&& 0 <= self.pan.0 <= 256
        &&& 0 <= self.pan.1 <= 256
        &&& self.adsr.cur_stage <= 4
        &&& can_render(self.adsr, self.note_frames_left as int)
        &&& 0 <= self.repeat_counter <= 255
    }

    /// Interpret commands from the cursor until a `Beat` has been processed:
    /// the returned state is exactly the iterated one-command step, stopped
    /// one command past the first `Beat` the interpreter meets.
    pub fn execute(&mut self, tune: &Tune, command_stream: &Vec<Command>)
        requires
            tune.wf(),
            code_wf(command_stream@, tune.instruments.len() as int),
            old(self).inv(tune, command_stream@),
        ensures
            final(self).inv(tune, command_stream@),
            1 <= final(self).note_frames_left,
            exists|n: nat|
                {
                    &&& forall|k: nat|
                        k < n ==> !at_beat(
                            command_stream@,
                            #[trigger] steps_n_spec(tune, command_stream@, *old(self), k),
                        )
                    &&& at_beat(command_stream@, steps_n_spec(tune, command_stream@, *old(self), n))
                    &&& *final(self) == steps_n_spec(
                        tune,
                        command_stream@,
                        *old(self),
                        (n + 1) as nat,
                    )
                },
    {
        let ghost orig = *self;
        let ghost mut steps_done: nat = 0nat;
        proof {
            assert(ctrl_reaches_beat(
                command_stream@,
                orig.command_index as int,
                orig.repeat_counter as int,
            ));
        }
        let ghost mut fuel: nat = choose|f: nat|
            ctrl_beat_in(
                command_stream@,
                orig.command_index as int,
                orig.repeat_counter as int,
                f,
            );
        loop
            invariant_except_break
                tune.wf(),
                code_wf(command_stream@, tune.instruments.len() as int),
                self.inv(tune, command_stream@),
                ctrl_beat_in(
                    command_stream@,
                    self.command_index as int,
                    self.repeat_counter as int,
                    fuel,
                ),
                *self == steps_n_spec(tune, command_stream@, orig, steps_done),
                forall|k: nat|
                    k < steps_done ==> !at_beat(
                        command_stream@,
                        #[trigger] steps_n_spec(tune, command_stream@, orig, k),
                    ),
            ensures
                self.inv(tune, command_stream@),
                1 <= self.note_frames_left,
                exists|n: nat|
                    {
                        &&& forall|k: nat|
                            k < n ==> !at_beat(
                                command_stream@,
                                #[trigger] steps_n_spec(tune, command_stream@, orig, k),
                            )
                        &&& at_beat(command_stream@, steps_n_spec(tune, command_stream@, orig, n))
                        &&& *self == steps_n_spec(tune, command_stream@, orig, (n + 1) as nat)
                    },
            decreases fuel,
        {
            let ghost prev = *self;
            proof {
                assert(command_ok(command_stream@, tune.instruments.len() as int, self.command_index as int));
            }
            let stream_len = command_stream.len();
            let cur = self.command_index;
            proof {
                // the cursor sits strictly inside the stream, so stepping
                // past the command cannot overflow
                assert(cur < stream_len);
            }
            self.command_index = cur + 1;
            match command_stream[cur] {
                Command::Note(pitch) => {
                    proof {
                        assert(tune.instruments[self.instrument_index as int].wf_for(
                            tune.samplerate as int,
                        ));
                    }
                    let instr = &tune.instruments[self.instrument_index];
                    instr.get_timer_steps(
                        tune.samplerate,
                        pitch as i32,
                        &mut self.carrier_step,
                        &mut self.modulator_step,
                    );
                },
                Command::SetInstrument(index) => {
                    self.instrument_index = index as usize;
                    self.wavegen = tune.instruments[self.instrument_index].get_wavegen();
                },
                Command::Beat(beats) => {
                    proof {
                        assert(1 <= tune.beat_length * beats <= tune.beat_length * 255)
                            by (nonlinear_arith)
                            requires
                                1 <= tune.beat_length && 1 <= beats <= 255,
                        ;
                        assert(tune.instruments[self.instrument_index as int].wf_for(
                            tune.samplerate as int,
                        ));
                    }
                    self.note_frames_left = tune.beat_length * (beats as i32);
                    self.amplitude = (0, 0);
                    let instr = &tune.instruments[self.instrument_index];
                    self.adsr = instr.get_adsr(tune.samplerate, self.note_frames_left, self.pan);
                    self.adsr.init_stage_amplitude(&mut self.amplitude);
                    // the phases may restart only from silence; otherwise they
                    // continue (masked into range) to avoid an audible click
                    if self.amplitude.0 == 0 && self.amplitude.1 == 0 {
                        self.carrier_phase = 0;
                        self.modulator_phase = instr.modulator_phase as i32;
                    } else {
                        self.carrier_phase = self.carrier_phase & 0xFFFF;
                        self.modulator_phase = self.modulator_phase & 0xFFFF;
                    }
                    proof {
                        lemma_adsr_can_render(
                            tune.instruments[prev.instrument_index as int],
                            tune.samplerate as int,
                            self.note_frames_left as int,
                            prev.pan,
                            (0i32, 0i32),
                        );
                        assert(*self == step_command_spec(tune, command_stream@, prev));
                        assert(at_beat(command_stream@, steps_n_spec(tune, command_stream@, orig, steps_done)));
                        steps_done = steps_done + 1;
                        assert(*self == steps_n_spec(tune, command_stream@, orig, steps_done));
                    }
                    break ;
                },
                Command::Jump(index) => {
                    self.command_index = index as usize;
                },
                Command::Repeat(count) => {
                    if self.repeat_counter == 0 {
                        self.repeat_counter = count as i32;
                    } else {
                        self.repeat_counter = self.repeat_counter - 1;
                        if self.repeat_counter == 0 {
                            self.command_index = self.command_index + 1;
                        }
                    }
                },
                Command::Pan(pan) => {
                    if pan <= 0 {
                        self.pan.0 = 256;
                        self.pan.1 = 256 + (pan as i32) * 2;
                    } else {
                        self.pan.0 = 256 - (pan as i32) * 2 - 2;
                        self.pan.1 = 256;
                    }
                },
            }
            proof {
                assert(*self == step_command_spec(tune, command_stream@, prev));
                assert(!at_beat(command_stream@, prev));
                steps_done = steps_done + 1;
                assert((self.command_index as int, self.repeat_counter as int) == ctrl_step(
                    command_stream@,
                    prev.command_index as int,
                    prev.repeat_counter as int,
                ));
                fuel = (fuel - 1) as nat;
            }
        }
    }
}

/// How many commands the interpreter processes from `ch` before it has
/// handled a `Beat`, and the state it stops in, given at most `fuel`
/// commands' worth of work: `None` when the beat lies further away than
/// `fuel` commands.
pub open spec fn exec_count_spec(
    tune: &Tune,
    code: Seq<Command>,
    ch: ChannelPlayer,
    fuel: nat,
) -> Option<(ChannelPlayer, nat)>
    decreases fuel,
{
    if fuel == 0 {
        None
    } else {
        let was_beat = at_beat(code, ch);
        let ch1 = step_command_spec(tune, code, ch);
        if was_beat {
            Some((ch1, 1nat))
        } else {
            match exec_count_spec(tune, code, ch1, (fuel - 1) as nat) {
                Option::None => None,
                Option::Some(r) => Some((r.0, (r.1 + 1) as nat)),
            }
        }
    }
}

/// Iterating `n + 1` commands is one command followed by `n` more.
pub proof fn lemma_steps_shift(tune: &Tune, code: Seq<Command>, ch: ChannelPlayer, n: nat)
    ensures
        steps_n_spec(tune, code, ch, (n + 1) as nat) == steps_n_spec(
            tune,
            code,
            step_command_spec(tune, code, ch),
            n,
        ),
    decreases n,
{
    let ch1 = step_command_spec(tune, code, ch);
    if n == 0 {
        assert(steps_n_spec(tune, code, ch, 1nat) == step_command_spec(
            tune,
            code,
            steps_n_spec(tune, code, ch, 0nat),
        ));
    } else {
        lemma_steps_shift(tune, code, ch, (n - 1) as nat);
        assert(steps_n_spec(tune, code, ch, (n + 1) as nat) == step_command_spec(
            tune,
            code,
            steps_n_spec(tune, code, ch, n),
        ));
        assert(steps_n_spec(tune, code, ch1, n) == step_command_spec(
            tune,
            code,
            steps_n_spec(tune, code, ch1, (n - 1) as nat),
        ));
    }
}

/// The counted interpretation is exactly the iterated one-command step: when
/// the first `Beat` lies `n` commands in, any fuel beyond `n` yields the
/// state one command past it and the count `n + 1`, and any smaller fuel
/// yields nothing.
pub proof fn lemma_exec_count_from_trace(
    tune: &Tune,
    code: Seq<Command>,
    ch: ChannelPlayer,
    n: nat,
    f: nat,
)
    requires
        forall|k: nat| k < n ==> !at_beat(code, #[trigger] steps_n_spec(tune, code, ch, k)),
        at_beat(code, steps_n_spec(tune, code, ch, n)),
    ensures
        f >= n + 1 ==> exec_count_spec(tune, code, ch, f) == Some(
            (steps_n_spec(tune, code, ch, (n + 1) as nat), (n + 1) as nat),
        ),
        f <= n ==> exec_count_spec(tune, code, ch, f) is None,
    decreases n, f,
{
    let ch1 = step_command_spec(tune, code, ch);
    if n == 0 {
        assert(at_beat(code, ch));
        if f >= 1 {
            assert(exec_count_spec(tune, code, ch, f) == Some((ch1, 1nat)));
            lemma_steps_shift(tune, code, ch, 0);
        }
    } else {
        assert(!at_beat(code, steps_n_spec(tune, code, ch, 0)));
        assert(forall|k: nat|
            k < (n - 1) as nat ==> !at_beat(code, #[trigger] steps_n_spec(tune, code, ch1, k)))
            by {
            assert forall|k: nat|
                k < (n - 1) as nat implies !at_beat(
                code,
                #[trigger] steps_n_spec(tune, code, ch1, k),
            ) by {
                lemma_steps_shift(tune, code, ch, k);
                assert(steps_n_spec(tune, code, ch1, k) == steps_n_spec(
                    tune,
                    code,
                    ch,
                    (k + 1) as nat,
                ));
            }
        }
        lemma_steps_shift(tune, code, ch, (n - 1) as nat);
        assert(at_beat(code, steps_n_spec(tune, code, ch1, (n - 1) as nat)));
        if f >= 1 {
            lemma_exec_count_from_trace(tune, code, ch1, (n - 1) as nat, (f - 1) as nat);
            if f >= n + 1 {
                lemma_steps_shift(tune, code, ch, n);
            }
        }
    }
}

/// Two command budgets that both suffice to reach the `Beat` agree on where
/// the interpreter stops and on how many commands that took.
pub proof fn lemma_exec_count_deterministic(
    tune: &Tune,
    code: Seq<Command>,
    ch: ChannelPlayer,
    f1: nat,
    f2: nat,
)
    requires
        exec_count_spec(tune, code, ch, f1) is Some,
        exec_count_spec(tune, code, ch, f2) is Some,
    ensures
        exec_count_spec(tune, code, ch, f1) == exec_count_spec(tune, code, ch, f2),
    decreases f1,
{
    if !at_beat(code, ch) {
        lemma_exec_count_deterministic(
            tune,
            code,
            step_command_spec(tune, code, ch),
            (f1 - 1) as nat,
            (f2 - 1) as nat,
        );
    }
}

/// The render loop's budget only decides whether it completes, never what it
/// computes: any two budgets under which the interpretation completes yield
/// the same final channel state and the same samples. The existential budget
/// in `ChannelPlayer::generate`'s contract therefore determines its result
/// uniquely.
pub proof fn lemma_gen_deterministic(
    tune: &Tune,
    code: Seq<Command>,
    ch: ChannelPlayer,
    out: Seq<i8>,
    start: int,
    frames: int,
    f1: nat,
    f2: nat,
)
    requires
        gen_spec(tune, code, ch, out, start, frames, f1) is Some,
        gen_spec(tune, code, ch, out, start, frames, f2) is Some,
    ensures
        gen_spec(tune, code, ch, out, start, frames, f1) == gen_spec(
            tune,
            code,
            ch,
            out,
            start,
            frames,
            f2,
        ),
    decreases f1, frames,
{
    reveal(gen_spec);
    if frames > 0 {
        let step = chunk_step(ch, frames);
        let ch1 = chunk_ch(tune, ch, step);
        let out1 = chunk_out(tune, ch, out, start, step);
        if ch1.note_frames_left <= 0 {
            lemma_exec_count_deterministic(tune, code, ch1, f1, f2);
            let r = exec_count_spec(tune, code, ch1, f1).unwrap();
            lemma_gen_deterministic(
                tune,
                code,
                r.0,
                out1,
                start + step,
                frames - step,
                (f1 - r.1) as nat,
                (f2 - r.1) as nat,
            );
        } else {
            lemma_gen_deterministic(tune, code, ch1, out1, start + step, frames - step, f1, f2);
        }
    }
}

/// How many frames of the note the next chunk renders: the whole buffer
/// remainder, or what is left of the note, whichever is smaller.
pub open spec fn chunk_step(ch: ChannelPlayer, frames: int) -> int {
    let note = if ch.note_frames_left < 0 {
        0int
    } else {
        ch.note_frames_left as int
    };
    if frames < note {
        frames
    } else {
        note
    }
}

/// The channel state after one chunk of `step` frames: the wavegen has
/// advanced the envelope, amplitude and phases (unless the carrier increment
/// is the silence sentinel, which skips it entirely), and the note is `step`
/// frames shorter.
pub open spec fn chunk_ch(tune: &Tune, ch: ChannelPlayer, step: int) -> ChannelPlayer {
    let instr = tune.instruments[ch.instrument_index as int];
    let st0 = WgState {
        adsr: ch.adsr,
        amplitude: ch.amplitude,
        carrier_phase: ch.carrier_phase,
        modulator_phase: ch.modulator_phase,
    };
    let st1 = if ch.carrier_step != 0 {
        wg_run_spec(ch.wavegen, instr, ch.carrier_step, ch.modulator_step, st0, step as nat)
    } else {
        st0
    };
    ChannelPlayer {
        note_frames_left: (ch.note_frames_left - step) as i32,
        adsr: st1.adsr,
        amplitude: st1.amplitude,
        carrier_phase: st1.carrier_phase,
        modulator_phase: st1.modulator_phase,
        ..ch
    }
}

/// The output buffer after one chunk of `step` frames rendered at `start`:
/// unchanged while the carrier increment is the silence sentinel.
pub open spec fn chunk_out(tune: &Tune, ch: ChannelPlayer, out: Seq<i8>, start: int, step: int) -> Seq<i8> {
    let instr = tune.instruments[ch.instrument_index as int];
    let st0 = WgState {
        adsr: ch.adsr,
        amplitude: ch.amplitude,
        carrier_phase: ch.carrier_phase,
        modulator_phase: ch.modulator_phase,
    };
    if ch.carrier_step != 0 {
        render_frames_spec(
            ch.wavegen,
            instr,
            ch.carrier_step,
            ch.modulator_step,
            st0,
            out,
            start,
            step as nat,
        )
    } else {
        out
    }
}

/// Iterating `a + b` commands is `a` commands and then `b` more.
pub proof fn lemma_steps_add(tune: &Tune, code: Seq<Command>, ch: ChannelPlayer, a: nat, b: nat)
    ensures
        steps_n_spec(tune, code, ch, (a + b) as nat) == steps_n_spec(
            tune,
            code,
            steps_n_spec(tune, code, ch, a),
            b,
        ),
    decreases b,
{
    if b > 0 {
        lemma_steps_add(tune, code, ch, a, (b - 1) as nat);
    }
}

/// Whether `code[b..i]` is straight-line: free of the two commands that move
/// the cursor anywhere but one step forward.
pub open spec fn plain_body(code: Seq<Command>, b: int, i: int) -> bool {
    forall|j: int| b <= j < i ==> !((#[trigger] code[j]) is Jump) && !(code[j] is Repeat)
}

/// Running a straight-line body moves the cursor from its start to its end,
/// one command per step, and never touches the repeat counter.
proof fn lemma_plain_run(tune: &Tune, code: Seq<Command>, ch: ChannelPlayer, b: int, i: int)
    requires
        code.len() <= usize::MAX,
        0 <= b <= i < code.len(),
        plain_body(code, b, i),
        ch.command_index == b,
    ensures
        steps_n_spec(tune, code, ch, (i - b) as nat).command_index == i,
        steps_n_spec(tune, code, ch, (i - b) as nat).repeat_counter == ch.repeat_counter,
    decreases i - b,
{
    if b < i {
        let ch1 = step_command_spec(tune, code, ch);
        assert(ch1.command_index == b + 1 && ch1.repeat_counter == ch.repeat_counter);
        lemma_plain_run(tune, code, ch1, b + 1, i);
        lemma_steps_shift(tune, code, ch, (i - b - 1) as nat);
    }
}

/// Each guarded pass through a repeat-counted loop section — the straight-line
/// body `code[b..i]`, the `Repeat` at `i`, and the backward `Jump` at `i + 1`
/// — returns the cursor to the body's start, with the counter armed at the
/// loop count on the first pass and counted down once per later pass.
proof fn lemma_repeat_entry(
    tune: &Tune,
    code: Seq<Command>,
    ch: ChannelPlayer,
    b: int,
    i: int,
    count: u8,
    target: u8,
    p: nat,
)
    requires
        code.len() <= usize::MAX,
        0 <= b <= i,
        i + 2 <= code.len(),
        plain_body(code, b, i),
        code[i] == Command::Repeat(count),
        code[i + 1] == Command::Jump(target),
        target as int == b,
        ch.command_index == b,
        ch.repeat_counter == 0,
        1 <= count,
        p <= count,
    ensures
        steps_n_spec(tune, code, ch, (p * (i - b + 2)) as nat).command_index == b,
        steps_n_spec(tune, code, ch, (p * (i - b + 2)) as nat).repeat_counter == (if p == 0 {
            0int
        } else {
            count + 1 - p
        }),
    decreases p,
{
    let plen = i - b + 2;
    if p == 0 {
        assert(p * plen == 0) by (nonlinear_arith)
            requires
                p == 0,
        ;
    } else {
        lemma_repeat_entry(tune, code, ch, b, i, count, target, (p - 1) as nat);
        let prev_steps = ((p - 1) * plen) as nat;
        let chp = steps_n_spec(tune, code, ch, prev_steps);
        lemma_plain_run(tune, code, chp, b, i);
        lemma_steps_add(tune, code, ch, prev_steps, (i - b) as nat);
        let at_repeat = steps_n_spec(tune, code, chp, (i - b) as nat);
        let after_repeat = step_command_spec(tune, code, at_repeat);
        assert(after_repeat.command_index == i + 1);
        assert(after_repeat.repeat_counter == (if p == 1 {
            count as int
        } else {
            count + 1 - p
        }));
        let after_jump = step_command_spec(tune, code, after_repeat);
        assert(after_jump.command_index == b && after_jump.repeat_counter
            == after_repeat.repeat_counter);
        lemma_steps_add(tune, code, ch, (prev_steps + (i - b)) as nat, 1nat);
        lemma_steps_add(tune, code, ch, (prev_steps + (i - b) + 1) as nat, 1nat);
        assert(p * plen == (p - 1) * plen + plen) by (nonlinear_arith);
        assert(steps_n_spec(tune, code, ch, (prev_steps + (i - b) + 1) as nat) == after_repeat);
        assert(steps_n_spec(tune, code, ch, (prev_steps + (i - b) + 2) as nat) == after_jump);
    }
}

/// Repeat semantics. A repeat-counted loop section — a straight-line body
/// `code[b..i]`, `Repeat(count)` at `i`, and a `Jump` back to `b` at `i + 1`
/// — executes its body exactly `count + 1` times and then falls through: the
/// interpreter enters the body once per pass (at step `p` times the section
/// length for every pass `p` up to and including `count`), and after the last
/// pass the `Repeat` skips the backward jump, leaving the cursor one past it
/// with the counter cleared. A zero count is excluded: with it the counter
/// re-arms to zero on every pass and the section never falls through.
pub proof fn lemma_repeat_semantics(
    tune: &Tune,
    code: Seq<Command>,
    ch: ChannelPlayer,
    b: int,
    i: int,
    count: u8,
    target: u8,
)
    requires
        code.len() <= usize::MAX,
        0 <= b <= i,
        i + 2 <= code.len(),
        plain_body(code, b, i),
        code[i] == Command::Repeat(count),
        code[i + 1] == Command::Jump(target),
        target as int == b,
        ch.command_index == b,
        ch.repeat_counter == 0,
        1 <= count,
    ensures
        forall|p: nat|
            p <= count ==> (#[trigger] steps_n_spec(tune, code, ch, (p * (i - b + 2)) as nat)).command_index
                == b,
        steps_n_spec(
            tune,
            code,
            ch,
            (count * (i - b + 2) + (i - b) + 1) as nat,
        ).command_index == i + 2,
        steps_n_spec(tune, code, ch, (count * (i - b + 2) + (i - b) + 1) as nat).repeat_counter
            == 0,
{
    let plen = i - b + 2;
    assert forall|p: nat|
        p <= count implies (#[trigger] steps_n_spec(
        tune,
        code,
        ch,
        (p * plen) as nat,
    )).command_index == b by {
        lemma_repeat_entry(tune, code, ch, b, i, count, target, p);
    }
    lemma_repeat_entry(tune, code, ch, b, i, count, target, count as nat);
    let last_steps = ((count as nat) * plen) as nat;
    let chp = steps_n_spec(tune, code, ch, last_steps);
    assert(chp.repeat_counter == 1);
    lemma_plain_run(tune, code, chp, b, i);
    lemma_steps_add(tune, code, ch, last_steps, (i - b) as nat);
    let at_repeat = steps_n_spec(tune, code, chp, (i - b) as nat);
    let after_repeat = step_command_spec(tune, code, at_repeat);
    assert(after_repeat.command_index == i + 2 && after_repeat.repeat_counter == 0);
    lemma_steps_add(tune, code, ch, (last_steps + (i - b)) as nat, 1nat);
    assert(steps_n_spec(tune, code, ch, (last_steps + (i - b) + 1) as nat) == after_repeat);
}

/// The channel's pull-based render loop, one buffer chunk at a time: render
/// up to the note's remaining frames with the selected wavegen (skipped
/// entirely while the carrier increment is the silence sentinel), advance the
/// cursor, and when the note runs out interpret bytecode until the next
/// `Beat`; `None` when `fuel` does not cover the commands that takes.
#[verifier::opaque]
pub open spec fn gen_spec(
    tune: &Tune,
    code: Seq<Command>,
    ch: ChannelPlayer,
    out: Seq<i8>,
    start: int,
    frames: int,
    fuel: nat,
) -> Option<(ChannelPlayer, Seq<i8>)>
    decreases fuel, frames,
{
    if frames <= 0 {
        Some((ch, out))
    } else {
        let step = chunk_step(ch, frames);
        let ch1 = chunk_ch(tune, ch, step);
        let out1 = chunk_out(tune, ch, out, start, step);
        if ch1.note_frames_left <= 0 {
            match exec_count_spec(tune, code, ch1, fuel) {
                Option::None => None,
                Option::Some(r) => if 1 <= r.1 <= fuel {
                    gen_spec(tune, code, r.0, out1, start + step, frames - step, (fuel - r.1) as nat)
                } else {
                    None
                },
            }
        } else {
            gen_spec(tune, code, ch1, out1, start + step, frames - step, fuel)
        }
    }
}

/// One chunk of work composes with the rest of the interpretation: if the
/// chunk's end state either still holds note frames (no commands ran) or ran
/// the interpreter through the first `Beat` it meets (`used` commands), then
/// running the interpreter from before the chunk with `used` more fuel is
/// running it from after the chunk.
pub proof fn lemma_gen_compose(
    tune: &Tune,
    code: Seq<Command>,
    pre: ChannelPlayer,
    out_pre: Seq<i8>,
    start0: int,
    rem: int,
    ch2: ChannelPlayer,
    used: nat,
    n_trace: nat,
)
    requires
        1 <= rem,
        ({
            let ch1 = chunk_ch(tune, pre, chunk_step(pre, rem));
            if ch1.note_frames_left > 0 {
                used == 0 && ch2 == ch1
            } else {
                &&& used == n_trace + 1
                &&& forall|k: nat|
                    k < n_trace ==> !at_beat(code, #[trigger] steps_n_spec(tune, code, ch1, k))
                &&& at_beat(code, steps_n_spec(tune, code, ch1, n_trace))
                &&& ch2 == steps_n_spec(tune, code, ch1, (n_trace + 1) as nat)
            }
        }),
    ensures
        forall|f: nat|
            gen_spec(tune, code, pre, out_pre, start0, rem, (used + f) as nat) == #[trigger] gen_spec(
                tune,
                code,
                ch2,
                chunk_out(tune, pre, out_pre, start0, chunk_step(pre, rem)),
                start0 + chunk_step(pre, rem),
                rem - chunk_step(pre, rem),
                f,
            ),
{
    let step = chunk_step(pre, rem);
    let ch1 = chunk_ch(tune, pre, step);
    let out1 = chunk_out(tune, pre, out_pre, start0, step);
    assert forall|f: nat|
        gen_spec(tune, code, pre, out_pre, start0, rem, (used + f) as nat) == #[trigger] gen_spec(
            tune,
            code,
            ch2,
            out1,
            start0 + step,
            rem - step,
            f,
        ) by {
        reveal(gen_spec);
        let fr = (used + f) as nat;
        if ch1.note_frames_left > 0 {
            assert(gen_spec(tune, code, pre, out_pre, start0, rem, fr) == gen_spec(
                tune,
                code,
                ch1,
                out1,
                start0 + step,
                rem - step,
                fr,
            ));
        } else {
            lemma_exec_count_from_trace(tune, code, ch1, n_trace, fr);
            assert(exec_count_spec(tune, code, ch1, fr) == Some((ch2, used)));
            assert(gen_spec(tune, code, pre, out_pre, start0, rem, fr) == gen_spec(
                tune,
                code,
                ch2,
                out1,
                start0 + step,
                rem - step,
                (fr - used) as nat,
            ));
        }
    }
}

impl ChannelPlayer {
    /// One chunk of the render loop: run the selected wavegen over `step`
    /// frames of the current note (skipped entirely while the carrier
    /// increment is the silence sentinel) and take those frames off the note.
    fn render_chunk(&mut self, tune: &Tune, out: &mut Vec<i8>, start_frame: usize, step: usize)
        requires
            tune.wf(),
            (old(self).instrument_index as int) < tune.instruments.len(),
            0 <= old(self).note_frames_left,
            step <= old(self).note_frames_left,
            old(self).adsr.cur_stage <= 4,
            can_render(old(self).adsr, old(self).note_frames_left as int),
            2 * (start_frame + step) <= old(out).len(),
        ensures
            *final(self) == chunk_ch(tune, *old(self), step as int),
            final(out)@ == chunk_out(tune, *old(self), old(out)@, start_frame as int, step as int),
            final(out).len() == old(out).len(),
            final(self).adsr.cur_stage <= 4,
            can_render(final(self).adsr, final(self).note_frames_left as int),
            final(self).note_frames_left == old(self).note_frames_left - step,
    {
        let ghost pre = *self;
        if self.carrier_step != 0 {
            proof {
                lemma_can_render_mono(self.adsr, self.note_frames_left as int, step as int);
            }
            let wg = self.wavegen;
            let instr = &tune.instruments[self.instrument_index];
            wg.run(
                instr,
                &mut self.adsr,
                &mut self.amplitude,
                self.carrier_step,
                &mut self.carrier_phase,
                self.modulator_step,
                &mut self.modulator_phase,
                out,
                start_frame,
                step,
            );
        }
        self.note_frames_left = self.note_frames_left - (step as i32);
        proof {
            if pre.carrier_step != 0 {
                lemma_wg_run_can_render(
                    pre.wavegen,
                    tune.instruments[pre.instrument_index as int],
                    pre.carrier_step,
                    pre.modulator_step,
                    WgState {
                        adsr: pre.adsr,
                        amplitude: pre.amplitude,
                        carrier_phase: pre.carrier_phase,
                        modulator_phase: pre.modulator_phase,
                    },
                    step as nat,
                    pre.note_frames_left as int,
                );
            } else {
                lemma_can_render_mono(
                    pre.adsr,
                    pre.note_frames_left as int,
                    pre.note_frames_left - step,
                );
            }
            assert(*self == chunk_ch(tune, pre, step as int));
            assert(out@ == chunk_out(tune, pre, old(out)@, start_frame as int, step as int));
        }
    }

    /// Fill (additively) the whole stereo buffer with this channel's audio,
    /// interpreting bytecode whenever the current note runs out: exactly the
    /// behavior of `gen_spec` for a large enough command budget. An odd
    /// trailing byte of the buffer is left untouched.
    #[verifier::rlimit(100)]
    pub fn generate(&mut self, tune: &Tune, command_stream: &Vec<Command>, out: &mut Vec<i8>)
        requires
            tune.wf(),
            code_wf(command_stream@, tune.instruments.len() as int),
            old(self).inv(tune, command_stream@),
        ensures
            final(self).inv(tune, command_stream@),
            final(out).len() == old(out).len(),
            exists|fuel: nat|
                #[trigger] gen_spec(
                    tune,
                    command_stream@,
                    *old(self),
                    old(out)@,
                    0,
                    old(out)@.len() as int / 2,
                    fuel,
                ) == Some((*final(self), final(out)@)),
    {
        let total_frames: usize = out.len() / 2;
        let mut start_frame: usize = 0;
        let ghost orig = *self;
        let ghost out0 = out@;
        let ghost mut fuel_spent: nat = 0nat;
        while start_frame < total_frames
            invariant
                tune.wf(),
                code_wf(command_stream@, tune.instruments.len() as int),
                self.inv(tune, command_stream@),
                start_frame <= total_frames,
                total_frames == out.len() / 2,
                out.len() == out0.len(),
                forall|f: nat|
                    gen_spec(
                        tune,
                        command_stream@,
                        orig,
                        out0,
                        0,
                        out0.len() as int / 2,
                        (fuel_spent + f) as nat,
                    ) == #[trigger] gen_spec(
                        tune,
                        command_stream@,
                        *self,
                        out@,
                        start_frame as int,
                        total_frames - start_frame,
                        f,
                    ),
            decreases
                    total_frames - start_frame,
                    (if self.note_frames_left == 0 {
                        1int
                    } else {
                        0int
                    }),
        {
            let ghost pre = *self;
            let ghost out_pre = out@;
            let ghost start0 = start_frame as int;
            let ghost rem = total_frames - start_frame as int;
            let frames_left: usize = total_frames - start_frame;
            let note_usize: usize = self.note_frames_left as usize;
            let step: usize = if frames_left < note_usize {
                frames_left
            } else {
                note_usize
            };
            self.render_chunk(tune, out, start_frame, step);
            let ghost ch1 = *self;
            let ghost out_mid = out@;
            let ghost mut used: nat = 0nat;
            let ghost mut n_trace: nat = 0nat;
            if self.note_frames_left <= 0 {
                self.execute(tune, command_stream);
                proof {
                    n_trace = choose|n: nat|
                        {
                            &&& forall|k: nat|
                                k < n ==> !at_beat(
                                    command_stream@,
                                    #[trigger] steps_n_spec(tune, command_stream@, ch1, k),
                                )
                            &&& at_beat(command_stream@, steps_n_spec(tune, command_stream@, ch1, n))
                            &&& *self == steps_n_spec(tune, command_stream@, ch1, (n + 1) as nat)
                        };
                    used = (n_trace + 1) as nat;
                }
            }
            proof {
                let code = command_stream@;
                // the executable chunk is exactly the interpreter's chunk
                assert(step as int == chunk_step(pre, rem));
                assert(ch1 == chunk_ch(tune, pre, step as int));
                assert(out_mid == chunk_out(tune, pre, out_pre, start0, step as int));
                lemma_gen_compose(tune, code, pre, out_pre, start0, rem, *self, used, n_trace);
                assert forall|f: nat|
                    gen_spec(tune, code, orig, out0, 0, out0.len() as int / 2, ((fuel_spent + used) + f) as nat)
                        == #[trigger] gen_spec(
                        tune,
                        code,
                        *self,
                        out@,
                        start0 + step,
                        rem - step,
                        f,
                    ) by {
                    let fr = (used + f) as nat;
                    assert(gen_spec(tune, code, orig, out0, 0, out0.len() as int / 2, (fuel_spent + fr) as nat)
                        == gen_spec(tune, code, pre, out_pre, start0, rem, fr));
                };
                fuel_spent = (fuel_spent + used) as nat;
            }
            start_frame = start_frame + step;
        }
        proof {
            reveal(gen_spec);
            assert(gen_spec(
                tune,
                command_stream@,
                *self,
                out@,
                start_frame as int,
                total_frames - start_frame,
                0nat,
            ) == Some((*self, out@)));
            assert(gen_spec(tune, command_stream@, orig, out0, 0, out0.len() as int / 2, fuel_spent)
                == Some((*self, out@)));
        }
    }
}

/// An all-zero buffer of `n` samples.
pub open spec fn zero_out(n: nat) -> Seq<i8> {
    Seq::new(n, |k: int| 0i8)
}

/// The whole player's render: channel after channel mixes its audio
/// additively into the buffer, each running `gen_spec` on its own bytecode
/// with its own command budget.
#[verifier::opaque]
pub open spec fn player_gen_spec(
    tune: &Tune,
    chs: Seq<ChannelPlayer>,
    out: Seq<i8>,
    i: int,
    fuels: Seq<nat>,
) -> Option<(Seq<ChannelPlayer>, Seq<i8>)>
    decreases tune.channels.len() - i,
{
    if !(0 <= i < tune.channels.len()) {
        Some((chs, out))
    } else {
        match gen_spec(
            tune,
            tune.channels[i]@,
            chs[i],
            out,
            0,
            out.len() as int / 2,
            fuels[i],
        ) {
            Option::None => None,
            Option::Some(r) => player_gen_spec(tune, chs.update(i, r.0), r.1, i + 1, fuels),
        }
    }
}

/// The player: the tune it performs (borrowed, read-only, outliving the
/// playback session) and one channel player per tune channel.
pub struct Player<'a> {
    pub tune: &'a Tune,
    pub channels: Vec<ChannelPlayer>,
}

impl<'a> Player<'a> {
    /// What stays true of a player between calls: the tune is well formed,
    /// there is one channel player per tune channel, and each holds its
    /// channel's invariant.
    pub open spec fn wf(&self) -> bool {
        &&& self.tune.wf()
        &&& self.channels.len() == self.tune.channels.len()
        &&& forall|i: int|
            0 <= i < self.channels.len() ==> (#[trigger] self.channels[i]).inv(
                self.tune,
                self.tune.channels[i]@,
            )
    }

    /// Bind a tune to its channel players.
    pub fn new(tune: &'a Tune, channels: Vec<ChannelPlayer>) -> (r: Player<'a>)
        ensures
            r.tune == tune,
            r.channels == channels,
    {
        Player { tune, channels }
    }

    /// Fill the interleaved stereo buffer: zero it, then let every channel
    /// player render its channel's audio additively into it, in channel
    /// order — exactly `player_gen_spec` for large enough command budgets.
    pub fn generate(&mut self, out: &mut Vec<i8>)
        requires
            old(self).wf(),
        ensures
            final(self).wf(),
            final(self).tune == old(self).tune,
            final(out).len() == old(out).len(),
            exists|fuels: Seq<nat>|
                #[trigger] player_gen_spec(
                    old(self).tune,
                    old(self).channels@,
                    zero_out(old(out)@.len()),
                    0,
                    fuels,
                ) == Some((final(self).channels@, final(out)@)),
    {
        let buf_len = out.len();
        let mut j: usize = 0;
        while j < buf_len
            invariant
                j <= buf_len,
                out.len() == buf_len,
                forall|k: int| 0 <= k < j ==> out@[k] == 0i8,
            decreases buf_len - j,
        {
            out[j] = 0;
            j = j + 1;
        }
        proof {
            assert(out@ =~= zero_out(buf_len as nat));
        }
        let tune = self.tune;
        let ghost orig_chs = self.channels@;
        let ghost zeros = out@;
        let ghost mut fuels: Seq<nat> = Seq::empty();
        let n_channels = tune.channels.len();
        let mut i: usize = 0;
        while i < n_channels
            invariant
                tune.wf(),
                tune == self.tune,
                n_channels == tune.channels.len(),
                self.channels.len() == tune.channels.len(),
                i <= n_channels,
                forall|k: int|
                    0 <= k < self.channels.len() ==> (#[trigger] self.channels[k]).inv(
                        tune,
                        tune.channels[k]@,
                    ),
                out.len() == zeros.len(),
                fuels.len() == i,
                forall|rest: Seq<nat>|
                    player_gen_spec(tune, orig_chs, zeros, 0, fuels + rest)
                        == #[trigger] player_gen_spec(
                        tune,
                        self.channels@,
                        out@,
                        i as int,
                        fuels + rest,
                    ),
            decreases n_channels - i,
        {
            let ghost chs_pre = self.channels@;
            let ghost out_pre = out@;
            let ghost fuels_pre = fuels;
            let mut ch = self.channels[i];
            ch.generate(tune, &tune.channels[i], out);
            self.channels[i] = ch;
            proof {
                let code = tune.channels[i as int]@;
                let u = choose|u: nat|
                    #[trigger] gen_spec(
                        tune,
                        code,
                        chs_pre[i as int],
                        out_pre,
                        0,
                        out_pre.len() as int / 2,
                        u,
                    ) == Some((ch, out@));
                fuels = fuels.push(u);
                assert(self.channels@ =~= chs_pre.update(i as int, ch));
                assert forall|rest: Seq<nat>|
                    player_gen_spec(tune, orig_chs, zeros, 0, fuels + rest)
                        == #[trigger] player_gen_spec(
                        tune,
                        self.channels@,
                        out@,
                        i + 1,
                        fuels + rest,
                    ) by {
                    assert(fuels_pre + (seq![u] + rest) =~= fuels + rest);
                    assert(player_gen_spec(tune, orig_chs, zeros, 0, fuels + rest)
                        == player_gen_spec(tune, chs_pre, out_pre, i as int, fuels + rest));
                    reveal(player_gen_spec);
                    assert((fuels + rest)[i as int] == u);
                    assert(player_gen_spec(tune, chs_pre, out_pre, i as int, fuels + rest)
                        == player_gen_spec(
                        tune,
                        chs_pre.update(i as int, ch),
                        out@,
                        i + 1,
                        fuels + rest,
                    ));
                };
            }
            i = i + 1;
        }
        proof {
            reveal(player_gen_spec);
            assert(fuels + Seq::<nat>::empty() =~= fuels);
            assert(player_gen_spec(tune, self.channels@, out@, n_channels as int, fuels)
                == Some((self.channels@, out@)));
            assert(player_gen_spec(tune, orig_chs, zeros, 0, fuels) == Some(
                (self.channels@, out@),
            ));
        }
    }
}

} // verus!
