//! A tune: the immutable data a player performs. Supplied by the caller at
//! startup and only ever read by the engine.
use vstd::prelude::*;

use crate::channel::{code_wf, Command};
use crate::instrument::{modulator_base_of, step_for, Instrument};

verus! {

/// Sample rate, beat length (frames per beat), the instrument list and one
/// bytecode sequence per channel.
pub struct Tune {
    pub samplerate: i32,
    pub beat_length: i32,
    pub instruments: Vec<Instrument>,
    pub channels: Vec<Vec<Command>>,
}

impl Tune {
    /// The shape every tune handed to the engine must have: a positive sample
    /// rate, a beat length whose largest note still fits the frame counter,
    /// at least one instrument, instrument parameters whose derived values
    /// fit their registers at this sample rate, and well-formed bytecode on
    /// every channel.
    pub open spec fn wf(&self) -> bool {
        &&& 1 <= self.samplerate < i32::MAX
        &&& 1 <= self.beat_length
        &&& self.beat_length * 255 <= i32::MAX
        &&& self.instruments.len() >= 1
        &&& forall|k: int|
            0 <= k < self.instruments.len() ==> (#[trigger] self.instruments[k]).wf_for(
                self.samplerate as int,
            )
        &&& forall|c: int|
            0 <= c < self.channels.len() ==> code_wf(
                #[trigger] self.channels[c]@,
                self.instruments.len() as int,
            )
    }
}

impl Instrument {
    /// The machine limits a sample rate imposes on an instrument: the
    /// frequency ratio's denominator is nonzero, the envelope timings times
    /// the sample rate fit the 32-bit registers, and the modulator phase
    /// increment of every playable pitch does too.
    pub open spec fn wf_for(&self, samplerate: int) -> bool {
        &&& self.modulator_div >= 1
        &&& self.attack * samplerate <= i32::MAX
        &&& self.decay * samplerate <= i32::MAX
        &&& self.release * samplerate <= i32::MAX
        &&& forall|p: int|
            0 <= p <= 107 ==> #[trigger] step_for(modulator_base_of(*self, p), samplerate)
                <= i32::MAX
    }
}

} // verus!
