//! The per-channel bytecode: the commands a channel player interprets, and
//! what it means for a command stream to be well formed.
use vstd::prelude::*;

verus! {

/// One bytecode command.
#[derive(Clone, Copy, Debug, PartialEq, Eq, Structural)]
pub enum Command {
    /// Start a note at the given pitch, in semitones from C0 upward; 107 (B8)
    /// is the highest playable note, and any higher value marks a pause.
    /// Does not itself advance time.
    Note(u8),
    /// Switch to the instrument with the given index. Always set the
    /// instrument before starting the note it should play.
    SetInstrument(u8),
    /// Step the given number of beats ahead: the suspension point at which
    /// the interpreter hands control back to sample generation.
    Beat(u8),
    /// Jump to the given command index, unconditionally (used for looping).
    Jump(u8),
    /// Repeat bookkeeping: with the loop counter at zero, arm it with the
    /// given count and fall through; otherwise decrement it, and when it
    /// reaches zero skip exactly the next command. With a backward `Jump`
    /// placed right after it, the jumped-to section runs count + 1 times.
    Repeat(u8),
    /// Set the stereo balance from a signed offset: zero or negative keeps
    /// the left channel at unity and attenuates the right, positive keeps
    /// the right at unity and attenuates the left.
    Pan(i8),
}

/// Whether the command at index `i` keeps the interpreter inside the stream
/// and the instrument list: commands that fall through need a successor,
/// `Repeat` may skip one extra slot, jump targets stay in bounds, instrument
/// indices name an existing instrument, and a beat advances time.
pub open spec fn command_ok(code: Seq<Command>, n_instruments: int, i: int) -> bool {
    match code[i] {
        Command::Note(_) => i + 1 < code.len(),
        Command::SetInstrument(k) => i + 1 < code.len() && (k as int) < n_instruments,
        Command::Beat(b) => i + 1 < code.len() && b >= 1,
        Command::Jump(t) => (t as int) < code.len(),
        Command::Repeat(_) => i + 2 < code.len(),
        Command::Pan(_) => i + 1 < code.len(),
    }
}

/// How one command moves the interpreter's control state: the cursor, and the
/// repeat counter that decides whether a `Repeat` skips the following slot.
/// No other field of the channel state influences control flow.
pub open spec fn ctrl_step(code: Seq<Command>, i: int, rc: int) -> (int, int) {
    if 0 <= i < code.len() {
        match code[i] {
            Command::Jump(t) => (t as int, rc),
            Command::Repeat(c) => if rc == 0 {
                (i + 1, c as int)
            } else if rc == 1 {
                (i + 2, 0int)
            } else {
                (i + 1, rc - 1)
            },
            _ => (i + 1, rc),
        }
    } else {
        (i, rc)
    }
}

/// Whether a `Beat` is processed within `f` commands from control state
/// `(i, rc)`.
pub open spec fn ctrl_beat_in(code: Seq<Command>, i: int, rc: int, f: nat) -> bool
    decreases f,
{
    if 0 <= i < code.len() && code[i] is Beat {
        true
    } else if f == 0 {
        false
    } else {
        let n = ctrl_step(code, i, rc);
        ctrl_beat_in(code, n.0, n.1, (f - 1) as nat)
    }
}

/// Whether a `Beat` is eventually processed from control state `(i, rc)`.
pub open spec fn ctrl_reaches_beat(code: Seq<Command>, i: int, rc: int) -> bool {
    exists|f: nat| ctrl_beat_in(code, i, rc, f)
}

/// A well-formed command stream: nonempty, every command keeps the cursor in
/// bounds, and from every control state the interpreter processes a `Beat`
/// after finitely many commands (each channel section loops back through its
/// beats and never spins without advancing time). A well-formed tune's
/// channels all satisfy this.
pub open spec fn code_wf(code: Seq<Command>, n_instruments: int) -> bool {
    &&& code.len() >= 1
    &&& forall|i: int| 0 <= i < code.len() ==> #[trigger] command_ok(code, n_instruments, i)
    &&& forall|i: int, rc: int|
        0 <= i < code.len() && 0 <= rc <= 255 ==> #[trigger] ctrl_reaches_beat(code, i, rc)
}

} // verus!
