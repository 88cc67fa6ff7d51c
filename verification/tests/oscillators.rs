use lattefm::instrument::{osc, Waveform};
use lattefm::wave::{i16cos, i16noise, i16saw, i16square, i16triangle};

#[test]
fn cosine_known_values() {
    assert_eq!(i16cos(0), 32568);
    assert_eq!(i16cos(1), 32568);
    assert_eq!(i16cos(16384), -8);
    assert_eq!(i16cos(32767), -32582);
    assert_eq!(i16cos(-1), 32568);
    assert_eq!(i16cos(-16384), -6);
    assert_eq!(i16cos(-32768), -32582);
    assert_eq!(i16cos(12345), 12218);
    assert_eq!(i16cos(-12345), 12220);
}

#[test]
fn square_splits_at_sign() {
    assert_eq!(i16square(0), 0x7FFF);
    assert_eq!(i16square(32767), 0x7FFF);
    assert_eq!(i16square(-1), -0x7FFF);
    assert_eq!(i16square(-32768), -0x7FFF);
}

#[test]
fn triangle_known_values() {
    assert_eq!(i16triangle(0), 32767);
    assert_eq!(i16triangle(1), 32765);
    assert_eq!(i16triangle(16384), -1);
    assert_eq!(i16triangle(32767), -32767);
    assert_eq!(i16triangle(-1), 32767);
    assert_eq!(i16triangle(-16384), 1);
    assert_eq!(i16triangle(-32768), -32767);
    assert_eq!(i16triangle(12345), 8077);
    assert_eq!(i16triangle(-12345), 8079);
}

#[test]
fn saw_is_identity() {
    assert_eq!(i16saw(0), 0);
    assert_eq!(i16saw(12345), 12345);
    assert_eq!(i16saw(-12345), -12345);
    assert_eq!(i16saw(-32768), -32768);
}

#[test]
fn noise_is_deterministic() {
    assert_eq!(i16noise(0), -8947);
    assert_eq!(i16noise(1), -12167);
    assert_eq!(i16noise(16384), 3507);
    assert_eq!(i16noise(-16384), 11367);
    assert_eq!(i16noise(12345), -28203);
    // the same phase always yields the same pseudo-random sample
    assert_eq!(i16noise(777), i16noise(777));
}

#[test]
fn periodicity_of_every_oscillator() {
    // f(phase + 65536) == f(phase): one period of the 16-bit phase counter
    let shapes = [
        Waveform::Sine,
        Waveform::Square,
        Waveform::Triangle,
        Waveform::Saw,
        Waveform::Noise,
    ];
    let phases: [i32; 7] = [0, 1, -1, 12345, -12345, 32767, -32768];
    for &w in shapes.iter() {
        for &p in phases.iter() {
            let wrapped = p.wrapping_add(65536);
            assert_eq!(osc(w, p as i16), osc(w, wrapped as i16));
        }
    }
}

#[test]
fn dispatch_selects_the_right_oscillator() {
    assert_eq!(osc(Waveform::Sine, 12345), i16cos(12345));
    assert_eq!(osc(Waveform::Square, 12345), i16square(12345));
    assert_eq!(osc(Waveform::Triangle, 12345), i16triangle(12345));
    assert_eq!(osc(Waveform::Saw, 12345), i16saw(12345));
    assert_eq!(osc(Waveform::Noise, 12345), i16noise(12345));
}
