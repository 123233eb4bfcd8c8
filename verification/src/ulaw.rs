//! The G.711 mu-law code for voice samples.

use vstd::prelude::*;

verus! {

/// The code of silence.
pub const SILENCE: u8 = 0xff;

/// The lowest magnitude, with the bias added, of a segment of the code.
pub open spec fn segment_base(segment: nat) -> nat {
    if segment == 0 {
        0x80
    } else if segment == 1 {
        0x100
    } else if segment == 2 {
        0x200
    } else if segment == 3 {
        0x400
    } else if segment == 4 {
        0x800
    } else if segment == 5 {
        0x1000
    } else if segment == 6 {
        0x2000
    } else {
        0x4000
    }
}

/// The segment that a biased magnitude lies in.
pub open spec fn segment_of(m: nat) -> nat {
    if m >= 0x4000 {
        7
    } else if m >= 0x2000 {
        6
    } else if m >= 0x1000 {
        5
    } else if m >= 0x800 {
        4
    } else if m >= 0x400 {
        3
    } else if m >= 0x200 {
        2
    } else if m >= 0x100 {
        1
    } else {
        0
    }
}

/// `n` times two to the power of a segment's number.
pub open spec fn scaled(n: int, segment: nat) -> int {
    if segment == 0 {
        n
    } else if segment == 1 {
        n * 2
    } else if segment == 2 {
        n * 4
    } else if segment == 3 {
        n * 8
    } else if segment == 4 {
        n * 16
    } else if segment == 5 {
        n * 32
    } else if segment == 6 {
        n * 64
    } else {
        n * 128
    }
}

/// How many whole steps of a segment a biased magnitude holds; the steps of the
/// lowest segment are 8 wide, and those of each next one twice as wide.
pub open spec fn steps_in(m: nat, segment: nat) -> nat {
    if segment == 0 {
        m / 8
    } else if segment == 1 {
        m / 16
    } else if segment == 2 {
        m / 32
    } else if segment == 3 {
        m / 64
    } else if segment == 4 {
        m / 128
    } else if segment == 5 {
        m / 256
    } else if segment == 6 {
        m / 512
    } else {
        m / 1024
    }
}

/// A sample's magnitude, at most 32635, with the bias of 132 added.
pub open spec fn biased(sample: int) -> nat {
    let a = if sample < 0 {
        -sample
    } else {
        sample
    };
    (if a > 32635 {
        32635int
    } else {
        a
    } + 132) as nat
}

/// The code of a sample: sign, segment and one of sixteen steps within it, all
/// bits inverted.
pub open spec fn code_of(sample: int) -> nat {
    let m = biased(sample);
    let e = segment_of(m);
    let mantissa = steps_in(m, e) % 16;
    let sign: nat = if sample < 0 {
        128
    } else {
        0
    };
    (255 - (sign + e * 16 + mantissa)) as nat
}

/// The sample that a code stands for: the middle of its step.
pub open spec fn sample_of(code: u8) -> int {
    let raw = 255 - code;
    let e = (raw / 16 % 8) as nat;
    let mantissa = raw % 16;
    let m = scaled(mantissa * 8 + 132, e) - 132;
    if raw >= 128 {
        -m
    } else {
        m
    }
}

/// Encodes a sample.
pub fn linear_to_ulaw(sample: i16) -> (r: u8)
    ensures
        r == code_of(sample as int),
{
    let mut sign: u8 = 0;
    let mut magnitude: i32 = sample as i32;
    if magnitude < 0 {
        magnitude = -magnitude;
        sign = 128;
    }
    if magnitude > 32635 {
        magnitude = 32635;
    }
    let m: u16 = magnitude as u16 + 132;
    let mut e: u8 = 7;
    let mut base: u16 = 0x4000;
    while m < base && e > 0
        invariant
            132 <= m <= 32767,
            e <= 7,
            base == segment_base(e as nat),
            e < 7 ==> m < segment_base((e + 1) as nat),
        decreases e,
    {
        e -= 1;
        base = base / 2;
    }
    let step: u16 = base / 16;
    assert(e == segment_of(m as nat));
    assert(m / step == steps_in(m as nat, e as nat)) by {
        if e == 0 {
            assert(step == 8);
        } else if e == 1 {
            assert(step == 16);
        } else if e == 2 {
            assert(step == 32);
        } else if e == 3 {
            assert(step == 64);
        } else if e == 4 {
            assert(step == 128);
        } else if e == 5 {
            assert(step == 256);
        } else if e == 6 {
            assert(step == 512);
        } else {
            assert(step == 1024);
        }
    }
    let mantissa: u8 = (m / step % 16) as u8;
    255 - (sign + e * 16 + mantissa)
}

/// Decodes a sample.
pub fn ulaw_to_linear(ulaw_byte: u8) -> (r: i16)
    ensures
        r == sample_of(ulaw_byte),
{
    let raw: u8 = 255 - ulaw_byte;
    let e: u8 = raw / 16 % 8;
    let mantissa: i16 = (raw % 16) as i16;
    let mut m: i16 = mantissa * 8 + 132;
    let ghost coarse = m as int;
    let mut k: u8 = 0;
    while k < e
        invariant
            k <= e <= 7,
            132 <= coarse <= 252,
            m == scaled(coarse, k as nat),
        decreases e - k,
    {
        m = m * 2;
        k += 1;
    }
    m = m - 132;
    if raw >= 128 {
        -m
    } else {
        m
    }
}

/// Every code but that of minus zero is the code of the sample that it stands
/// for; minus zero becomes zero.
pub proof fn law_code_round_trip(code: u8)
    ensures
        sample_of(code) > i16::MIN,
        code != 0x7f ==> code_of(sample_of(code)) == code,
        code == 0x7f ==> code_of(sample_of(code)) == 0xff,
{
    let raw = 255 - code;
    let e = (raw / 16 % 8) as nat;
    let mantissa = raw % 16;
    let a = mantissa * 8 + 132;
    let m = scaled(a, e);
    assert(e <= 7 && 132 <= a <= 252);
    assert(biased(sample_of(code)) == m);
    assert(segment_of(m as nat) == e);
    assert(steps_in(m as nat, e) == mantissa + 16);
    assert(raw == (raw / 128) * 128 + e * 16 + mantissa);
}

/// A decoded sample has the sign of the sample that was encoded and lies within
/// half a step of it, once that is limited to what the code can hold.
pub proof fn law_sample_round_trip(sample: i16)
    ensures
        code_of(sample as int) <= 255,
        ({
            let back = sample_of(code_of(sample as int) as u8);
            let limited: int = if sample > 32635 {
                32635
            } else if sample < -32635 {
                -32635
            } else {
                sample as int
            };
            let half = segment_base(segment_of(biased(sample as int))) / 32;
            &&& sample >= 0 ==> back >= 0
            &&& sample < 0 ==> back <= 0
            &&& -half <= back - limited <= half
        }),
{
    let m = biased(sample as int);
    let e = segment_of(m);
    let mantissa = steps_in(m, e) % 16;
    let code = code_of(sample as int);
    let raw = 255 - code;
    assert(mantissa < 16 && e <= 7);
    assert(raw % 16 == mantissa);
    assert(raw / 16 % 8 == e);
    assert(steps_in(m, e) == mantissa + 16);
    let back = scaled((mantissa * 8 + 132) as int, e);
    let half = segment_base(e) / 32;
    assert(-half <= back - m <= half);
}

/// The greatest magnitude in a frame, where the lowest sample counts as the
/// highest.
pub open spec fn peak_of(samples: Seq<i16>) -> int
    decreases samples.len(),
{
    if samples.len() == 0 {
        0
    } else {
        let rest = peak_of(samples.drop_last());
        let m = magnitude_of(samples.last());
        if m > rest {
            m
        } else {
            rest
        }
    }
}

/// The magnitude of a sample, as far as sixteen bits hold it.
pub open spec fn magnitude_of(s: i16) -> int {
    if s == i16::MIN {
        i16::MAX as int
    } else if s < 0 {
        -(s as int)
    } else {
        s as int
    }
}

/// The greatest magnitude in a frame of samples.
pub fn frame_peak(samples: &[i16]) -> (r: i16)
    ensures
        r == peak_of(samples@),
{
    let mut peak: i16 = 0;
    let mut i: usize = 0;
    while i < samples.len()
        invariant
            i <= samples@.len(),
            peak == peak_of(samples@.take(i as int)),
        decreases samples@.len() - i,
    {
        let s: i16 = samples[i];
        let m: i16 = if s == i16::MIN {
            i16::MAX
        } else if s < 0 {
            -s
        } else {
            s
        };
        assert(samples@.take(i as int + 1).drop_last() =~= samples@.take(i as int));
        if m > peak {
            peak = m;
        }
        i += 1;
    }
    assert(samples@.take(samples@.len() as int) =~= samples@);
    peak
}

/// The codes of a segment stand for samples at even steps, each segment has steps twice
/// as wide as the one before and begins a step and a half of its predecessor's behind
/// it; the first code is silence, and the codes below 128 are those of the same samples
/// below zero.
#[verifier::rlimit(40)]
#[verifier::spinoff_prover]
pub proof fn law_steps_double_by_segment(e: int, m: int, step: int)
    requires
        0 <= e <= 7,
        0 <= m <= 15,
        step == scaled(8, e as nat),
    ensures
        e == 0 ==> step == 8,
        e == 1 ==> step == 16,
        e == 2 ==> step == 32,
        e == 3 ==> step == 64,
        e == 4 ==> step == 128,
        e == 5 ==> step == 256,
        e == 6 ==> step == 512,
        e == 7 ==> step == 1024,
        sample_of(255) == 0,
        m < 15 ==> sample_of((255 - (e * 16 + m + 1)) as u8) == sample_of(
            (255 - (e * 16 + m)) as u8,
        ) + step,
        m == 15 && e < 7 ==> 2 * sample_of((255 - (e * 16 + 16)) as u8) == 2 * sample_of(
            (255 - (e * 16 + 15)) as u8,
        ) + 3 * step,
        sample_of((127 - (e * 16 + m)) as u8) == -sample_of((255 - (e * 16 + m)) as u8),
{
}

/// The peak of a frame is the greatest distance from zero among its samples, with the
/// least sample counted as the one above it; a frame without samples has none.
#[verifier::rlimit(40)]
#[verifier::spinoff_prover]
pub proof fn law_peak_is_the_greatest(samples: Seq<i16>)
    ensures
        samples.len() == 0 ==> peak_of(samples) == 0,
        forall|k: int|
            0 <= k < samples.len() ==> {
                &&& (#[trigger] samples[k]) <= peak_of(samples)
                &&& samples[k] > i16::MIN ==> -samples[k] <= peak_of(samples)
                &&& samples[k] == i16::MIN ==> peak_of(samples) == i16::MAX
            },
        samples.len() > 0 ==> exists|k: int|
            0 <= k < samples.len() && ((#[trigger] samples[k]) == peak_of(samples) || -samples[k]
                == peak_of(samples) || (samples[k] == i16::MIN && peak_of(samples) == i16::MAX)),
        peak_of(samples) <= i16::MAX,
    decreases samples.len(),
{
    if samples.len() > 0 {
        let head = samples.drop_last();
        law_peak_is_the_greatest(head);
        assert forall|k: int| 0 <= k < samples.len() implies {
            &&& (#[trigger] samples[k]) <= peak_of(samples)
            &&& samples[k] > i16::MIN ==> -samples[k] <= peak_of(samples)
            &&& samples[k] == i16::MIN ==> peak_of(samples) == i16::MAX
        } by {
            if k < head.len() {
                assert(head[k] == samples[k]);
            }
        }
        let n = samples.len() - 1;
        if peak_of(samples) == magnitude_of(samples[n]) {
            assert(samples[n] == peak_of(samples) || -samples[n] == peak_of(samples) || (
            samples[n] == i16::MIN && peak_of(samples) == i16::MAX));
        } else {
            let k = choose|k: int|
                0 <= k < head.len() && ((#[trigger] head[k]) == peak_of(head) || -head[k]
                    == peak_of(head) || (head[k] == i16::MIN && peak_of(head) == i16::MAX));
            assert(samples[k] == head[k]);
        }
    }
}

} // verus!
