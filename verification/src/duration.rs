//! Track duration from the parameters of a probed audio stream.

use vstd::prelude::*;

verus! {

/// What a container header tells about the default audio stream.
#[derive(Clone, Copy, Debug, PartialEq, Eq)]
pub struct StreamInfo {
    /// Samples per second.
    pub sample_rate: Option<u32>,
    /// Total number of frames, leading and trailing padding included.
    pub n_frames: Option<u64>,
    /// Leading padding frames.
    pub delay: Option<u32>,
    /// Trailing padding frames.
    pub padding: Option<u32>,
}

/// The integer nearest to `num / den`, halves rounded up.
pub open spec fn round_div(num: nat, den: nat) -> nat
    recommends
        den > 0,
{
    ((2 * num + den) / (2 * den)) as nat
}

/// Frames that are actually played: the total without both paddings.
pub open spec fn played_frames(frames: nat, delay: nat, padding: nat) -> int {
    frames - delay - padding
}

/// Milliseconds that `frames` frames last at `rate` frames per second, when
/// `delay + padding` of them are padding. Unknown when the rate is zero or
/// the padding exceeds the total; capped at the largest `u32`.
pub open spec fn duration_ms(frames: nat, delay: nat, padding: nat, rate: nat) -> Option<u32> {
    if rate == 0 || played_frames(frames, delay, padding) < 0 {
        None
    } else {
        let ms = round_div((played_frames(frames, delay, padding) * 1000) as nat, rate);
        if ms > u32::MAX {
            Some(u32::MAX)
        } else {
            Some(ms as u32)
        }
    }
}

/// A missing padding count stands for zero.
pub open spec fn or_zero(v: Option<u32>) -> nat {
    match v {
        Some(n) => n as nat,
        None => 0,
    }
}

impl StreamInfo {
    /// The duration the stream parameters give, if they give one: both the
    /// sample rate and the frame count have to be known.
    pub open spec fn duration_spec(self) -> Option<u32> {
        match (self.sample_rate, self.n_frames) {
            (Some(rate), Some(frames)) => duration_ms(
                frames as nat,
                or_zero(self.delay),
                or_zero(self.padding),
                rate as nat,
            ),
            _ => None,
        }
    }

    /// Duration of the stream in milliseconds.
    pub fn duration(&self) -> (out: Option<u32>)
        ensures
            out == self.duration_spec(),
    {
        let rate: u32 = match self.sample_rate {
            Some(r) => r,
            None => {
                return None;
            },
        };
        let frames: u64 = match self.n_frames {
            Some(f) => f,
            None => {
                return None;
            },
        };
        let delay: u32 = match self.delay {
            Some(d) => d,
            None => 0,
        };
        let padding: u32 = match self.padding {
            Some(p) => p,
            None => 0,
        };
        duration_from_frames(frames, delay, padding, rate)
    }
}

/// Duration in milliseconds of `frames` frames at `rate` frames per second,
/// without the `delay` leading and `padding` trailing frames.
pub fn duration_from_frames(frames: u64, delay: u32, padding: u32, rate: u32) -> (out: Option<u32>)
    ensures
        out == duration_ms(frames as nat, delay as nat, padding as nat, rate as nat),
{
    if rate == 0 {
        return None;
    }
    let skipped: u64 = delay as u64 + padding as u64;
    if frames < skipped {
        return None;
    }
    let played: u128 = (frames - skipped) as u128;
    let den: u128 = 2 * (rate as u128);
    let num: u128 = 2000 * played + rate as u128;
    let ms: u128 = num / den;
    assert(2 * ((played * 1000) as nat) + rate as nat == num);
    if ms > u32::MAX as u128 {
        Some(u32::MAX)
    } else {
        Some(ms as u32)
    }
}

/// `round_div` is the nearest integer: it differs from the exact quotient
/// by at most one half, and of two equally near integers it is the larger.
pub proof fn lemma_round_div_nearest(num: nat, den: nat)
    requires
        den > 0,
    ensures
        2 * round_div(num, den) * den <= 2 * num + den,
        2 * num + den < 2 * (round_div(num, den) + 1) * den,
{
    let a: int = (2 * num + den) as int;
    let b: int = (2 * den) as int;
    let q: int = a / b;
    assert(b > 0);
    assert(a == b * q + a % b && 0 <= a % b < b) by {
        vstd::arithmetic::div_mod::lemma_fundamental_div_mod(a, b);
        vstd::arithmetic::div_mod::lemma_mod_bound(a, b);
    }
    assert(q >= 0) by {
        vstd::arithmetic::div_mod::lemma_div_pos_is_pos(a, b);
    }
    assert(round_div(num, den) == q);
    assert(2 * q * den == b * q) by (nonlinear_arith)
        requires
            b == 2 * den,
    ;
    assert(2 * (q + 1) * den == b * q + b) by (nonlinear_arith)
        requires
            b == 2 * den,
    ;
}

/// A whole number of seconds lasts exactly that many thousand milliseconds.
pub proof fn lemma_whole_seconds(seconds: nat, rate: nat)
    requires
        rate > 0,
        seconds * 1000 <= u32::MAX,
    ensures
        duration_ms(seconds * rate, 0, 0, rate) == Some((seconds * 1000) as u32),
{
    let ms: int = (seconds * 1000) as int;
    let num: int = (seconds * rate * 1000) as int;
    assert(num == ms * rate) by (nonlinear_arith)
        requires
            num == seconds * rate * 1000,
            ms == seconds * 1000,
    ;
    assert(2 * num + rate == (2 * rate) * ms + rate) by (nonlinear_arith)
        requires
            num == ms * rate,
    ;
    assert(((2 * rate) * ms + rate) / (2 * rate as int) == ms) by {
        vstd::arithmetic::div_mod::lemma_fundamental_div_mod_converse(
            (2 * rate) * ms + rate,
            2 * rate as int,
            ms,
            rate as int,
        );
    }
    assert(played_frames(seconds * rate, 0, 0) == seconds * rate);
    assert(round_div(num as nat, rate) == ms);
}

} // verus!
