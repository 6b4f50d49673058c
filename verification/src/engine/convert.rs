//! Ingest formats: client format → canonical (48 kHz stereo).

use vstd::prelude::*;

use crate::errors::AudioError;
use crate::text::{concat_str, decimal, decimal_chars, str_eq, string_from_chars};

verus! {

pub const MIX_RATE: u32 = 48000;
pub const MIX_CHANNELS: usize = 2;

#[derive(Debug, Clone, Copy, PartialEq, Eq, Structural)]
pub enum SampleFormat {
    S16Le,
    F32Le,
}

/// The format a name denotes.
pub open spec fn format_named(s: Seq<char>) -> Option<SampleFormat> {
    if s == "s16le"@ {
        Some(SampleFormat::S16Le)
    } else if s == "f32le"@ {
        Some(SampleFormat::F32Le)
    } else {
        None
    }
}

pub open spec fn format_name(f: SampleFormat) -> Seq<char> {
    match f {
        SampleFormat::S16Le => "s16le"@,
        SampleFormat::F32Le => "f32le"@,
    }
}

impl SampleFormat {
    pub fn parse(s: &str) -> (r: Result<Self, AudioError>)
        ensures
            s@ == "s16le"@ ==> r == Ok::<SampleFormat, AudioError>(SampleFormat::S16Le),
            s@ == "f32le"@ ==> r == Ok::<SampleFormat, AudioError>(SampleFormat::F32Le),
            s@ != "s16le"@ && s@ != "f32le"@ ==> (r matches Err(AudioError::UnsupportedFormat(m)) && m@ == s@),
    {
        proof {
            reveal_strlit("s16le");
            reveal_strlit("f32le");
            assert("s16le"@[0] != "f32le"@[0]);
        }
        if str_eq(s, "s16le") {
            Ok(SampleFormat::S16Le)
        } else if str_eq(s, "f32le") {
            Ok(SampleFormat::F32Le)
        } else {
            Err(AudioError::UnsupportedFormat(String::from_str(s)))
        }
    }

    pub fn as_str(&self) -> (r: &'static str)
        ensures
            r@ == format_name(*self),
    {
        match self {
            SampleFormat::S16Le => "s16le",
            SampleFormat::F32Le => "f32le",
        }
    }
}

pub struct StreamFormat {
    pub sample_rate: u32,
    pub channels: u16,
    pub format: SampleFormat,
}

/// Accepted stream shapes: 1 kHz–384 kHz, 1–8 channels.
pub open spec fn format_accepted(rate: u32, channels: u16) -> bool {
    1000 <= rate <= 384000 && 1 <= channels <= 8
}

/// `{n}` followed by `suffix`, or `prefix` followed by `{n}`.
fn with_number(prefix: &str, n: u64, suffix: &str) -> (r: String)
    ensures
        r@ == prefix@ + decimal(n as nat) + suffix@,
{
    let digits = decimal_chars(n);
    let d = string_from_chars(&digits);
    let head = concat_str(prefix, d.as_str());
    concat_str(head.as_str(), suffix)
}

/// Why a stream shape is refused, if it is: the rate is checked first.
pub open spec fn format_refusal(rate: u32, channels: u16) -> Option<Seq<char>> {
    if !(1000 <= rate <= 384000) {
        Some("sample rate "@ + decimal(rate as nat))
    } else if !(1 <= channels <= 8) {
        Some(decimal(channels as nat) + " channels"@)
    } else {
        None
    }
}

pub fn validate(rate: u32, channels: u16) -> (r: Result<(), AudioError>)
    ensures
        format_accepted(rate, channels) <==> r is Ok,
        format_refusal(rate, channels) is None <==> r is Ok,
        format_refusal(rate, channels) matches Some(m) ==> (r matches Err(AudioError::UnsupportedFormat(x)) && x@ == m),
{
    proof {
        reveal_strlit("");
    }
    if !(1000 <= rate && rate <= 384000) {
        let m = with_number("sample rate ", rate as u64, "");
        assert(m@ =~= "sample rate "@ + decimal(rate as nat));
        return Err(AudioError::UnsupportedFormat(m));
    }
    if channels == 0 || channels > 8 {
        let m = with_number("", channels as u64, " channels");
        assert(m@ =~= decimal(channels as nat) + " channels"@);
        return Err(AudioError::UnsupportedFormat(m));
    }
    Ok(())
}

/// Number of frames of `channels` samples in `n` samples, a short last
/// frame included.
pub open spec fn frame_count(n: int, channels: int) -> int {
    n / channels + if n % channels == 0 { 0int } else { 1int }
}

/// A frame that starts before the end has a second sample, unless the
/// input ends one sample into a frame.
proof fn lemma_frame_start(n: int, c: int, f: int)
    requires
        c > 2,
        n >= 0,
        0 <= f < frame_count(n, c),
        n % c != 1,
    ensures
        f * c + 1 < n,
{
    assert(n == c * (n / c) + n % c && 0 <= n % c < c) by (nonlinear_arith)
        requires c > 2, n >= 0;
    if f < n / c {
        assert(f * c + 1 < n) by (nonlinear_arith)
            requires f < n / c, n == c * (n / c) + n % c, 0 <= n % c, c > 2, f >= 0;
    } else {
        assert(f == n / c);
        assert(f * c == n - n % c) by (nonlinear_arith)
            requires f == n / c, n == c * (n / c) + n % c;
    }
}

/// Interleaved samples with `channels` channels as stereo: mono is
/// duplicated, stereo kept, and of more channels the first two are taken
/// (a short last frame contributes its first two samples).
pub open spec fn stereo_of<T>(decoded: Seq<T>, channels: int) -> Seq<T> {
    if channels == 1 {
        Seq::new(2 * decoded.len(), |i: int| decoded[i / 2])
    } else if channels == 2 {
        decoded
    } else {
        Seq::new(
            2 * frame_count(decoded.len() as int, channels) as nat,
            |i: int| decoded[(i / 2) * channels + i % 2],
        )
    }
}

/// 1 → duplicate, 2 → as-is, >2 → first two channels of each frame.
pub fn to_stereo<T: Copy>(decoded: &[T], channels: usize) -> (out: Vec<T>)
    requires
        channels >= 1,
        channels > 2 ==> (decoded@.len() as int) % (channels as int) != 1,
        2 * decoded@.len() <= usize::MAX,
    ensures
        out@ == stereo_of(decoded@, channels as int),
{
    let mut out: Vec<T> = Vec::new();
    if channels == 1 {
        let mut i: usize = 0;
        while i < decoded.len()
            invariant
                i <= decoded@.len(),
                2 * decoded@.len() <= usize::MAX,
                out@.len() == 2 * i,
                forall|k: int| 0 <= k < 2 * i ==> #[trigger] out@[k] == decoded@[k / 2],
            decreases decoded@.len() - i,
        {
            out.push(decoded[i]);
            out.push(decoded[i]);
            i += 1;
        }
        assert(out@ =~= stereo_of(decoded@, 1));
    } else if channels == 2 {
        let mut i: usize = 0;
        while i < decoded.len()
            invariant
                i <= decoded@.len(),
                out@ == decoded@.take(i as int),
            decreases decoded@.len() - i,
        {
            out.push(decoded[i]);
            i += 1;
            assert(out@ =~= decoded@.take(i as int));
        }
        assert(decoded@.take(i as int) =~= decoded@);
    } else {
        let n = decoded.len();
        let frames = n / channels + if n % channels == 0 { 0 } else { 1 };
        let mut f: usize = 0;
        while f < frames
            invariant
                channels > 2,
                n == decoded@.len(),
                (n as int) % (channels as int) != 1,
                frames == frame_count(n as int, channels as int),
                f <= frames,
                out@.len() == 2 * f,
                forall|k: int| 0 <= k < 2 * f ==> #[trigger] out@[k] == decoded@[(k / 2) * channels + k % 2],
            decreases frames - f,
        {
            proof {
                lemma_frame_start(n as int, channels as int, f as int);
            }
            let start = f * channels;
            out.push(decoded[start]);
            out.push(decoded[start + 1]);
            proof {
                assert(out@[2 * f as int] == decoded@[((2 * f) / 2) * channels + (2 * f) % 2]) by (nonlinear_arith)
                    requires
                        out@[2 * f as int] == decoded@[start as int],
                        start == f * channels,
                ;
                assert(out@[2 * f + 1] == decoded@[((2 * f + 1) / 2) * channels + (2 * f + 1) % 2]) by (nonlinear_arith)
                    requires
                        out@[2 * f + 1] == decoded@[start + 1],
                        start == f * channels,
                ;
            }
            f += 1;
        }
        assert(out@ =~= stereo_of(decoded@, channels as int));
    }
    out
}

} // verus!
