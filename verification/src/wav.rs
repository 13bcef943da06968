//! The rules of the offline processor of WAV files.

use crate::text::{decimal, decimal_of, join3};
use crate::value::{is_within, within};
use vstd::arithmetic::power2::{
    lemma2_to64, lemma_pow2_strictly_increases, lemma_pow2_unfold, pow2,
};
use vstd::prelude::*;

verus! {

/// The single 0.
pub const ZERO: u32 = 0x0000_0000;

/// The single 100.
pub const HUNDRED: u32 = 0x42c8_0000;

/// The single 20.
pub const TARGET_MIN: u32 = 0x41a0_0000;

/// The single 500.
pub const TARGET_MAX: u32 = 0x43fa_0000;

/// The single -12.
pub const LOUDNESS_MIN: u32 = 0xc140_0000;

/// The single 12.
pub const LOUDNESS_MAX: u32 = 0x4140_0000;

/// Why arguments are refused; `None` where they are not. The first one that is
/// out of its range counts.
pub open spec fn refusal(drive: u32, mix: u32, target: u32, loudness: u32) -> Option<Seq<char>> {
    if !within(drive, ZERO, HUNDRED) {
        Some("--drive must be in 0..=100"@)
    } else if !within(mix, ZERO, HUNDRED) {
        Some("--mix must be in 0..=100"@)
    } else if !within(target, TARGET_MIN, TARGET_MAX) {
        Some("--target must be in 20..=500 Hz"@)
    } else if !within(loudness, LOUDNESS_MIN, LOUDNESS_MAX) {
        Some("--loudness must be in -12..=+12 dB"@)
    } else {
        None
    }
}

/// Checks the arguments, each the bit pattern of a single.
pub fn check_args(drive: u32, mix: u32, target: u32, loudness: u32) -> (result: Result<
    (),
    &'static str,
>)
    ensures
        result is Ok <==> refusal(drive, mix, target, loudness) is None,
        result matches Err(e) ==> refusal(drive, mix, target, loudness) == Some(e@),
{
    if !is_within(drive, ZERO, HUNDRED) {
        return Err("--drive must be in 0..=100");
    }
    if !is_within(mix, ZERO, HUNDRED) {
        return Err("--mix must be in 0..=100");
    }
    if !is_within(target, TARGET_MIN, TARGET_MAX) {
        return Err("--target must be in 20..=500 Hz");
    }
    if !is_within(loudness, LOUDNESS_MIN, LOUDNESS_MAX) {
        return Err("--loudness must be in -12..=+12 dB");
    }
    Ok(())
}

/// How samples are stored.
#[derive(Clone, Copy, PartialEq, Eq, Structural, Debug)]
pub enum SampleFormat {
    Float,
    Int,
}

/// How samples are read.
#[derive(Clone, Copy, PartialEq, Eq, Structural, Debug)]
pub enum Decoding {
    /// As they are.
    Float,
    /// As integers, divided by their full scale.
    Int {
        full_scale: i64,
    },
}

/// The magnitude of the most negative integer of that many bits.
pub open spec fn full_scale(bits: u16) -> nat {
    pow2((bits - 1) as nat)
}

/// How samples of a format are read; `None` where they cannot be read.
pub open spec fn decoding_of(format: SampleFormat, bits: u16) -> Option<Decoding> {
    match format {
        SampleFormat::Float => if bits == 32 {
            Some(Decoding::Float)
        } else {
            None
        },
        SampleFormat::Int => if bits <= 32 {
            Some(Decoding::Int { full_scale: full_scale(bits) as i64 })
        } else {
            None
        },
    }
}

/// The name of a format.
pub open spec fn format_name(format: SampleFormat) -> Seq<char> {
    match format {
        SampleFormat::Float => "Float"@,
        SampleFormat::Int => "Int"@,
    }
}

/// How samples of a format are read. Integers have one bit at least.
pub fn decoding(format: SampleFormat, bits: u16) -> (result: Result<Decoding, String>)
    requires
        format == SampleFormat::Int ==> bits > 0,
    ensures
        result is Ok <==> decoding_of(format, bits) is Some,
        result matches Ok(d) ==> decoding_of(format, bits) == Some(d),
        result matches Err(e) ==> e@ == "unsupported WAV format: "@ + format_name(format) + " @ "@
            + decimal_of(bits as nat) + " bits"@,
{
    let name: &'static str = match format {
        SampleFormat::Float => {
            if bits == 32 {
                return Ok(Decoding::Float);
            }
            "Float"
        },
        SampleFormat::Int => {
            if bits <= 32 {
                return Ok(Decoding::Int { full_scale: scale_of(bits) });
            }
            "Int"
        },
    };
    let number: String = decimal(bits as u32);
    let head: String = join3("unsupported WAV format: ", name, " @ ");
    Err(join3(head.as_str(), number.as_str(), " bits"))
}

fn scale_of(bits: u16) -> (scale: i64)
    requires
        0 < bits <= 32,
    ensures
        scale == full_scale(bits),
{
    let mut scale: i64 = 1;
    let mut i: u16 = 1;
    proof {
        lemma2_to64();
    }
    while i < bits
        invariant
            1 <= i <= bits <= 32,
            scale == pow2((i - 1) as nat),
            pow2(31) == 0x8000_0000,
        decreases bits - i,
    {
        proof {
            lemma_pow2_unfold(i as nat);
            if i < 31 {
                lemma_pow2_strictly_increases(i as nat, 31);
            }
        }
        scale = scale * 2;
        i = i + 1;
    }
    scale
}

// Laws ------------------------------------------------------------------------

/// Arguments pass exactly if drive and mix lie in 0..=100, the target in
/// 20..=500 and the loudness in -12..=12, the bounds included.
pub proof fn law_arguments(drive: u32, mix: u32, target: u32, loudness: u32)
    ensures
        refusal(drive, mix, target, loudness) is None <==> within(drive, 0x0000_0000, 0x42c8_0000)
            && within(mix, 0x0000_0000, 0x42c8_0000) && within(target, 0x41a0_0000, 0x43fa_0000)
            && within(loudness, 0xc140_0000, 0x4140_0000),
        !within(drive, 0x0000_0000, 0x42c8_0000) ==> refusal(drive, mix, target, loudness) == Some(
            "--drive must be in 0..=100"@,
        ),
        within(drive, 0x0000_0000, 0x42c8_0000) && !within(mix, 0x0000_0000, 0x42c8_0000)
            ==> refusal(drive, mix, target, loudness) == Some("--mix must be in 0..=100"@),
        within(drive, 0x0000_0000, 0x42c8_0000) && within(mix, 0x0000_0000, 0x42c8_0000) && !within(
            target,
            0x41a0_0000,
            0x43fa_0000,
        ) ==> refusal(drive, mix, target, loudness) == Some("--target must be in 20..=500 Hz"@),
        within(drive, 0x0000_0000, 0x42c8_0000) && within(mix, 0x0000_0000, 0x42c8_0000) && within(
            target,
            0x41a0_0000,
            0x43fa_0000,
        ) && !within(loudness, 0xc140_0000, 0x4140_0000) ==> refusal(drive, mix, target, loudness)
            == Some("--loudness must be in -12..=+12 dB"@),
{
}

/// Float samples are read at 32 bits only, integer samples at up to 32 bits, with
/// the greatest magnitude of that many bits as their full scale.
pub proof fn law_decoding(bits: u16)
    ensures
        decoding_of(SampleFormat::Float, bits) == (if bits == 32 {
            Some(Decoding::Float)
        } else {
            None
        }),
        decoding_of(SampleFormat::Int, bits) is Some <==> bits <= 32,
        1 <= bits <= 32 ==> decoding_of(SampleFormat::Int, bits) == Some(
            Decoding::Int { full_scale: pow2((bits - 1) as nat) as i64 },
        ),
        format_name(SampleFormat::Float) == "Float"@,
        format_name(SampleFormat::Int) == "Int"@,
{
}

/// Arguments pass the check exactly if each lies in its range.
pub proof fn law_arguments_checked(
    drive: u32,
    mix: u32,
    target: u32,
    loudness: u32,
    result: Result<(), &'static str>,
)
    requires
        call_ensures(check_args, (drive, mix, target, loudness), result),
    ensures
        result is Ok <==> within(drive, 0x0000_0000, 0x42c8_0000) && within(
            mix,
            0x0000_0000,
            0x42c8_0000,
        ) && within(target, 0x41a0_0000, 0x43fa_0000) && within(
            loudness,
            0xc140_0000,
            0x4140_0000,
        ),
{
    law_arguments(drive, mix, target, loudness);
}

} // verus!
