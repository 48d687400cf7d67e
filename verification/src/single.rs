//! Single-precision numbers by their bit patterns.
//!
//! The library stores and compares such numbers but does not compute with
//! them. Numbers that are not negative are ordered as their bit patterns are,
//! and neighbouring numbers have neighbouring patterns.
use vstd::prelude::*;
use crate::freq::Step;

verus! {

/// A single-precision number, by its bit pattern.
#[derive(Debug, Clone, Copy, PartialEq, Eq, Structural)]
pub struct Single(pub u32);

/// The bit pattern of 30.
pub const BITS_30: u32 = 0x41f0_0000;

/// The bit pattern of 300.
pub const BITS_300: u32 = 0x4396_0000;

/// The bit pattern of 25.
pub const BITS_25: u32 = 0x41c8_0000;

/// The bit pattern of 12.5.
pub const BITS_12_5: u32 = 0x4148_0000;

/// The bit pattern of 5.
pub const BITS_5: u32 = 0x40a0_0000;

/// Whether a number is at most so many neighbours away from another.
pub open spec fn within(k: Single, centre: u32, neighbours: u32) -> bool {
    centre - neighbours <= k.0 <= centre + neighbours
}

/// The tuning step that a number of kHz stands for, where it is one: less than
/// a hundredth of a kHz off. The numbers that close to 25, 12.5 and 5 are their
/// 5242, 10485 and 20971 neighbours on either side.
pub open spec fn step_of(k: Single) -> Option<Step> {
    if within(k, BITS_25, 5242) {
        Some(Step::Khz25)
    } else if within(k, BITS_12_5, 10485) {
        Some(Step::Khz12_5)
    } else if within(k, BITS_5, 20971) {
        Some(Step::Khz5)
    } else {
        None
    }
}

pub fn nominal_step(k: Single) -> (r: Option<Step>)
    ensures
        r == step_of(k),
{
    if BITS_25 - 5242 <= k.0 && k.0 <= BITS_25 + 5242 {
        Some(Step::Khz25)
    } else if BITS_12_5 - 10485 <= k.0 && k.0 <= BITS_12_5 + 10485 {
        Some(Step::Khz12_5)
    } else if BITS_5 - 20971 <= k.0 && k.0 <= BITS_5 + 20971 {
        Some(Step::Khz5)
    } else {
        None
    }
}

/// Whether a number of Hz can be a channel's tone: from 30 up to, not with, 300.
pub open spec fn channel_tone(v: Single) -> bool {
    BITS_30 <= v.0 < BITS_300
}

pub fn is_channel_tone(v: Single) -> (r: bool)
    ensures
        r == channel_tone(v),
{
    BITS_30 <= v.0 && v.0 < BITS_300
}

/// Whether a number of Hz can be encoded as a tone: between 30 and 300.
pub open spec fn encodable_tone(v: Single) -> bool {
    BITS_30 < v.0 < BITS_300
}

pub fn is_encodable_tone(v: Single) -> (r: bool)
    ensures
        r == encodable_tone(v),
{
    BITS_30 < v.0 && v.0 < BITS_300
}

/// Which numbers of kHz stand for a step: those around 25, 12.5 and 5, whose
/// patterns begin at 41c8, 4148 and 40a0, and no others; the ranges are apart.
pub proof fn law_steps_by_pattern(k: Single)
    ensures
        step_of(k) == Some(Step::Khz25) <==> 0x41c7_eb86 <= k.0 <= 0x41c8_147a,
        step_of(k) == Some(Step::Khz12_5) <==> 0x4147_d70b <= k.0 <= 0x4148_28f5,
        step_of(k) == Some(Step::Khz5) <==> 0x409f_ae15 <= k.0 <= 0x40a0_51eb,
        step_of(k) != Some(Step::Khz8_33),
{
}

/// Which numbers of Hz are tones: those from 30, or above it to encode one, up
/// to and without 300.
pub proof fn law_tones_by_pattern(v: Single)
    ensures
        channel_tone(v) <==> 0x41f0_0000 <= v.0 < 0x4396_0000,
        encodable_tone(v) <==> 0x41f0_0000 < v.0 < 0x4396_0000,
{
}

} // verus!
