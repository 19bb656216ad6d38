//! Decoder for treadmill data frames.
//!
//! A frame opens with two flag bytes and the instantaneous speed. Each flag
//! bit declares one group of optional fields; the declared groups follow the
//! speed in a fixed order, packed without gaps. The layout is stated once, as
//! a table of groups and widths, and the decoder is proved against it.

use vstd::prelude::*;
use crate::wire::{i16_from_le, le_i16, le_u16, le_u24, u16_from_le, u24_from_le};

verus! {

/// Bytes that every frame holds: two flag bytes and the speed.
pub const HEADER_LEN: usize = 4;

/// Why a frame could not be decoded.
#[derive(Debug, Clone, Copy, PartialEq, Eq)]
pub enum DecodeError {
    /// The buffer ends before the header or before a declared group does.
    NotEnoughData,
}

/// The presence flags of a frame, one per bit of the two flag bytes.
#[derive(Debug, Clone, Copy, PartialEq, Eq)]
pub struct TreadmillDataFlags {
    pub more_data: bool,
    pub average_speed: bool,
    pub total_distance: bool,
    pub inclination_and_ramp_angle: bool,
    pub elevation_gain: bool,
    pub instantaneous_pace: bool,
    pub average_pace: bool,
    pub energy: bool,
    pub heart_rate: bool,
    pub metabolic_equivalent: bool,
    pub elapsed_time: bool,
    pub remaining_time: bool,
    pub force_on_belt_and_power_output: bool,
}

/// One decoded frame. An optional field is populated exactly when the flag
/// of its group is set.
#[derive(Debug, Clone, Copy, PartialEq, Eq)]
pub struct TreadmillData {
    pub speed: u16,
    pub average_speed: Option<u16>,
    pub total_distance: Option<u32>,
    pub inclination: Option<i16>,
    pub ramp_angle: Option<i16>,
    pub positive_elevation: Option<u16>,
    pub negative_elevation: Option<u16>,
    pub instantaneous_pace: Option<u16>,
    pub average_pace: Option<u16>,
    pub total_energy: Option<u16>,
    pub energy_per_hour: Option<u16>,
    pub energy_per_minute: Option<u8>,
    pub heart_rate: Option<u8>,
    pub metabolic_equivalent: Option<u8>,
    pub elapsed_time: Option<u16>,
    pub remaining_time: Option<u16>,
    pub force_on_belt: Option<i16>,
    pub power_output: Option<i16>,
}

/// A group of optional fields that one flag bit declares.
#[derive(Debug, Clone, Copy, PartialEq, Eq)]
pub enum FieldGroup {
    AverageSpeed,
    TotalDistance,
    InclinationAndRampAngle,
    ElevationGain,
    InstantaneousPace,
    AveragePace,
    Energy,
    HeartRate,
    MetabolicEquivalent,
    ElapsedTime,
    RemainingTime,
    ForceOnBeltAndPowerOutput,
}

/// The number of groups.
pub const GROUP_COUNT: usize = 12;

/// The group at each place of the order in which the groups follow the
/// speed on the wire.
pub open spec fn group_at(position: nat) -> FieldGroup {
    if position == 0 {
        FieldGroup::AverageSpeed
    } else if position == 1 {
        FieldGroup::TotalDistance
    } else if position == 2 {
        FieldGroup::InclinationAndRampAngle
    } else if position == 3 {
        FieldGroup::ElevationGain
    } else if position == 4 {
        FieldGroup::InstantaneousPace
    } else if position == 5 {
        FieldGroup::AveragePace
    } else if position == 6 {
        FieldGroup::Energy
    } else if position == 7 {
        FieldGroup::HeartRate
    } else if position == 8 {
        FieldGroup::MetabolicEquivalent
    } else if position == 9 {
        FieldGroup::ElapsedTime
    } else if position == 10 {
        FieldGroup::RemainingTime
    } else {
        FieldGroup::ForceOnBeltAndPowerOutput
    }
}

impl FieldGroup {
    /// The bytes that the group occupies when it is declared.
    pub open spec fn width(self) -> nat {
        match self {
            FieldGroup::AverageSpeed => 2,
            FieldGroup::TotalDistance => 3,
            FieldGroup::InclinationAndRampAngle => 4,
            FieldGroup::ElevationGain => 4,
            FieldGroup::InstantaneousPace => 2,
            FieldGroup::AveragePace => 2,
            FieldGroup::Energy => 5,
            FieldGroup::HeartRate => 1,
            FieldGroup::MetabolicEquivalent => 1,
            FieldGroup::ElapsedTime => 2,
            FieldGroup::RemainingTime => 2,
            FieldGroup::ForceOnBeltAndPowerOutput => 4,
        }
    }

    /// The group's place in the wire order: `group_at` gives the group back.
    pub open spec fn position(self) -> nat {
        match self {
            FieldGroup::AverageSpeed => 0,
            FieldGroup::TotalDistance => 1,
            FieldGroup::InclinationAndRampAngle => 2,
            FieldGroup::ElevationGain => 3,
            FieldGroup::InstantaneousPace => 4,
            FieldGroup::AveragePace => 5,
            FieldGroup::Energy => 6,
            FieldGroup::HeartRate => 7,
            FieldGroup::MetabolicEquivalent => 8,
            FieldGroup::ElapsedTime => 9,
            FieldGroup::RemainingTime => 10,
            FieldGroup::ForceOnBeltAndPowerOutput => 11,
        }
    }

    /// The bytes that the group occupies when it is declared.
    pub fn size(&self) -> (size: usize)
        ensures
            size == self.width(),
    {
        match self {
            FieldGroup::AverageSpeed => 2,
            FieldGroup::TotalDistance => 3,
            FieldGroup::InclinationAndRampAngle => 4,
            FieldGroup::ElevationGain => 4,
            FieldGroup::InstantaneousPace => 2,
            FieldGroup::AveragePace => 2,
            FieldGroup::Energy => 5,
            FieldGroup::HeartRate => 1,
            FieldGroup::MetabolicEquivalent => 1,
            FieldGroup::ElapsedTime => 2,
            FieldGroup::RemainingTime => 2,
            FieldGroup::ForceOnBeltAndPowerOutput => 4,
        }
    }
}

/// Whether `byte` has any bit of `mask` set.
#[verifier::opaque]
pub open spec fn has_bit(byte: u8, mask: u8) -> bool {
    byte & mask != 0
}

/// The flags that the two leading bytes of a frame declare.
pub open spec fn flags_of(first: u8, second: u8) -> TreadmillDataFlags {
    TreadmillDataFlags {
        more_data: has_bit(first, 0b0000_0001),
        average_speed: has_bit(first, 0b0000_0010),
        total_distance: has_bit(first, 0b0000_0100),
        inclination_and_ramp_angle: has_bit(first, 0b0000_1000),
        elevation_gain: has_bit(first, 0b0001_0000),
        instantaneous_pace: has_bit(first, 0b0010_0000),
        average_pace: has_bit(first, 0b0100_0000),
        energy: has_bit(first, 0b1000_0000),
        heart_rate: has_bit(second, 0b0000_0001),
        metabolic_equivalent: has_bit(second, 0b0000_0010),
        elapsed_time: has_bit(second, 0b0000_0100),
        remaining_time: has_bit(second, 0b0000_1000),
        force_on_belt_and_power_output: has_bit(second, 0b0001_0000),
    }
}

impl TreadmillDataFlags {
    /// Whether the flags declare `group`.
    pub open spec fn declares(self, group: FieldGroup) -> bool {
        match group {
            FieldGroup::AverageSpeed => self.average_speed,
            FieldGroup::TotalDistance => self.total_distance,
            FieldGroup::InclinationAndRampAngle => self.inclination_and_ramp_angle,
            FieldGroup::ElevationGain => self.elevation_gain,
            FieldGroup::InstantaneousPace => self.instantaneous_pace,
            FieldGroup::AveragePace => self.average_pace,
            FieldGroup::Energy => self.energy,
            FieldGroup::HeartRate => self.heart_rate,
            FieldGroup::MetabolicEquivalent => self.metabolic_equivalent,
            FieldGroup::ElapsedTime => self.elapsed_time,
            FieldGroup::RemainingTime => self.remaining_time,
            FieldGroup::ForceOnBeltAndPowerOutput => self.force_on_belt_and_power_output,
        }
    }

    /// The bytes that the declared groups among the first `count` of the
    /// wire order occupy together.
    #[verifier::opaque]
    pub open spec fn span(self, count: nat) -> nat
        decreases count,
    {
        if count == 0 {
            0
        } else {
            let group = group_at((count - 1) as nat);
            self.span((count - 1) as nat) + if self.declares(group) {
                group.width()
            } else {
                0
            }
        }
    }

    /// Where `group` starts in a frame with these flags: behind the header
    /// and every declared group that precedes it in the wire order.
    pub open spec fn offset_of(self, group: FieldGroup) -> int {
        HEADER_LEN as int + self.span(group.position())
    }

    /// The length of a frame with these flags.
    pub open spec fn frame_len(self) -> int {
        HEADER_LEN as int + self.span(GROUP_COUNT as nat)
    }

    /// Reads the flags from the two leading bytes of a frame.
    pub fn from_bytes(first: u8, second: u8) -> (flags: TreadmillDataFlags)
        ensures
            flags == flags_of(first, second),
    {
        reveal(has_bit);
        TreadmillDataFlags {
            more_data: first & 0b0000_0001 != 0,
            average_speed: first & 0b0000_0010 != 0,
            total_distance: first & 0b0000_0100 != 0,
            inclination_and_ramp_angle: first & 0b0000_1000 != 0,
            elevation_gain: first & 0b0001_0000 != 0,
            instantaneous_pace: first & 0b0010_0000 != 0,
            average_pace: first & 0b0100_0000 != 0,
            energy: first & 0b1000_0000 != 0,
            heart_rate: second & 0b0000_0001 != 0,
            metabolic_equivalent: second & 0b0000_0010 != 0,
            elapsed_time: second & 0b0000_0100 != 0,
            remaining_time: second & 0b0000_1000 != 0,
            force_on_belt_and_power_output: second & 0b0001_0000 != 0,
        }
    }

    /// Tells whether the flags declare `group`.
    pub fn has(&self, group: FieldGroup) -> (declared: bool)
        ensures
            declared == self.declares(group),
    {
        match group {
            FieldGroup::AverageSpeed => self.average_speed,
            FieldGroup::TotalDistance => self.total_distance,
            FieldGroup::InclinationAndRampAngle => self.inclination_and_ramp_angle,
            FieldGroup::ElevationGain => self.elevation_gain,
            FieldGroup::InstantaneousPace => self.instantaneous_pace,
            FieldGroup::AveragePace => self.average_pace,
            FieldGroup::Energy => self.energy,
            FieldGroup::HeartRate => self.heart_rate,
            FieldGroup::MetabolicEquivalent => self.metabolic_equivalent,
            FieldGroup::ElapsedTime => self.elapsed_time,
            FieldGroup::RemainingTime => self.remaining_time,
            FieldGroup::ForceOnBeltAndPowerOutput => self.force_on_belt_and_power_output,
        }
    }

    /// Moves a cursor that stands at the start of `group` to the start of
    /// what follows it: over the group when it is declared, and not at all
    /// when it is not.
    fn skip(&self, group: FieldGroup, cursor: usize) -> (next: usize)
        requires
            cursor == self.offset_of(group),
        ensures
            next == HEADER_LEN + self.span(group.position() + 1),
            next == cursor + if self.declares(group) {
                group.width()
            } else {
                0
            },
    {
        proof {
            reveal(TreadmillDataFlags::span);
            lemma_span_bound(*self, group.position());
            assert(group_at(group.position()) == group);
        }
        if self.has(group) {
            cursor + group.size()
        } else {
            cursor
        }
    }
}

/// No group is wider than five bytes, so neither is the average over any
/// leading part of the wire order.
pub proof fn lemma_span_bound(flags: TreadmillDataFlags, count: nat)
    requires
        count <= GROUP_COUNT,
    ensures
        flags.span(count) <= 5 * count,
    decreases count,
{
    reveal(TreadmillDataFlags::span);
    if count > 0 {
        lemma_span_bound(flags, (count - 1) as nat);
    }
}

/// A longer leading part of the wire order never occupies fewer bytes.
pub proof fn lemma_span_monotone(flags: TreadmillDataFlags, shorter: nat, longer: nat)
    requires
        shorter <= longer,
    ensures
        flags.span(shorter) <= flags.span(longer),
    decreases longer,
{
    reveal(TreadmillDataFlags::span);
    if shorter < longer {
        lemma_span_monotone(flags, shorter, (longer - 1) as nat);
    }
}

/// Every group starts behind the header and within the widest frame, and a
/// declared group ends at or before the end of its own frame.
pub proof fn lemma_group_within_frame(flags: TreadmillDataFlags, group: FieldGroup)
    ensures
        HEADER_LEN <= flags.offset_of(group) <= flags.frame_len() <= HEADER_LEN + 60,
        flags.declares(group) ==> flags.offset_of(group) + group.width() <= flags.frame_len(),
{
    reveal(TreadmillDataFlags::span);
    assert(group_at(group.position()) == group);
    assert(flags.span(group.position() + 1) == flags.span(group.position()) + if flags.declares(
        group,
    ) {
        group.width()
    } else {
        0
    });
    lemma_span_monotone(flags, group.position(), group.position() + 1);
    lemma_span_monotone(flags, group.position() + 1, GROUP_COUNT as nat);
    lemma_span_bound(flags, GROUP_COUNT as nat);
}

/// The unsigned 16-bit little-endian value at `at`.
pub open spec fn u16_at(bytes: Seq<u8>, at: int) -> u16 {
    le_u16(bytes[at], bytes[at + 1]) as u16
}

/// The signed 16-bit little-endian value at `at`.
pub open spec fn i16_at(bytes: Seq<u8>, at: int) -> i16 {
    le_i16(bytes[at], bytes[at + 1]) as i16
}

/// The unsigned 24-bit little-endian value at `at`, widened to 32 bits.
pub open spec fn u24_at(bytes: Seq<u8>, at: int) -> u32 {
    le_u24(bytes[at], bytes[at + 1], bytes[at + 2]) as u32
}

/// `Some(value)` for a declared field, `None` for an undeclared one.
pub open spec fn field<T>(declared: bool, value: T) -> Option<T> {
    if declared {
        Some(value)
    } else {
        None
    }
}

/// The frame that a buffer of sufficient length holds.
pub open spec fn frame_of(bytes: Seq<u8>) -> TreadmillData {
    let flags = flags_of(bytes[0], bytes[1]);
    let incline = flags.offset_of(FieldGroup::InclinationAndRampAngle);
    let elevation = flags.offset_of(FieldGroup::ElevationGain);
    let energy = flags.offset_of(FieldGroup::Energy);
    let force = flags.offset_of(FieldGroup::ForceOnBeltAndPowerOutput);
    TreadmillData {
        speed: u16_at(bytes, 2),
        average_speed: field(
            flags.average_speed,
            u16_at(bytes, flags.offset_of(FieldGroup::AverageSpeed)),
        ),
        total_distance: field(
            flags.total_distance,
            u24_at(bytes, flags.offset_of(FieldGroup::TotalDistance)),
        ),
        inclination: field(flags.inclination_and_ramp_angle, i16_at(bytes, incline)),
        ramp_angle: field(flags.inclination_and_ramp_angle, i16_at(bytes, incline + 2)),
        positive_elevation: field(flags.elevation_gain, u16_at(bytes, elevation)),
        negative_elevation: field(flags.elevation_gain, u16_at(bytes, elevation + 2)),
        instantaneous_pace: field(
            flags.instantaneous_pace,
            u16_at(bytes, flags.offset_of(FieldGroup::InstantaneousPace)),
        ),
        average_pace: field(
            flags.average_pace,
            u16_at(bytes, flags.offset_of(FieldGroup::AveragePace)),
        ),
        total_energy: field(flags.energy, u16_at(bytes, energy)),
        energy_per_hour: field(flags.energy, u16_at(bytes, energy + 2)),
        energy_per_minute: field(flags.energy, bytes[energy + 4]),
        heart_rate: field(flags.heart_rate, bytes[flags.offset_of(FieldGroup::HeartRate)]),
        metabolic_equivalent: field(
            flags.metabolic_equivalent,
            bytes[flags.offset_of(FieldGroup::MetabolicEquivalent)],
        ),
        elapsed_time: field(
            flags.elapsed_time,
            u16_at(bytes, flags.offset_of(FieldGroup::ElapsedTime)),
        ),
        remaining_time: field(
            flags.remaining_time,
            u16_at(bytes, flags.offset_of(FieldGroup::RemainingTime)),
        ),
        force_on_belt: field(flags.force_on_belt_and_power_output, i16_at(bytes, force)),
        power_output: field(flags.force_on_belt_and_power_output, i16_at(bytes, force + 2)),
    }
}

/// Whether the buffer holds the header and every group that its flags
/// declare.
pub open spec fn is_complete(bytes: Seq<u8>) -> bool {
    bytes.len() >= HEADER_LEN && bytes.len() >= flags_of(bytes[0], bytes[1]).frame_len()
}

/// What decoding a buffer gives: the frame of a complete buffer, and
/// `NotEnoughData` for any other.
pub open spec fn decoded(bytes: Seq<u8>) -> Result<TreadmillData, DecodeError> {
    if is_complete(bytes) {
        Ok(frame_of(bytes))
    } else {
        Err(DecodeError::NotEnoughData)
    }
}

fn read_u16(data: &[u8], declared: bool, at: usize) -> (value: Option<u16>)
    requires
        declared ==> at + 2 <= data@.len(),
    ensures
        value == field(declared, u16_at(data@, at as int)),
{
    if declared {
        Some(u16_from_le(data[at], data[at + 1]))
    } else {
        None
    }
}

fn read_i16(data: &[u8], declared: bool, at: usize) -> (value: Option<i16>)
    requires
        declared ==> at + 2 <= data@.len(),
    ensures
        value == field(declared, i16_at(data@, at as int)),
{
    if declared {
        Some(i16_from_le(data[at], data[at + 1]))
    } else {
        None
    }
}

fn read_u24(data: &[u8], declared: bool, at: usize) -> (value: Option<u32>)
    requires
        declared ==> at + 3 <= data@.len(),
    ensures
        value == field(declared, u24_at(data@, at as int)),
{
    if declared {
        Some(u24_from_le(data[at], data[at + 1], data[at + 2]))
    } else {
        None
    }
}

fn read_u8(data: &[u8], declared: bool, at: usize) -> (value: Option<u8>)
    requires
        declared ==> at < data@.len(),
    ensures
        value == field(declared, data@[at as int]),
{
    if declared {
        Some(data[at])
    } else {
        None
    }
}

/// Where each group of a frame starts, and where the frame ends.
#[derive(Debug, Clone, Copy, PartialEq, Eq)]
pub struct FrameLayout {
    pub average_speed: usize,
    pub total_distance: usize,
    pub inclination_and_ramp_angle: usize,
    pub elevation_gain: usize,
    pub instantaneous_pace: usize,
    pub average_pace: usize,
    pub energy: usize,
    pub heart_rate: usize,
    pub metabolic_equivalent: usize,
    pub elapsed_time: usize,
    pub remaining_time: usize,
    pub force_on_belt_and_power_output: usize,
    pub end: usize,
}

impl FrameLayout {
    /// Whether this is the layout of a frame with the given flags.
    pub open spec fn describes(self, flags: TreadmillDataFlags) -> bool {
        &&& self.average_speed == flags.offset_of(FieldGroup::AverageSpeed)
        &&& self.total_distance == flags.offset_of(FieldGroup::TotalDistance)
        &&& self.inclination_and_ramp_angle == flags.offset_of(
            FieldGroup::InclinationAndRampAngle,
        )
        &&& self.elevation_gain == flags.offset_of(FieldGroup::ElevationGain)
        &&& self.instantaneous_pace == flags.offset_of(FieldGroup::InstantaneousPace)
        &&& self.average_pace == flags.offset_of(FieldGroup::AveragePace)
        &&& self.energy == flags.offset_of(FieldGroup::Energy)
        &&& self.heart_rate == flags.offset_of(FieldGroup::HeartRate)
        &&& self.metabolic_equivalent == flags.offset_of(FieldGroup::MetabolicEquivalent)
        &&& self.elapsed_time == flags.offset_of(FieldGroup::ElapsedTime)
        &&& self.remaining_time == flags.offset_of(FieldGroup::RemainingTime)
        &&& self.force_on_belt_and_power_output == flags.offset_of(
            FieldGroup::ForceOnBeltAndPowerOutput,
        )
        &&& self.end == flags.frame_len()
    }
}

impl TreadmillDataFlags {
    /// Lays out a frame with these flags by walking a cursor over the groups
    /// in wire order.
    pub fn layout(&self) -> (layout: FrameLayout)
        ensures
            layout.describes(*self),
    {
        assert(self.span(0) == 0) by {
            reveal(TreadmillDataFlags::span);
        }
        let average_speed = HEADER_LEN;
        let total_distance = self.skip(FieldGroup::AverageSpeed, average_speed);
        let inclination_and_ramp_angle = self.skip(FieldGroup::TotalDistance, total_distance);
        let elevation_gain = self.skip(
            FieldGroup::InclinationAndRampAngle,
            inclination_and_ramp_angle,
        );
        let instantaneous_pace = self.skip(FieldGroup::ElevationGain, elevation_gain);
        let average_pace = self.skip(FieldGroup::InstantaneousPace, instantaneous_pace);
        let energy = self.skip(FieldGroup::AveragePace, average_pace);
        let heart_rate = self.skip(FieldGroup::Energy, energy);
        let metabolic_equivalent = self.skip(FieldGroup::HeartRate, heart_rate);
        let elapsed_time = self.skip(FieldGroup::MetabolicEquivalent, metabolic_equivalent);
        let remaining_time = self.skip(FieldGroup::ElapsedTime, elapsed_time);
        let force_on_belt_and_power_output = self.skip(FieldGroup::RemainingTime, remaining_time);
        let end = self.skip(FieldGroup::ForceOnBeltAndPowerOutput, force_on_belt_and_power_output);
        FrameLayout {
            average_speed,
            total_distance,
            inclination_and_ramp_angle,
            elevation_gain,
            instantaneous_pace,
            average_pace,
            energy,
            heart_rate,
            metabolic_equivalent,
            elapsed_time,
            remaining_time,
            force_on_belt_and_power_output,
            end,
        }
    }
}

/// Reads the fields of a complete frame at the places its layout gives.
fn read_frame(data: &[u8], flags: &TreadmillDataFlags, layout: &FrameLayout) -> (frame:
    TreadmillData)
    requires
        data@.len() >= HEADER_LEN,
        *flags == flags_of(data@[0], data@[1]),
        layout.describes(*flags),
        data@.len() >= layout.end,
    ensures
        frame == frame_of(data@),
{
    proof {
        lemma_group_within_frame(*flags, FieldGroup::AverageSpeed);
        lemma_group_within_frame(*flags, FieldGroup::TotalDistance);
        lemma_group_within_frame(*flags, FieldGroup::InclinationAndRampAngle);
        lemma_group_within_frame(*flags, FieldGroup::ElevationGain);
        lemma_group_within_frame(*flags, FieldGroup::InstantaneousPace);
        lemma_group_within_frame(*flags, FieldGroup::AveragePace);
        lemma_group_within_frame(*flags, FieldGroup::Energy);
        lemma_group_within_frame(*flags, FieldGroup::HeartRate);
        lemma_group_within_frame(*flags, FieldGroup::MetabolicEquivalent);
        lemma_group_within_frame(*flags, FieldGroup::ElapsedTime);
        lemma_group_within_frame(*flags, FieldGroup::RemainingTime);
        lemma_group_within_frame(*flags, FieldGroup::ForceOnBeltAndPowerOutput);
    }
    let ghost expected = frame_of(data@);
    let speed = u16_from_le(data[2], data[3]);
    assert(speed == expected.speed);
    let average_speed = read_u16(data, flags.average_speed, layout.average_speed);
    assert(average_speed == expected.average_speed);
    let total_distance = read_u24(data, flags.total_distance, layout.total_distance);
    assert(total_distance == expected.total_distance);
    let incline = flags.inclination_and_ramp_angle;
    let incline_at = layout.inclination_and_ramp_angle;
    let inclination = read_i16(data, incline, incline_at);
    assert(inclination == expected.inclination);
    let ramp_angle = read_i16(data, incline, incline_at + 2);
    assert(ramp_angle == expected.ramp_angle);
    let positive_elevation = read_u16(data, flags.elevation_gain, layout.elevation_gain);
    let negative_elevation = read_u16(data, flags.elevation_gain, layout.elevation_gain + 2);
    assert(positive_elevation == expected.positive_elevation);
    assert(negative_elevation == expected.negative_elevation);
    let instantaneous_pace = read_u16(data, flags.instantaneous_pace, layout.instantaneous_pace);
    assert(instantaneous_pace == expected.instantaneous_pace);
    let average_pace = read_u16(data, flags.average_pace, layout.average_pace);
    assert(average_pace == expected.average_pace);
    let total_energy = read_u16(data, flags.energy, layout.energy);
    let energy_per_hour = read_u16(data, flags.energy, layout.energy + 2);
    let energy_per_minute = read_u8(data, flags.energy, layout.energy + 4);
    assert(total_energy == expected.total_energy);
    assert(energy_per_hour == expected.energy_per_hour);
    assert(energy_per_minute == expected.energy_per_minute);
    let heart_rate = read_u8(data, flags.heart_rate, layout.heart_rate);
    assert(heart_rate == expected.heart_rate);
    let metabolic_equivalent = read_u8(
        data,
        flags.metabolic_equivalent,
        layout.metabolic_equivalent,
    );
    assert(metabolic_equivalent == expected.metabolic_equivalent);
    let elapsed_time = read_u16(data, flags.elapsed_time, layout.elapsed_time);
    assert(elapsed_time == expected.elapsed_time);
    let remaining_time = read_u16(data, flags.remaining_time, layout.remaining_time);
    assert(remaining_time == expected.remaining_time);
    let force = flags.force_on_belt_and_power_output;
    let force_at = layout.force_on_belt_and_power_output;
    let force_on_belt = read_i16(data, force, force_at);
    let power_output = read_i16(data, force, force_at + 2);
    assert(force_on_belt == expected.force_on_belt);
    assert(power_output == expected.power_output);
    TreadmillData {
        speed,
        average_speed,
        total_distance,
        inclination,
        ramp_angle,
        positive_elevation,
        negative_elevation,
        instantaneous_pace,
        average_pace,
        total_energy,
        energy_per_hour,
        energy_per_minute,
        heart_rate,
        metabolic_equivalent,
        elapsed_time,
        remaining_time,
        force_on_belt,
        power_output,
    }
}

/// Decodes one treadmill data frame.
///
/// Decoding is all or nothing: the result is the whole frame, or
/// `NotEnoughData` when the buffer is shorter than the header or than the
/// groups that its flags declare. Bytes behind the last declared group are
/// ignored.
pub fn decode_treadmill_data(data: &[u8]) -> (result: Result<TreadmillData, DecodeError>)
    ensures
        result == decoded(data@),
        data@.len() < HEADER_LEN ==> result == Err::<TreadmillData, DecodeError>(
            DecodeError::NotEnoughData,
        ),
        result is Ok <==> is_complete(data@),
{
    if data.len() < HEADER_LEN {
        return Err(DecodeError::NotEnoughData);
    }
    let flags = TreadmillDataFlags::from_bytes(data[0], data[1]);
    let layout = flags.layout();
    // A frame that lacks any byte of a declared group is refused whole.
    if data.len() < layout.end {
        return Err(DecodeError::NotEnoughData);
    }
    Ok(read_frame(data, &flags, &layout))
}

impl TreadmillData {
    /// Whether every field of `group` is populated.
    pub open spec fn populated(self, group: FieldGroup) -> bool {
        match group {
            FieldGroup::AverageSpeed => self.average_speed is Some,
            FieldGroup::TotalDistance => self.total_distance is Some,
            FieldGroup::InclinationAndRampAngle => self.inclination is Some
                && self.ramp_angle is Some,
            FieldGroup::ElevationGain => self.positive_elevation is Some
                && self.negative_elevation is Some,
            FieldGroup::InstantaneousPace => self.instantaneous_pace is Some,
            FieldGroup::AveragePace => self.average_pace is Some,
            FieldGroup::Energy => self.total_energy is Some && self.energy_per_hour is Some
                && self.energy_per_minute is Some,
            FieldGroup::HeartRate => self.heart_rate is Some,
            FieldGroup::MetabolicEquivalent => self.metabolic_equivalent is Some,
            FieldGroup::ElapsedTime => self.elapsed_time is Some,
            FieldGroup::RemainingTime => self.remaining_time is Some,
            FieldGroup::ForceOnBeltAndPowerOutput => self.force_on_belt is Some
                && self.power_output is Some,
        }
    }

    /// Whether every field of `group` is absent.
    pub open spec fn vacant(self, group: FieldGroup) -> bool {
        match group {
            FieldGroup::AverageSpeed => self.average_speed is None,
            FieldGroup::TotalDistance => self.total_distance is None,
            FieldGroup::InclinationAndRampAngle => self.inclination is None
                && self.ramp_angle is None,
            FieldGroup::ElevationGain => self.positive_elevation is None
                && self.negative_elevation is None,
            FieldGroup::InstantaneousPace => self.instantaneous_pace is None,
            FieldGroup::AveragePace => self.average_pace is None,
            FieldGroup::Energy => self.total_energy is None && self.energy_per_hour is None
                && self.energy_per_minute is None,
            FieldGroup::HeartRate => self.heart_rate is None,
            FieldGroup::MetabolicEquivalent => self.metabolic_equivalent is None,
            FieldGroup::ElapsedTime => self.elapsed_time is None,
            FieldGroup::RemainingTime => self.remaining_time is None,
            FieldGroup::ForceOnBeltAndPowerOutput => self.force_on_belt is None
                && self.power_output is None,
        }
    }

    /// The frame that holds the speed and nothing else.
    pub open spec fn bare(speed: u16) -> TreadmillData {
        TreadmillData {
            speed,
            average_speed: None,
            total_distance: None,
            inclination: None,
            ramp_angle: None,
            positive_elevation: None,
            negative_elevation: None,
            instantaneous_pace: None,
            average_pace: None,
            total_energy: None,
            energy_per_hour: None,
            energy_per_minute: None,
            heart_rate: None,
            metabolic_equivalent: None,
            elapsed_time: None,
            remaining_time: None,
            force_on_belt: None,
            power_output: None,
        }
    }
}

/// A buffer shorter than the header never decodes.
pub proof fn lemma_short_buffer_rejected(bytes: Seq<u8>)
    requires
        bytes.len() < HEADER_LEN,
    ensures
        decoded(bytes) == Err::<TreadmillData, DecodeError>(DecodeError::NotEnoughData),
{
}

/// Flags that declare no group span no bytes.
pub proof fn lemma_span_of_no_groups(flags: TreadmillDataFlags, count: nat)
    requires
        forall|group: FieldGroup| !flags.declares(group),
    ensures
        flags.span(count) == 0,
    decreases count,
{
    reveal(TreadmillDataFlags::span);
    if count > 0 {
        lemma_span_of_no_groups(flags, (count - 1) as nat);
    }
}

/// A buffer that holds the header with both flag bytes zero decodes to the
/// frame with the speed alone: every optional field is absent.
pub proof fn lemma_zero_flags_give_bare_frame(bytes: Seq<u8>)
    requires
        bytes.len() >= HEADER_LEN,
        bytes[0] == 0,
        bytes[1] == 0,
    ensures
        decoded(bytes) == Ok::<TreadmillData, DecodeError>(
            TreadmillData::bare(u16_at(bytes, 2)),
        ),
{
    reveal(has_bit);
    let flags = flags_of(bytes[0], bytes[1]);
    assert(forall|mask: u8| 0u8 & mask == 0) by (bit_vector);
    assert forall|group: FieldGroup| !flags.declares(group) by {}
    lemma_span_of_no_groups(flags, GROUP_COUNT as nat);
}

/// Decoding fails whenever the buffer lacks a byte of any declared group,
/// wherever in the frame the group stands and however much of the frame
/// before it is there.
pub proof fn lemma_truncated_group_rejected(bytes: Seq<u8>, group: FieldGroup)
    requires
        bytes.len() >= HEADER_LEN,
        flags_of(bytes[0], bytes[1]).declares(group),
        bytes.len() < flags_of(bytes[0], bytes[1]).offset_of(group) + group.width(),
    ensures
        decoded(bytes) == Err::<TreadmillData, DecodeError>(DecodeError::NotEnoughData),
{
    lemma_group_within_frame(flags_of(bytes[0], bytes[1]), group);
}

/// In a decoded frame the fields of a group are populated exactly when the
/// flags declare the group: all of them when they do, none when they do not.
pub proof fn lemma_fields_follow_flags(bytes: Seq<u8>, group: FieldGroup)
    requires
        decoded(bytes) is Ok,
    ensures
        flags_of(bytes[0], bytes[1]).declares(group) ==> decoded(bytes)->Ok_0.populated(group),
        !flags_of(bytes[0], bytes[1]).declares(group) ==> decoded(bytes)->Ok_0.vacant(group),
{
}

/// Bytes behind the end of the frame do not change what is decoded.
pub proof fn lemma_trailing_bytes_ignored(bytes: Seq<u8>, more: Seq<u8>)
    requires
        decoded(bytes) is Ok,
    ensures
        decoded(bytes + more) == decoded(bytes),
{
    let flags = flags_of(bytes[0], bytes[1]);
    let longer = bytes + more;
    assert(longer[0] == bytes[0] && longer[1] == bytes[1]);
    assert(longer[2] == bytes[2] && longer[3] == bytes[3]);
    lemma_group_within_frame(flags, FieldGroup::AverageSpeed);
    lemma_group_within_frame(flags, FieldGroup::TotalDistance);
    lemma_group_within_frame(flags, FieldGroup::InclinationAndRampAngle);
    lemma_group_within_frame(flags, FieldGroup::ElevationGain);
    lemma_group_within_frame(flags, FieldGroup::InstantaneousPace);
    lemma_group_within_frame(flags, FieldGroup::AveragePace);
    lemma_group_within_frame(flags, FieldGroup::Energy);
    lemma_group_within_frame(flags, FieldGroup::HeartRate);
    lemma_group_within_frame(flags, FieldGroup::MetabolicEquivalent);
    lemma_group_within_frame(flags, FieldGroup::ElapsedTime);
    lemma_group_within_frame(flags, FieldGroup::RemainingTime);
    lemma_group_within_frame(flags, FieldGroup::ForceOnBeltAndPowerOutput);
    assert(forall|at: int| 0 <= at < bytes.len() ==> longer[at] == bytes[at]);
    let short_frame = frame_of(bytes);
    let long_frame = frame_of(longer);
    assert(long_frame.speed == short_frame.speed);
    assert(long_frame.average_speed == short_frame.average_speed);
    assert(long_frame.total_distance == short_frame.total_distance);
    assert(long_frame.inclination == short_frame.inclination);
    assert(long_frame.ramp_angle == short_frame.ramp_angle);
    assert(long_frame.positive_elevation == short_frame.positive_elevation);
    assert(long_frame.negative_elevation == short_frame.negative_elevation);
    assert(long_frame.instantaneous_pace == short_frame.instantaneous_pace);
    assert(long_frame.average_pace == short_frame.average_pace);
    assert(long_frame.total_energy == short_frame.total_energy);
    assert(long_frame.energy_per_hour == short_frame.energy_per_hour);
    assert(long_frame.energy_per_minute == short_frame.energy_per_minute);
    assert(long_frame.heart_rate == short_frame.heart_rate);
    assert(long_frame.metabolic_equivalent == short_frame.metabolic_equivalent);
    assert(long_frame.elapsed_time == short_frame.elapsed_time);
    assert(long_frame.remaining_time == short_frame.remaining_time);
    assert(long_frame.force_on_belt == short_frame.force_on_belt);
    assert(long_frame.power_output == short_frame.power_output);
}

} // verus!
