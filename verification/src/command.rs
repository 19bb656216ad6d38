//! Control commands for the treadmill control point and their wire encoding.

use vstd::prelude::*;
use crate::wire::{byte0, byte1, byte2, i16_to_le, le_u24, u16_to_le, u32_low3_to_le};

verus! {

/// Largest targeted distance that the three payload bytes can carry.
pub const MAX_TARGETED_DISTANCE: u32 = 0xFF_FFFF;

/// A command for the treadmill control point.
#[derive(Debug, Clone, Copy, PartialEq, Eq)]
pub enum TreadmillCommands {
    RequestControl,
    Reset,
    /// Target speed in hundredths of a kilometre per hour.
    SetTargetSpeed(u16),
    /// Target inclination in tenths of a percent.
    SetTargetInclination(i16),
    StartOrResume,
    StopOrPause,
    /// Targeted distance in metres. The wire carries 24 bits of it.
    SetTargetedDistance(u32),
    /// Targeted training time in seconds.
    SetTargetedTrainingTime(u16),
}

impl TreadmillCommands {
    /// The opcode that opens the command's message.
    pub open spec fn opcode(self) -> u8 {
        match self {
            TreadmillCommands::RequestControl => 0x00,
            TreadmillCommands::Reset => 0x01,
            TreadmillCommands::SetTargetSpeed(_) => 0x02,
            TreadmillCommands::SetTargetInclination(_) => 0x03,
            TreadmillCommands::StartOrResume => 0x07,
            TreadmillCommands::StopOrPause => 0x08,
            TreadmillCommands::SetTargetedDistance(_) => 0x0C,
            TreadmillCommands::SetTargetedTrainingTime(_) => 0x0D,
        }
    }

    /// The little-endian payload that follows the opcode.
    pub open spec fn payload(self) -> Seq<u8> {
        match self {
            TreadmillCommands::SetTargetSpeed(speed) => seq![
                byte0(speed as int),
                byte1(speed as int),
            ],
            TreadmillCommands::SetTargetInclination(inclination) => seq![
                byte0(inclination as int),
                byte1(inclination as int),
            ],
            TreadmillCommands::SetTargetedDistance(distance) => seq![
                byte0(distance as int),
                byte1(distance as int),
                byte2(distance as int),
            ],
            TreadmillCommands::SetTargetedTrainingTime(time) => seq![
                byte0(time as int),
                byte1(time as int),
            ],
            _ => Seq::empty(),
        }
    }

    /// The whole message: the opcode, then the payload.
    pub open spec fn message(self) -> Seq<u8> {
        seq![self.opcode()] + self.payload()
    }

    /// Whether the message carries the command's parameter in full. Only a
    /// targeted distance above 24 bits does not fit.
    pub open spec fn fits_wire(self) -> bool {
        match self {
            TreadmillCommands::SetTargetedDistance(distance) => distance <= MAX_TARGETED_DISTANCE,
            _ => true,
        }
    }

    /// Tells whether the encoded message carries the parameter without loss,
    /// so that a caller can reject a targeted distance that would be cut to
    /// its low 24 bits.
    pub fn in_wire_range(&self) -> (fits: bool)
        ensures
            fits == self.fits_wire(),
    {
        match self {
            TreadmillCommands::SetTargetedDistance(distance) => *distance <= MAX_TARGETED_DISTANCE,
            _ => true,
        }
    }
}

/// Encodes a command as the bytes to write to the control point.
///
/// Encoding never fails and checks no protocol ordering. A targeted distance
/// is cut to its three low bytes.
pub fn treadmill_command_to_message(command: TreadmillCommands) -> (message: Vec<u8>)
    ensures
        message@ == command.message(),
{
    let mut message: Vec<u8> = Vec::new();
    match command {
        TreadmillCommands::RequestControl => {
            message.push(0x00);
        },
        TreadmillCommands::Reset => {
            message.push(0x01);
        },
        TreadmillCommands::SetTargetSpeed(speed) => {
            let (lo, hi) = u16_to_le(speed);
            message.push(0x02);
            message.push(lo);
            message.push(hi);
        },
        TreadmillCommands::SetTargetInclination(inclination) => {
            let (lo, hi) = i16_to_le(inclination);
            message.push(0x03);
            message.push(lo);
            message.push(hi);
        },
        TreadmillCommands::StartOrResume => {
            message.push(0x07);
        },
        TreadmillCommands::StopOrPause => {
            message.push(0x08);
        },
        TreadmillCommands::SetTargetedDistance(distance) => {
            let (b0, b1, b2) = u32_low3_to_le(distance);
            message.push(0x0C);
            message.push(b0);
            message.push(b1);
            message.push(b2);
        },
        TreadmillCommands::SetTargetedTrainingTime(time) => {
            let (lo, hi) = u16_to_le(time);
            message.push(0x0D);
            message.push(lo);
            message.push(hi);
        },
    }
    assert(message@ =~= command.message());
    message
}

/// Every message is one opcode byte followed by at most three payload bytes.
pub proof fn lemma_message_shape(command: TreadmillCommands)
    ensures
        1 <= command.message().len() <= 4,
        command.message()[0] == command.opcode(),
        command.message().len() == 1 + command.payload().len(),
{
}

/// The opcode identifies the kind of command: two commands with the same
/// opcode are of the same variant.
pub proof fn lemma_opcode_identifies_variant(a: TreadmillCommands, b: TreadmillCommands)
    requires
        a.opcode() == b.opcode(),
    ensures
        a is RequestControl <==> b is RequestControl,
        a is Reset <==> b is Reset,
        a is SetTargetSpeed <==> b is SetTargetSpeed,
        a is SetTargetInclination <==> b is SetTargetInclination,
        a is StartOrResume <==> b is StartOrResume,
        a is StopOrPause <==> b is StopOrPause,
        a is SetTargetedDistance <==> b is SetTargetedDistance,
        a is SetTargetedTrainingTime <==> b is SetTargetedTrainingTime,
{
}

/// A targeted distance within the wire range is carried without loss: the
/// three payload bytes read back as the distance.
pub proof fn lemma_targeted_distance_in_range_is_exact(distance: u32)
    requires
        TreadmillCommands::SetTargetedDistance(distance).fits_wire(),
    ensures
        ({
            let payload = TreadmillCommands::SetTargetedDistance(distance).payload();
            le_u24(payload[0], payload[1], payload[2]) == distance
        }),
{
}

} // verus!
