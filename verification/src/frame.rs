//! The command frame: one opcode byte, then the five servo units as
//! big-endian 16-bit values in the order top, shoulder, upper, elbow, lower.

use vstd::prelude::*;

verus! {

/// Length in bytes of a command frame.
pub const FRAME_LEN: usize = 11;

/// Opcode of a frame that carries servo units. Other values are reserved.
pub const OPCODE_SERVO: u8 = 0;

/// One servo unit for each joint, as sent on the wire.
#[derive(Clone, Copy, Debug, PartialEq, Eq, Structural)]
pub struct ServoCommand {
    pub top: u16,
    pub shoulder: u16,
    pub upper: u16,
    pub elbow: u16,
    pub lower: u16,
}

/// Why a buffer is no command frame.
#[derive(Clone, Copy, Debug, PartialEq, Eq, Structural)]
pub enum FrameError {
    /// The buffer holds `actual` bytes, not `FRAME_LEN`.
    WrongLength { actual: usize },
}

/// High byte of a 16-bit value.
pub open spec fn high_byte(value: u16) -> u8 {
    (value / 256) as u8
}

/// Low byte of a 16-bit value.
pub open spec fn low_byte(value: u16) -> u8 {
    (value % 256) as u8
}

/// The 16-bit value whose big-endian bytes are `high`, `low`.
pub open spec fn be_value(high: u8, low: u8) -> u16 {
    (high * 256 + low) as u16
}

/// The frame that carries `command`.
pub open spec fn encoded(command: ServoCommand) -> Seq<u8> {
    seq![
        OPCODE_SERVO,
        high_byte(command.top),
        low_byte(command.top),
        high_byte(command.shoulder),
        low_byte(command.shoulder),
        high_byte(command.upper),
        low_byte(command.upper),
        high_byte(command.elbow),
        low_byte(command.elbow),
        high_byte(command.lower),
        low_byte(command.lower),
    ]
}

/// The command that the payload of `frame`, the bytes after the opcode,
/// carries. Meaningful for frames of `FRAME_LEN` bytes.
pub open spec fn decoded(frame: Seq<u8>) -> ServoCommand {
    ServoCommand {
        top: be_value(frame[1], frame[2]),
        shoulder: be_value(frame[3], frame[4]),
        upper: be_value(frame[5], frame[6]),
        elbow: be_value(frame[7], frame[8]),
        lower: be_value(frame[9], frame[10]),
    }
}

/// What decoding `frame` yields: its command where the length is right, the
/// length error where it is not. The opcode byte is not interpreted.
pub open spec fn decode_result(frame: Seq<u8>) -> Result<ServoCommand, FrameError> {
    if frame.len() == FRAME_LEN {
        Ok(decoded(frame))
    } else {
        Err(FrameError::WrongLength { actual: frame.len() as usize })
    }
}

fn push_be(frame: &mut Vec<u8>, value: u16)
    ensures
        final(frame)@ == old(frame)@.push(high_byte(value)).push(low_byte(value)),
{
    frame.push((value / 256) as u8);
    frame.push((value % 256) as u8);
}

fn read_be(frame: &[u8], at: usize) -> (value: u16)
    requires
        at + 1 < frame.len(),
    ensures
        value == be_value(frame[at as int], frame[at + 1]),
{
    frame[at] as u16 * 256 + frame[at + 1] as u16
}

impl ServoCommand {
    /// Frames the command: `FRAME_LEN` bytes, the opcode first.
    pub fn encode(&self) -> (frame: Vec<u8>)
        ensures
            frame@ == encoded(*self),
            frame@.len() == FRAME_LEN,
    {
        let mut frame: Vec<u8> = Vec::with_capacity(FRAME_LEN);
        frame.push(OPCODE_SERVO);
        push_be(&mut frame, self.top);
        push_be(&mut frame, self.shoulder);
        push_be(&mut frame, self.upper);
        push_be(&mut frame, self.elbow);
        push_be(&mut frame, self.lower);
        assert(frame@ =~= encoded(*self));
        frame
    }

    /// Reads a command back from a received buffer. A buffer of any length
    /// but `FRAME_LEN` is rejected; nothing else is.
    pub fn decode(frame: &[u8]) -> (result: Result<ServoCommand, FrameError>)
        ensures
            result == decode_result(frame@),
    {
        if frame.len() != FRAME_LEN {
            return Err(FrameError::WrongLength { actual: frame.len() });
        }
        Ok(
            ServoCommand {
                top: read_be(frame, 1),
                shoulder: read_be(frame, 3),
                upper: read_be(frame, 5),
                elbow: read_be(frame, 7),
                lower: read_be(frame, 9),
            },
        )
    }
}

/// Decoding the frame of a command gives the command back.
pub proof fn lemma_decode_encode(command: ServoCommand)
    ensures
        decode_result(encoded(command)) == Ok::<ServoCommand, FrameError>(command),
{
}

/// Encoding the command of a frame with the servo opcode gives the frame back.
pub proof fn lemma_encode_decode(frame: Seq<u8>)
    requires
        frame.len() == FRAME_LEN,
        frame[0] == OPCODE_SERVO,
    ensures
        encoded(decoded(frame)) == frame,
{
    assert(encoded(decoded(frame)) =~= frame);
}

/// Two commands with the same frame are the same command.
pub proof fn lemma_encoded_injective(a: ServoCommand, b: ServoCommand)
    requires
        encoded(a) == encoded(b),
    ensures
        a == b,
{
    lemma_decode_encode(a);
    lemma_decode_encode(b);
}

} // verus!
