//! Framing of the uplink byte stream: header, command, checksum.

use vstd::prelude::*;

use crate::can::command::GroundCommand;

verus! {

/// First byte of every uplink frame.
pub const HEADER: u8 = 0x55;

/// Collects bytes until a frame is complete.
pub struct UplinkFrameBuffer {
    bytes: [u8; 3],
    len: usize,
}

/// What a received byte led to.
#[derive(Clone, Copy, Debug, PartialEq, Eq, Structural)]
pub enum UplinkOutcome {
    /// No frame ended with this byte, or it was damaged.
    Pending,
    /// A sound frame with a byte that stands for no command.
    UnknownCommand,
    /// A sound frame with this command byte.
    Command(u8),
}

/// The bytes kept from a frame that is still incomplete, after one more byte.
pub open spec fn pending_after(pending: Seq<u8>, byte: u8) -> Seq<u8> {
    if byte == HEADER {
        seq![HEADER]
    } else if pending.len() == 1 {
        seq![HEADER, byte]
    } else {
        Seq::empty()
    }
}

/// The command of the frame that `byte` completes.
pub open spec fn completed_by(pending: Seq<u8>, byte: u8) -> Option<u8> {
    if pending.len() == 2 && byte == HEADER ^ pending[1] {
        Some(pending[1])
    } else {
        None
    }
}

/// The outcome for the command byte of a sound frame.
pub open spec fn outcome_of(frame: Option<u8>) -> UplinkOutcome {
    match frame {
        None => UplinkOutcome::Pending,
        Some(byte) => if GroundCommand::spec_decode_legacy(byte) is Some {
            UplinkOutcome::Command(byte)
        } else {
            UplinkOutcome::UnknownCommand
        },
    }
}

impl UplinkFrameBuffer {
    /// The bytes kept from the frame that is still incomplete.
    pub closed spec fn pending(self) -> Seq<u8> {
        if self.len == 0 {
            Seq::empty()
        } else if self.len == 1 {
            seq![HEADER]
        } else {
            seq![HEADER, self.bytes@[1]]
        }
    }

    pub fn new() -> (buffer: Self)
        ensures
            buffer.pending() == Seq::<u8>::empty(),
    {
        UplinkFrameBuffer { bytes: [0, 0, 0], len: 0 }
    }

    /// Takes the next byte and returns the command of the frame that it completes, if any.
    pub fn push(&mut self, byte: u8) -> (command: Option<u8>)
        ensures
            command == completed_by(old(self).pending(), byte),
            final(self).pending() == pending_after(old(self).pending(), byte),
    {
        if self.len == 0 {
            if byte == HEADER {
                self.bytes[0] = byte;
                self.len = 1;
            }
            None
        } else if self.len == 1 {
            if byte == HEADER {
                self.bytes[0] = byte;
            } else {
                self.bytes[1] = byte;
                self.len = 2;
            }
            None
        } else {
            let command: u8 = self.bytes[1];
            self.len = if byte == HEADER {
                1
            } else {
                0
            };
            if byte == HEADER ^ command {
                Some(command)
            } else {
                None
            }
        }
    }

    /// Forgets an incomplete frame.
    pub fn reset(&mut self)
        ensures
            final(self).pending() == Seq::<u8>::empty(),
    {
        self.len = 0;
    }

    /// Takes the next byte and sorts out what the board has to do about it. Every sound frame is
    /// radio activity, but only a known command is passed on.
    pub fn receive(&mut self, byte: u8) -> (outcome: UplinkOutcome)
        ensures
            outcome == outcome_of(completed_by(old(self).pending(), byte)),
            final(self).pending() == pending_after(old(self).pending(), byte),
    {
        match self.push(byte) {
            None => UplinkOutcome::Pending,
            Some(command) => match GroundCommand::decode_legacy(command) {
                Some(_) => UplinkOutcome::Command(command),
                None => UplinkOutcome::UnknownCommand,
            },
        }
    }
}

/// The bytes kept after a stretch of the stream.
pub open spec fn pending_after_stream(pending: Seq<u8>, stream: Seq<u8>) -> Seq<u8>
    decreases stream.len(),
{
    if stream.len() == 0 {
        pending
    } else {
        pending_after(pending_after_stream(pending, stream.drop_last()), stream.last())
    }
}

/// The commands that a stretch of the stream yields, in order.
pub open spec fn commands_in_stream(pending: Seq<u8>, stream: Seq<u8>) -> Seq<u8>
    decreases stream.len(),
{
    if stream.len() == 0 {
        Seq::empty()
    } else {
        let before = commands_in_stream(pending, stream.drop_last());
        match completed_by(pending_after_stream(pending, stream.drop_last()), stream.last()) {
            Some(command) => before.push(command),
            None => before,
        }
    }
}

/// The frame that carries a command byte.
pub open spec fn frame_of(command: u8) -> Seq<u8> {
    seq![HEADER, command, HEADER ^ command]
}

/// Frames sent one after the other.
pub open spec fn frames_of(commands: Seq<u8>) -> Seq<u8>
    decreases commands.len(),
{
    if commands.len() == 0 {
        Seq::empty()
    } else {
        frames_of(commands.drop_last()) + frame_of(commands.last())
    }
}

/// Law: it does not matter how the stream is split into reads.
pub proof fn law_splitting_the_stream_changes_nothing(
    pending: Seq<u8>,
    first: Seq<u8>,
    second: Seq<u8>,
)
    ensures
        pending_after_stream(pending, first + second) == pending_after_stream(
            pending_after_stream(pending, first),
            second,
        ),
        commands_in_stream(pending, first + second) == commands_in_stream(pending, first)
            + commands_in_stream(pending_after_stream(pending, first), second),
    decreases second.len(),
{
    if second.len() == 0 {
        assert(first + second =~= first);
        assert(commands_in_stream(pending, first) + Seq::<u8>::empty() =~= commands_in_stream(
            pending,
            first,
        ));
    } else {
        law_splitting_the_stream_changes_nothing(pending, first, second.drop_last());
        assert((first + second).drop_last() =~= first + second.drop_last());
        assert((first + second).last() == second.last());
        let middle = pending_after_stream(pending, first);
        assert(commands_in_stream(pending, first + second) =~= commands_in_stream(pending, first)
            + commands_in_stream(middle, second));
    }
}

/// Law: a command is reported only when the last three bytes are its frame.
pub proof fn law_reported_commands_were_framed(stream: Seq<u8>, byte: u8)
    ensures
        completed_by(pending_after_stream(Seq::empty(), stream), byte) matches Some(command) ==> {
            &&& command != HEADER
            &&& stream.len() >= 2
            &&& stream.push(byte).skip(stream.len() - 2) == frame_of(command)
        },
{
    let pending = pending_after_stream(Seq::empty(), stream);
    if completed_by(pending, byte) is Some {
        let shorter = stream.drop_last();
        let before = pending_after_stream(Seq::empty(), shorter);
        assert(pending == pending_after(before, stream.last()));
        lemma_single_pending_byte_is_a_header(shorter);
        assert(shorter.last() == stream[stream.len() - 2]);
        assert(stream.push(byte).skip(stream.len() - 2) =~= frame_of(pending[1]));
    }
}

proof fn lemma_single_pending_byte_is_a_header(stream: Seq<u8>)
    ensures
        pending_after_stream(Seq::empty(), stream).len() == 1 ==> stream.len() >= 1
            && stream.last() == HEADER,
{
}

/// Law: a sound frame is accepted whatever came before it, a half-received frame too, and the
/// buffer is then ready for another frame. Unless a frame was half received, the command is all
/// that it yields. The header itself cannot be a command.
pub proof fn law_sound_frame_is_accepted(pending: Seq<u8>, command: u8)
    requires
        command != HEADER,
    ensures
        completed_by(pending_after_stream(pending, seq![HEADER, command]), HEADER ^ command)
            == Some(command),
        commands_in_stream(pending, frame_of(command)).last() == command,
        pending_after_stream(pending, frame_of(command)).len() < 2,
        pending.len() < 2 ==> commands_in_stream(pending, frame_of(command)) == seq![command],
{
    let frame = frame_of(command);
    assert(frame.drop_last() =~= seq![HEADER, command]);
    assert(seq![HEADER, command].drop_last() =~= seq![HEADER]);
    assert(seq![HEADER].drop_last() =~= Seq::<u8>::empty());
    reveal_with_fuel(pending_after_stream, 4);
    reveal_with_fuel(commands_in_stream, 4);
    if pending.len() < 2 {
        assert(commands_in_stream(pending, frame) =~= seq![command]);
    }
}

/// Law: frames sent back to back yield their commands, all of them and in order.
pub proof fn law_consecutive_frames_are_all_accepted(commands: Seq<u8>)
    requires
        forall|i: int| 0 <= i < commands.len() ==> commands[i] != HEADER,
    ensures
        commands_in_stream(Seq::empty(), frames_of(commands)) == commands,
        pending_after_stream(Seq::empty(), frames_of(commands)).len() < 2,
    decreases commands.len(),
{
    if commands.len() > 0 {
        let earlier = commands.drop_last();
        law_consecutive_frames_are_all_accepted(earlier);
        let pending = pending_after_stream(Seq::empty(), frames_of(earlier));
        law_sound_frame_is_accepted(pending, commands.last());
        law_splitting_the_stream_changes_nothing(
            Seq::empty(),
            frames_of(earlier),
            frame_of(commands.last()),
        );
        assert(earlier + seq![commands.last()] =~= commands);
    }
}

/// Law: bytes before the first header yield nothing and leave nothing behind.
pub proof fn law_garbage_without_header_is_skipped(garbage: Seq<u8>)
    requires
        forall|i: int| 0 <= i < garbage.len() ==> garbage[i] != HEADER,
    ensures
        commands_in_stream(Seq::empty(), garbage) == Seq::<u8>::empty(),
        pending_after_stream(Seq::empty(), garbage) == Seq::<u8>::empty(),
    decreases garbage.len(),
{
    if garbage.len() > 0 {
        law_garbage_without_header_is_skipped(garbage.drop_last());
    }
}

/// Law: of the sound frames, those with one of the ten command letters are passed on, with the
/// letter as it came; any other is an unknown command, and without a frame nothing happens.
pub proof fn law_outcomes_of_frames(letter: u8)
    ensures
        outcome_of(None) is Pending,
        outcome_of(Some(letter)) == (if letter == 0x45 || letter == 0x63 || letter == 0x67
            || letter == 0x68 || letter == 0x6c || letter == 0x6d || letter == 0x6f || letter
            == 0x71 || letter == 0x73 || letter == 0x7a {
            UplinkOutcome::Command(letter)
        } else {
            UplinkOutcome::UnknownCommand
        }),
{
}

/// Law: a frame begins with the header byte, its three bytes cancel out, and it is sound for its
/// own command only.
pub proof fn law_frames_cancel_out(command: u8, other: u8)
    ensures
        frame_of(command).len() == 3,
        frame_of(command)[0] == 0x55,
        frame_of(command)[1] == command,
        frame_of(command)[0] ^ frame_of(command)[1] ^ frame_of(command)[2] == 0,
        completed_by(seq![0x55u8, command], other) is Some <==> 0x55 ^ command ^ other == 0,
{
    assert(0x55u8 ^ command ^ (0x55u8 ^ command) == 0) by (bit_vector);
    assert(0x55u8 ^ command ^ other == 0 <==> other == 0x55u8 ^ command) by (bit_vector);
}

} // verus!
