//! Commands and their encoding as frames.
//!
//! A command is a tag that says what kind of command it is, and data whose
//! meaning depends on the tag. Its frame carries the tag byte followed by
//! the data.

use vstd::prelude::*;
use crate::bytes::{append_bytes, copy_from};
use crate::error::DecodeError;
use crate::framing::{
    ends_in_sole_terminator, frame, lemma_unframe_stops_at_terminator, spec_frame, spec_unframe,
    unframe, TERMINATOR,
};
use crate::timestamp::{datetime_to_bytes, spec_datetime_to_bytes, Timestamp};

verus! {

/// What kind of command a frame carries. On the wire it is one byte, 0 to 7
/// in the order of the variants.
#[derive(Copy, Clone, PartialEq, Eq, Debug, Structural)]
pub enum CommandType {
    /// Tells the time; the data is a timestamp of eight bytes.
    Time,
    /// Names the startup script to run; the data is the name.
    StartupCommand,
    /// The payload has initialised.
    Initialised,
    /// The payload is to power down.
    PowerDown,
    /// Answers `Time`.
    TimeAcknowledge,
    /// Answers `StartupCommand`.
    StartupCommandAcknowledge,
    /// Answers `Initialised`.
    InitialisedAcknowledge,
    /// Answers `PowerDown`.
    PowerDownAcknowledge,
}

impl CommandType {
    /// The byte that stands for this command type on the wire.
    pub open spec fn tag(self) -> u8 {
        match self {
            CommandType::Time => 0,
            CommandType::StartupCommand => 1,
            CommandType::Initialised => 2,
            CommandType::PowerDown => 3,
            CommandType::TimeAcknowledge => 4,
            CommandType::StartupCommandAcknowledge => 5,
            CommandType::InitialisedAcknowledge => 6,
            CommandType::PowerDownAcknowledge => 7,
        }
    }

    /// The command type that `byte` stands for, if it stands for one.
    pub open spec fn of_tag(byte: u8) -> Option<CommandType> {
        if byte == 0 {
            Some(CommandType::Time)
        } else if byte == 1 {
            Some(CommandType::StartupCommand)
        } else if byte == 2 {
            Some(CommandType::Initialised)
        } else if byte == 3 {
            Some(CommandType::PowerDown)
        } else if byte == 4 {
            Some(CommandType::TimeAcknowledge)
        } else if byte == 5 {
            Some(CommandType::StartupCommandAcknowledge)
        } else if byte == 6 {
            Some(CommandType::InitialisedAcknowledge)
        } else if byte == 7 {
            Some(CommandType::PowerDownAcknowledge)
        } else {
            None
        }
    }

    /// Each command type has its own tag below 8, and each byte below 8 is
    /// the tag of exactly one command type.
    pub proof fn lemma_tags(command_type: CommandType, byte: u8)
        ensures
            command_type.tag() < 8,
            CommandType::of_tag(command_type.tag()) == Some(command_type),
            CommandType::of_tag(byte) is Some <==> byte < 8,
            CommandType::of_tag(byte) == Some(command_type) <==> command_type.tag() == byte,
    {
    }

    /// The byte that stands for this command type on the wire.
    pub fn to_byte(self) -> (byte: u8)
        ensures
            byte == self.tag(),
    {
        match self {
            CommandType::Time => 0,
            CommandType::StartupCommand => 1,
            CommandType::Initialised => 2,
            CommandType::PowerDown => 3,
            CommandType::TimeAcknowledge => 4,
            CommandType::StartupCommandAcknowledge => 5,
            CommandType::InitialisedAcknowledge => 6,
            CommandType::PowerDownAcknowledge => 7,
        }
    }

    /// Reads a tag byte. A byte of 8 or more stands for no command type and
    /// is answered with `UnknownType`.
    pub fn from_byte(byte: u8) -> (command_type: Result<CommandType, DecodeError>)
        ensures
            command_type == match CommandType::of_tag(byte) {
                Some(t) => Ok::<CommandType, DecodeError>(t),
                None => Err::<CommandType, DecodeError>(DecodeError::UnknownType),
            },
            command_type is Ok <==> byte < 8,
    {
        match byte {
            0 => Ok(CommandType::Time),
            1 => Ok(CommandType::StartupCommand),
            2 => Ok(CommandType::Initialised),
            3 => Ok(CommandType::PowerDown),
            4 => Ok(CommandType::TimeAcknowledge),
            5 => Ok(CommandType::StartupCommandAcknowledge),
            6 => Ok(CommandType::InitialisedAcknowledge),
            7 => Ok(CommandType::PowerDownAcknowledge),
            _ => Err(DecodeError::UnknownType),
        }
    }
}

/// A command exchanged with the payload.
#[derive(Debug)]
pub struct Command {
    /// What kind of command this is.
    pub command_type: CommandType,
    /// The data that goes with it: by convention a timestamp for `Time`, the
    /// name of a script for `StartupCommand`, and nothing for the commands
    /// that only signal. The codec carries any bytes as they are; what they
    /// mean is for the receiver of the command to say.
    pub data: Vec<u8>,
}

/// A command as a mathematical value.
pub struct CommandView {
    pub command_type: CommandType,
    pub data: Seq<u8>,
}

impl View for Command {
    type V = CommandView;

    open spec fn view(&self) -> CommandView {
        CommandView { command_type: self.command_type, data: self.data@ }
    }
}

impl Clone for Command {
    fn clone(&self) -> (copy: Command)
        ensures
            copy@ == self@,
    {
        Command { command_type: self.command_type, data: self.data.clone() }
    }
}

/// The payload of a command's frame: the tag byte, then the data.
pub open spec fn spec_payload(command: CommandView) -> Seq<u8> {
    seq![command.command_type.tag()] + command.data
}

/// The frame of a command.
pub open spec fn spec_to_bytes(command: CommandView) -> Seq<u8> {
    spec_frame(spec_payload(command))
}

/// The command that a frame's payload stands for.
///
/// A payload without a tag byte is `Malformed`; a tag byte that stands for no
/// command type gives `UnknownType`. What follows the tag byte is the data.
pub open spec fn spec_from_payload(payload: Seq<u8>) -> Result<CommandView, DecodeError> {
    if payload.len() == 0 {
        Err(DecodeError::Malformed)
    } else {
        match CommandType::of_tag(payload[0]) {
            Some(command_type) => Ok(CommandView { command_type, data: payload.skip(1) }),
            None => Err(DecodeError::UnknownType),
        }
    }
}

/// The command carried by the first frame in `bytes`.
pub open spec fn spec_from_bytes(bytes: Seq<u8>) -> Result<CommandView, DecodeError> {
    match spec_unframe(bytes) {
        Ok(payload) => spec_from_payload(payload),
        Err(e) => Err(e),
    }
}

/// The outcome of decoding, as a mathematical value.
pub open spec fn decoded_view(decoded: Result<Command, DecodeError>) -> Result<
    CommandView,
    DecodeError,
> {
    match decoded {
        Ok(command) => Ok(command@),
        Err(e) => Err(e),
    }
}

impl Command {
    /// A command of the given type with the given data.
    pub fn new(command_type: CommandType, data: Vec<u8>) -> (command: Command)
        ensures
            command@ == (CommandView { command_type, data: data@ }),
    {
        Command { command_type, data }
    }

    /// A `Time` command that carries `time`.
    pub fn time(time: Timestamp) -> (command: Command)
        ensures
            command@ == (CommandView {
                command_type: CommandType::Time,
                data: spec_datetime_to_bytes(time),
            }),
    {
        Command::new(CommandType::Time, datetime_to_bytes(time))
    }

    /// A `StartupCommand` that names `command`.
    pub fn startup_command(command: Vec<u8>) -> (startup: Command)
        ensures
            startup@ == (CommandView {
                command_type: CommandType::StartupCommand,
                data: command@,
            }),
    {
        Command::new(CommandType::StartupCommand, command)
    }

    /// A command of the given type without data.
    pub fn simple_command(command_type: CommandType) -> (command: Command)
        ensures
            command@ == (CommandView { command_type, data: Seq::<u8>::empty() }),
    {
        Command::new(command_type, Vec::new())
    }

    /// Encodes the command as a frame.
    ///
    /// The frame's only zero byte is its last byte, and decoding the frame
    /// gives this command back.
    pub fn to_bytes(&self) -> (bytes: Vec<u8>)
        ensures
            bytes@ == spec_to_bytes(self@),
            ends_in_sole_terminator(bytes@),
            spec_from_bytes(bytes@) == Ok::<CommandView, DecodeError>(self@),
    {
        let mut payload: Vec<u8> = Vec::new();
        payload.push(self.command_type.to_byte());
        append_bytes(&mut payload, self.data.as_slice());
        proof {
            assert(payload@ =~= spec_payload(self@));
            lemma_payload_round_trip(self@);
        }
        frame(payload.as_slice())
    }

    /// Reads a command from a frame's payload.
    pub fn from_payload(payload: &[u8]) -> (command: Result<Command, DecodeError>)
        ensures
            decoded_view(command) == spec_from_payload(payload@),
            command == Err::<Command, DecodeError>(DecodeError::Malformed) <==> payload@.len() == 0,
            command == Err::<Command, DecodeError>(DecodeError::UnknownType) <==> payload@.len() > 0
                && payload@[0] >= 8,
    {
        if payload.len() == 0 {
            return Err(DecodeError::Malformed);
        }
        match CommandType::from_byte(payload[0]) {
            Ok(command_type) => Ok(Command::new(command_type, copy_from(payload, 1))),
            Err(e) => Err(e),
        }
    }

    /// Decodes the first frame in `bytes`.
    ///
    /// Fails with `Truncated` where `bytes` holds no terminator, with
    /// `Malformed` where the bytes before it cannot be unstuffed or unstuff
    /// to nothing, and with `UnknownType` where the tag byte is 8 or more.
    pub fn from_bytes(bytes: Vec<u8>) -> (command: Result<Command, DecodeError>)
        ensures
            decoded_view(command) == spec_from_bytes(bytes@),
            command == Err::<Command, DecodeError>(DecodeError::Truncated) <==> !bytes@.contains(
                TERMINATOR,
            ),
            command == Err::<Command, DecodeError>(DecodeError::UnknownType) <==> (spec_unframe(
                bytes@,
            ) matches Ok(payload) && payload.len() > 0 && payload[0] >= 8),
    {
        match unframe(bytes.as_slice()) {
            Ok(payload) => Command::from_payload(payload.as_slice()),
            Err(e) => Err(e),
        }
    }
}

/// A command is read back from its own payload.
pub proof fn lemma_payload_round_trip(command: CommandView)
    ensures
        spec_from_payload(spec_payload(command)) == Ok::<CommandView, DecodeError>(command),
{
    let payload = spec_payload(command);
    CommandType::lemma_tags(command.command_type, payload[0]);
    assert(payload.skip(1) =~= command.data);
}

/// What follows the first terminator plays no part in decoding: the first
/// frame in a stream is decoded alike whatever comes after it.
pub proof fn lemma_from_bytes_stops_at_terminator(bytes: Seq<u8>, rest: Seq<u8>)
    requires
        bytes.contains(TERMINATOR),
    ensures
        spec_from_bytes(bytes + rest) == spec_from_bytes(bytes),
{
    lemma_unframe_stops_at_terminator(bytes, rest);
}

} // verus!
