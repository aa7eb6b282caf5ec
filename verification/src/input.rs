//! The input mailbox: a single slot that holds the last command received.
//!
//! Writers overwrite the slot; the engine reads it once per tick without
//! clearing it, so a command stays in effect until another one arrives.

use vstd::prelude::*;
use vstd::utf8::{encode_utf8, encode_utf8_decode_utf8, encode_utf8_valid_utf8, valid_utf8};
use crate::bytes::{append_bytes, copy_bytes, same_bytes};
use crate::game::InputCommand;
use crate::protocol::MessageHandler;

verus! {

/// The last-write-wins mailbox between the streams and the engine.
///
/// The slot holds `None` until a first text message arrives, and after any
/// text that is no command.
#[derive(Debug)]
pub struct InputChannel {
    latest: Option<InputCommand>,
}

impl View for InputChannel {
    type V = Option<InputCommand>;

    closed spec fn view(&self) -> Option<InputCommand> {
        self.latest
    }
}

impl InputChannel {
    /// An empty mailbox.
    pub fn new() -> (channel: InputChannel)
        ensures
            channel@ is None,
    {
        InputChannel { latest: None }
    }

    /// Overwrites the slot, whatever it held.
    pub fn set(&mut self, sample: Option<InputCommand>)
        ensures
            final(self)@ == written(old(self)@, sample),
    {
        self.latest = sample;
    }

    /// The slot's content. Reading does not clear it.
    pub fn get(&self) -> (sample: Option<InputCommand>)
        ensures
            sample == self@,
    {
        self.latest
    }
}

/// The word that stands for a command on the wire.
pub open spec fn token_text(cmd: InputCommand) -> Seq<char> {
    match cmd {
        InputCommand::MoveLeft => "MoveLeft"@,
        InputCommand::MoveRight => "MoveRight"@,
        InputCommand::Idle => "None"@,
        InputCommand::Restart => "Restart"@,
        InputCommand::Exit => "Exit"@,
    }
}

/// The payload of a stream that carries `cmd`: its word in UTF-8.
pub open spec fn wire_token(cmd: InputCommand) -> Seq<u8> {
    encode_utf8(token_text(cmd))
}

/// The command that a payload stands for: the one whose word it is, if any.
pub open spec fn decode_spec(data: Seq<u8>) -> Option<InputCommand> {
    if data == wire_token(InputCommand::MoveLeft) {
        Some(InputCommand::MoveLeft)
    } else if data == wire_token(InputCommand::MoveRight) {
        Some(InputCommand::MoveRight)
    } else if data == wire_token(InputCommand::Idle) {
        Some(InputCommand::Idle)
    } else if data == wire_token(InputCommand::Restart) {
        Some(InputCommand::Restart)
    } else if data == wire_token(InputCommand::Exit) {
        Some(InputCommand::Exit)
    } else {
        None
    }
}

/// The mailbox after a message: text overwrites the slot with what it
/// decodes to, anything else leaves the slot alone.
pub open spec fn received(slot: Option<InputCommand>, data: Seq<u8>) -> Option<InputCommand> {
    if valid_utf8(data) {
        decode_spec(data)
    } else {
        slot
    }
}

/// The first words of the acknowledgement of a text message.
pub open spec fn ack_prefix() -> Seq<u8> {
    encode_utf8("Server processed: "@)
}

/// The acknowledgement of a message: text is echoed behind
/// [`ack_prefix`], anything else behind a single byte 1.
pub open spec fn ack_spec(data: Seq<u8>) -> Seq<u8> {
    if valid_utf8(data) {
        ack_prefix() + data
    } else {
        seq![1u8] + data
    }
}

/// Is `data` text? Decided by `std::str::from_utf8`, which accepts exactly
/// the byte strings that are well-formed UTF-8.
#[verifier::external_body]
fn is_text(data: &[u8]) -> (text: bool)
    ensures
        text == valid_utf8(data@),
{
    std::str::from_utf8(data).is_ok()
}

impl InputCommand {
    /// The word that stands for the command on the wire.
    pub fn token(&self) -> (word: &'static str)
        ensures
            word@ == token_text(*self),
    {
        match self {
            InputCommand::MoveLeft => "MoveLeft",
            InputCommand::MoveRight => "MoveRight",
            InputCommand::Idle => "None",
            InputCommand::Restart => "Restart",
            InputCommand::Exit => "Exit",
        }
    }

    /// The payload of a stream that carries the command.
    pub fn encode(&self) -> (payload: Vec<u8>)
        ensures
            payload@ == wire_token(*self),
    {
        copy_bytes(self.token().as_bytes())
    }
}

/// The command that a payload stands for.
pub fn decode_command(data: &[u8]) -> (cmd: Option<InputCommand>)
    ensures
        cmd == decode_spec(data@),
{
    if same_bytes(data, InputCommand::MoveLeft.token().as_bytes()) {
        Some(InputCommand::MoveLeft)
    } else if same_bytes(data, InputCommand::MoveRight.token().as_bytes()) {
        Some(InputCommand::MoveRight)
    } else if same_bytes(data, InputCommand::Idle.token().as_bytes()) {
        Some(InputCommand::Idle)
    } else if same_bytes(data, InputCommand::Restart.token().as_bytes()) {
        Some(InputCommand::Restart)
    } else if same_bytes(data, InputCommand::Exit.token().as_bytes()) {
        Some(InputCommand::Exit)
    } else {
        None
    }
}

/// The acknowledgement of a message.
pub fn acknowledgement(data: &[u8]) -> (ack: Vec<u8>)
    ensures
        ack@ == ack_spec(data@),
{
    let mut ack: Vec<u8> = Vec::new();
    if is_text(data) {
        append_bytes(&mut ack, "Server processed: ".as_bytes());
    } else {
        ack.push(1u8);
    }
    append_bytes(&mut ack, data);
    ack
}

impl InputChannel {
    /// Takes a message from a stream: text overwrites the slot, also text
    /// that is no command; bytes that are no text leave it alone.
    pub fn receive(&mut self, data: &[u8])
        ensures
            final(self)@ == received(old(self)@, data@),
    {
        if is_text(data) {
            self.set(decode_command(data));
        }
    }
}

/// The mailbox as the server's message handler: it takes the message and
/// answers with nothing, so the stream is closed without a reply.
impl MessageHandler for InputChannel {
    open spec fn answers(&self, data: Seq<u8>, after: &Self, reply: Seq<u8>) -> bool {
        after@ == received(self@, data) && reply == Seq::<u8>::empty()
    }

    fn handle(&mut self, data: &[u8]) -> (reply: Vec<u8>) {
        self.receive(data);
        Vec::new()
    }
}

/// The slot after a write: the sample written, whatever the slot held.
pub open spec fn written(slot: Option<InputCommand>, sample: Option<InputCommand>) -> Option<
    InputCommand,
> {
    sample
}

/// Of two writes before a read, the read sees the second and nothing of the
/// first.
pub proof fn lemma_last_write_wins(
    slot: Option<InputCommand>,
    first: Option<InputCommand>,
    second: Option<InputCommand>,
)
    ensures
        written(written(slot, first), second) == second,
        written(written(slot, first), second) == written(slot, second),
{
}

/// A command's payload is text and decodes to the command, so a mailbox
/// that receives it holds the command afterwards.
pub proof fn lemma_decode_inverts_encode(cmd: InputCommand, slot: Option<InputCommand>)
    ensures
        valid_utf8(wire_token(cmd)),
        decode_spec(wire_token(cmd)) == Some(cmd),
        received(slot, wire_token(cmd)) == Some(cmd),
{
    reveal_strlit("MoveLeft");
    reveal_strlit("MoveRight");
    reveal_strlit("None");
    reveal_strlit("Restart");
    reveal_strlit("Exit");
    encode_utf8_decode_utf8(token_text(InputCommand::MoveLeft));
    encode_utf8_decode_utf8(token_text(InputCommand::MoveRight));
    encode_utf8_decode_utf8(token_text(InputCommand::Idle));
    encode_utf8_decode_utf8(token_text(InputCommand::Restart));
    encode_utf8_decode_utf8(token_text(InputCommand::Exit));
    encode_utf8_valid_utf8(token_text(cmd));
    assert(token_text(InputCommand::Idle)[0] != token_text(InputCommand::Exit)[0]);
}

} // verus!
