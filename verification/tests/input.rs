use quic_game::bytes::{append_bytes, copy_bytes, same_bytes, same_text};
use quic_game::game::InputCommand;
use quic_game::input::{acknowledgement, decode_command, InputChannel};
use quic_game::protocol::MessageHandler;

const ALL: [InputCommand; 5] = [
    InputCommand::MoveLeft,
    InputCommand::MoveRight,
    InputCommand::Idle,
    InputCommand::Restart,
    InputCommand::Exit,
];

#[test]
fn every_command_has_its_word() {
    assert_eq!(InputCommand::MoveLeft.token(), "MoveLeft");
    assert_eq!(InputCommand::MoveRight.token(), "MoveRight");
    assert_eq!(InputCommand::Idle.token(), "None");
    assert_eq!(InputCommand::Restart.token(), "Restart");
    assert_eq!(InputCommand::Exit.token(), "Exit");
    assert_eq!(InputCommand::Restart.encode(), b"Restart".to_vec());
}

#[test]
fn decoding_inverts_encoding() {
    for cmd in ALL {
        assert_eq!(decode_command(&cmd.encode()), Some(cmd));
        assert_eq!(decode_command(cmd.token().as_bytes()), Some(cmd));
    }
}

#[test]
fn only_the_exact_words_are_commands() {
    assert_eq!(decode_command(b"MoveLeft"), Some(InputCommand::MoveLeft));
    assert_eq!(decode_command(b"None"), Some(InputCommand::Idle));
    assert_eq!(decode_command(b""), None);
    assert_eq!(decode_command(b"moveleft"), None);
    assert_eq!(decode_command(b"MoveLeft "), None);
    assert_eq!(decode_command(b"MoveLef"), None);
    assert_eq!(decode_command(b"Idle"), None);
    assert_eq!(decode_command(&[0xff, 0xfe]), None);
}

#[test]
fn the_mailbox_starts_empty() {
    assert_eq!(InputChannel::new().get(), None);
}

#[test]
fn the_last_of_two_writes_is_what_a_read_sees() {
    let mut inputs = InputChannel::new();
    inputs.set(Some(InputCommand::MoveLeft));
    inputs.set(Some(InputCommand::MoveRight));
    assert_eq!(inputs.get(), Some(InputCommand::MoveRight));
    inputs.set(Some(InputCommand::Exit));
    inputs.set(None);
    assert_eq!(inputs.get(), None);
}

#[test]
fn a_read_does_not_clear_the_mailbox() {
    let mut inputs = InputChannel::new();
    inputs.set(Some(InputCommand::Restart));
    assert_eq!(inputs.get(), Some(InputCommand::Restart));
    assert_eq!(inputs.get(), Some(InputCommand::Restart));
}

#[test]
fn a_text_message_overwrites_the_mailbox() {
    let mut inputs = InputChannel::new();
    inputs.receive(b"MoveLeft");
    assert_eq!(inputs.get(), Some(InputCommand::MoveLeft));
    inputs.receive(b"Exit");
    assert_eq!(inputs.get(), Some(InputCommand::Exit));
    inputs.receive(b"what?");
    assert_eq!(inputs.get(), None);
    inputs.receive(b"Restart");
    inputs.receive(b"");
    assert_eq!(inputs.get(), None);
    inputs.receive("None".as_bytes());
    assert_eq!(inputs.get(), Some(InputCommand::Idle));
    inputs.receive("gr\u{fc}n".as_bytes());
    assert_eq!(inputs.get(), None);
}

#[test]
fn bytes_that_are_no_text_leave_the_mailbox_alone() {
    let mut inputs = InputChannel::new();
    inputs.receive(b"MoveRight");
    inputs.receive(&[0xff, 0xfe, 0x00]);
    assert_eq!(inputs.get(), Some(InputCommand::MoveRight));
    inputs.receive(&[b'E', b'x', b'i', b't', 0x80]);
    assert_eq!(inputs.get(), Some(InputCommand::MoveRight));
    inputs.receive(&[0xc3]);
    assert_eq!(inputs.get(), Some(InputCommand::MoveRight));
}

#[test]
fn the_mailbox_answers_every_message_with_nothing() {
    let mut inputs = InputChannel::new();
    assert_eq!(inputs.handle(b"MoveLeft"), Vec::<u8>::new());
    assert_eq!(inputs.get(), Some(InputCommand::MoveLeft));
    assert_eq!(inputs.handle(&[0xff]), Vec::<u8>::new());
    assert_eq!(inputs.get(), Some(InputCommand::MoveLeft));
}

#[test]
fn text_is_acknowledged_by_an_echo() {
    assert_eq!(acknowledgement(b"MoveLeft"), b"Server processed: MoveLeft".to_vec());
    assert_eq!(acknowledgement(b""), b"Server processed: ".to_vec());
    assert_eq!(
        acknowledgement("gr\u{fc}n".as_bytes()),
        "Server processed: gr\u{fc}n".as_bytes().to_vec()
    );
}

#[test]
fn other_bytes_are_acknowledged_behind_a_one() {
    assert_eq!(acknowledgement(&[0xff, 0x10]), vec![0x01, 0xff, 0x10]);
    assert_eq!(acknowledgement(&[b'a', 0x80]), vec![0x01, b'a', 0x80]);
}

#[test]
fn byte_strings_compare_copy_and_append() {
    assert!(same_bytes(b"", b""));
    assert!(same_bytes(b"abc", b"abc"));
    assert!(!same_bytes(b"abc", b"abd"));
    assert!(!same_bytes(b"abc", b"ab"));
    assert!(!same_bytes(b"", b"a"));
    assert!(same_text("gr\u{fc}n", "gr\u{fc}n"));
    assert!(!same_text("gr\u{fc}n", "grun"));
    assert!(same_text("", ""));
    assert_eq!(copy_bytes(b"xyz"), b"xyz".to_vec());
    let mut out = b"ab".to_vec();
    append_bytes(&mut out, b"cd");
    append_bytes(&mut out, b"");
    assert_eq!(out, b"abcd".to_vec());
}
