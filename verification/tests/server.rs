use quic_game::game::InputCommand;
use quic_game::input::InputChannel;
use quic_game::protocol::{handle_stream, MessageHandler, MAX_MESSAGE};
use quic_game::quic_server::{ConnectionEvent, ConnectionStep, QuicServer, SendError};
use quic_game::registry::ConnectionRegistry;

struct Echo {
    calls: usize,
}

impl MessageHandler for Echo {
    fn handle(&mut self, data: &[u8]) -> Vec<u8> {
        self.calls += 1;
        data.iter().rev().copied().collect()
    }
}

fn server_with(ids: &[u64]) -> QuicServer<String, InputChannel> {
    let mut server = QuicServer::new(InputChannel::new());
    for id in ids {
        assert!(server.handle_connection(Some((*id, format!("handle-{}", id)))));
    }
    server
}

#[test]
fn a_registry_keeps_what_is_inserted() {
    let mut registry: ConnectionRegistry<String> = ConnectionRegistry::new();
    assert_eq!(registry.len(), 0);
    assert!(registry.ids().is_empty());
    assert!(registry.snapshot().is_empty());
    assert_eq!(registry.insert(7, "a".to_string()), None);
    assert_eq!(registry.insert(9, "b".to_string()), None);
    assert_eq!(registry.len(), 2);
    assert!(registry.contains(7) && registry.contains(9) && !registry.contains(8));
    assert_eq!(registry.get(7), Some("a".to_string()));
    assert_eq!(registry.get(8), None);
    let mut ids = registry.ids();
    ids.sort();
    assert_eq!(ids, vec![7, 9]);
}

#[test]
fn inserting_under_a_known_id_replaces_the_handle() {
    let mut registry: ConnectionRegistry<String> = ConnectionRegistry::new();
    registry.insert(7, "old".to_string());
    assert_eq!(registry.insert(7, "new".to_string()), Some("old".to_string()));
    assert_eq!(registry.len(), 1);
    assert_eq!(registry.get(7), Some("new".to_string()));
}

#[test]
fn removing_twice_is_removing_once() {
    let mut registry: ConnectionRegistry<String> = ConnectionRegistry::new();
    registry.insert(1, "a".to_string());
    registry.insert(2, "b".to_string());
    assert_eq!(registry.remove(1), Some("a".to_string()));
    assert_eq!(registry.len(), 1);
    assert_eq!(registry.remove(1), None);
    assert_eq!(registry.remove(1), None);
    assert_eq!(registry.len(), 1);
    assert_eq!(registry.get(2), Some("b".to_string()));
    assert_eq!(registry.remove(99), None);
    assert_eq!(registry.ids(), vec![2]);
}

#[test]
fn a_snapshot_holds_every_entry_once_and_outlives_changes() {
    let mut registry: ConnectionRegistry<String> = ConnectionRegistry::new();
    for id in [5u64, 3, 8, 1] {
        registry.insert(id, format!("h{}", id));
    }
    let mut copy = registry.snapshot();
    registry.remove(3);
    registry.insert(10, "late".to_string());
    copy.sort();
    assert_eq!(
        copy,
        vec![
            (1, "h1".to_string()),
            (3, "h3".to_string()),
            (5, "h5".to_string()),
            (8, "h8".to_string()),
        ]
    );
}

#[test]
fn an_established_connection_is_registered_and_a_failed_handshake_is_not() {
    let mut server: QuicServer<String, InputChannel> = QuicServer::new(InputChannel::new());
    assert!(!server.handle_connection(None));
    assert_eq!(server.connections.len(), 0);
    assert!(server.handle_connection(Some((4, "four".to_string()))));
    assert_eq!(server.connections.len(), 1);
    assert_eq!(server.get_connection(4), Some("four".to_string()));
    assert_eq!(server.get_connection(5), None);
}

#[test]
fn only_the_end_of_a_connection_removes_it() {
    let mut server = server_with(&[1, 2]);
    assert_eq!(
        server.process_connection(1, ConnectionEvent::StreamOpened),
        ConnectionStep::ServeStream
    );
    assert_eq!(
        server.process_connection(1, ConnectionEvent::StreamFailed),
        ConnectionStep::AwaitNext
    );
    assert_eq!(server.connections.len(), 2);
    assert_eq!(
        server.process_connection(1, ConnectionEvent::ConnectionEnded),
        ConnectionStep::Close
    );
    assert_eq!(server.connections.ids(), vec![2]);
    assert_eq!(
        server.process_connection(1, ConnectionEvent::ConnectionEnded),
        ConnectionStep::Close
    );
    assert_eq!(server.connections.ids(), vec![2]);
}

#[test]
fn a_payload_goes_to_a_registered_client_only() {
    let server = server_with(&[11, 12]);
    match server.send_to(12, b"state") {
        Ok(out) => {
            assert_eq!(out.id, 12);
            assert_eq!(out.handle, "handle-12");
            assert_eq!(out.payload, b"state".to_vec());
        }
        Err(_) => panic!("client 12 is registered"),
    }
    match server.send_to(13, b"state") {
        Ok(_) => panic!("client 13 is not registered"),
        Err(e) => assert_eq!(e, SendError::NoConnection(13)),
    }
}

#[test]
fn a_broadcast_has_one_send_for_every_connection() {
    let server = server_with(&[3, 1, 2, 40]);
    let mut plan = server.broadcast(b"{\"tick\":1}");
    assert_eq!(plan.len(), 4);
    plan.sort_by_key(|out| out.id);
    let ids: Vec<u64> = plan.iter().map(|out| out.id).collect();
    assert_eq!(ids, vec![1, 2, 3, 40]);
    for out in &plan {
        assert_eq!(out.handle, format!("handle-{}", out.id));
        assert_eq!(out.payload, b"{\"tick\":1}".to_vec());
    }
}

#[test]
fn a_broadcast_without_connections_sends_nothing() {
    let server = server_with(&[]);
    assert!(server.broadcast(b"state").is_empty());
}

#[test]
fn a_send_failure_leaves_the_other_sends_and_the_registry_alone() {
    let server = server_with(&[1, 2, 3]);
    let plan = server.broadcast(b"state");
    let delivered: Vec<u64> = plan.into_iter().filter(|out| out.id != 2).map(|out| out.id).collect();
    assert_eq!(delivered.len(), 2);
    assert_eq!(server.connections.len(), 3);
    assert!(server.connections.contains(2));
}

#[test]
fn a_message_goes_to_the_handler_and_its_reply_comes_back() {
    let mut echo = Echo { calls: 0 };
    let mut buffer = vec![0u8; MAX_MESSAGE];
    buffer[..3].copy_from_slice(b"abc");
    assert_eq!(handle_stream(&mut echo, &buffer, Some(3)), Some(b"cba".to_vec()));
    assert_eq!(handle_stream(&mut echo, &buffer, Some(1)), Some(b"a".to_vec()));
    assert_eq!(echo.calls, 2);
    assert_eq!(MAX_MESSAGE, 1024);
}

#[test]
fn a_stream_without_data_is_no_message() {
    let mut echo = Echo { calls: 0 };
    let buffer = vec![7u8; 16];
    assert_eq!(handle_stream(&mut echo, &buffer, None), None);
    assert_eq!(handle_stream(&mut echo, &buffer, Some(0)), None);
    assert_eq!(echo.calls, 0);
}

#[test]
fn a_full_buffer_is_one_message() {
    let mut echo = Echo { calls: 0 };
    let buffer = vec![9u8; MAX_MESSAGE];
    assert_eq!(handle_stream(&mut echo, &buffer, Some(MAX_MESSAGE)), Some(vec![9u8; MAX_MESSAGE]));
}

#[test]
fn a_command_on_a_stream_reaches_the_mailbox_without_a_reply() {
    let mut server = server_with(&[1]);
    let mut buffer = vec![0u8; MAX_MESSAGE];
    buffer[..9].copy_from_slice(b"MoveRight");
    let reply = handle_stream(&mut server.message_handler, &buffer, Some(9));
    assert_eq!(reply, Some(Vec::new()));
    assert_eq!(server.message_handler.get(), Some(InputCommand::MoveRight));
    let reply = handle_stream(&mut server.message_handler, &buffer, None);
    assert_eq!(reply, None);
    assert_eq!(server.message_handler.get(), Some(InputCommand::MoveRight));
}
