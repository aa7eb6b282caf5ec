//! The server around the engine: who is connected, what a connection's loop
//! does on each report of the transport, and to whom a payload goes.
//!
//! The transport itself is not here. The program that owns it reports what
//! happened and carries out what these functions hand back.

use vstd::prelude::*;
use crate::bytes::copy_bytes;
use crate::protocol::MessageHandler;
use crate::registry::{is_snapshot, ClientId, ConnectionRegistry};

verus! {

/// One send of a fan-out: a payload for one connection. Every send owns its
/// handle and its bytes, so that each can be carried out on its own.
pub struct Outbound<H> {
    pub id: ClientId,
    pub handle: H,
    pub payload: Vec<u8>,
}

/// Why a payload could not be sent to a client.
#[derive(Debug, Clone, Copy, PartialEq, Eq, Structural)]
pub enum SendError {
    /// No connection is registered under the id.
    NoConnection(ClientId),
}

/// What the transport reports to the loop of an established connection.
#[derive(Debug, Clone, Copy, PartialEq, Eq, Structural)]
pub enum ConnectionEvent {
    /// The client has opened a stream.
    StreamOpened,
    /// Reading from or writing to a stream has failed.
    StreamFailed,
    /// The connection itself has ended.
    ConnectionEnded,
}

/// What the loop of a connection does next.
#[derive(Debug, Clone, Copy, PartialEq, Eq, Structural)]
pub enum ConnectionStep {
    /// Read the stream and serve it.
    ServeStream,
    /// Wait for the next stream.
    AwaitNext,
    /// Leave the loop: the connection is gone.
    Close,
}

/// The server's shared state: the registry of live connections and the
/// handler of incoming messages.
pub struct QuicServer<H, M> {
    pub connections: ConnectionRegistry<H>,
    pub message_handler: M,
}

/// `plan` sends `data` to every entry of `entries` exactly once, through a
/// clone of the entry's handle, and to nobody else.
pub open spec fn is_fan_out<H: Clone>(
    entries: Map<ClientId, H>,
    data: Seq<u8>,
    plan: Seq<Outbound<H>>,
) -> bool {
    &&& forall|i: int, j: int| 0 <= i < j < plan.len() ==> plan[i].id != plan[j].id
    &&& forall|i: int|
        0 <= i < plan.len() ==> {
            &&& entries.contains_key((#[trigger] plan[i]).id)
            &&& cloned(entries[plan[i].id], plan[i].handle)
            &&& plan[i].payload@ == data
        }
    &&& forall|id: ClientId| #[trigger]
        entries.contains_key(id) ==> exists|i: int| 0 <= i < plan.len() && (#[trigger] plan[i]).id == id
}

/// The registry after a handshake: an established connection is entered
/// under its id, a failed handshake leaves no trace.
pub open spec fn after_handshake<H>(
    entries: Map<ClientId, H>,
    established: Option<(ClientId, H)>,
) -> Map<ClientId, H> {
    match established {
        Some(entry) => entries.insert(entry.0, entry.1),
        None => entries,
    }
}

/// The registry after a report to the loop of connection `id`: only the end
/// of the connection changes it, by removing the entry.
pub open spec fn after_event<H>(
    entries: Map<ClientId, H>,
    id: ClientId,
    event: ConnectionEvent,
) -> Map<ClientId, H> {
    match event {
        ConnectionEvent::ConnectionEnded => entries.remove(id),
        _ => entries,
    }
}

/// What the loop of a connection does on a report.
pub open spec fn step_for(event: ConnectionEvent) -> ConnectionStep {
    match event {
        ConnectionEvent::StreamOpened => ConnectionStep::ServeStream,
        ConnectionEvent::StreamFailed => ConnectionStep::AwaitNext,
        ConnectionEvent::ConnectionEnded => ConnectionStep::Close,
    }
}

impl<H: Clone, M: MessageHandler> QuicServer<H, M> {
    /// A server without connections.
    pub fn new(message_handler: M) -> (server: Self)
        ensures
            server.connections@ == Map::<ClientId, H>::empty(),
            server.message_handler == message_handler,
    {
        QuicServer { connections: ConnectionRegistry::new(), message_handler }
    }

    /// Takes the outcome of a handshake: an established connection is
    /// registered under its id and its loop may start; a failed handshake
    /// changes nothing.
    pub fn handle_connection(&mut self, established: Option<(ClientId, H)>) -> (registered: bool)
        ensures
            registered == (established is Some),
            final(self).message_handler == old(self).message_handler,
            final(self).connections@ == after_handshake(old(self).connections@, established),
    {
        match established {
            Some((id, handle)) => {
                self.connections.insert(id, handle);
                true
            },
            None => false,
        }
    }

    /// One turn of the loop of connection `id`. A stream is served; a failed
    /// stream costs only that stream; the end of the connection removes its
    /// entry and ends the loop.
    pub fn process_connection(&mut self, id: ClientId, event: ConnectionEvent) -> (step:
        ConnectionStep)
        ensures
            final(self).message_handler == old(self).message_handler,
            step == step_for(event),
            final(self).connections@ == after_event(old(self).connections@, id, event),
    {
        match event {
            ConnectionEvent::StreamOpened => ConnectionStep::ServeStream,
            ConnectionEvent::StreamFailed => ConnectionStep::AwaitNext,
            ConnectionEvent::ConnectionEnded => {
                self.connections.remove(id);
                ConnectionStep::Close
            },
        }
    }

    /// A copy of the handle registered under `id`, if there is one.
    pub fn get_connection(&self, id: ClientId) -> (found: Option<H>)
        ensures
            (found is Some) == self.connections@.contains_key(id),
            found is Some ==> cloned(self.connections@[id], found.unwrap()),
    {
        self.connections.get(id)
    }

    /// The send of `data` to the client `id`, or the reason why there is none.
    pub fn send_to(&self, id: ClientId, data: &[u8]) -> (send: Result<Outbound<H>, SendError>)
        ensures
            (send is Ok) == self.connections@.contains_key(id),
            send matches Ok(out) ==> out.id == id && cloned(self.connections@[id], out.handle)
                && out.payload@ == data@,
            send matches Err(e) ==> e == SendError::NoConnection(id),
    {
        match self.connections.get(id) {
            Some(handle) => Ok(Outbound { id, handle, payload: copy_bytes(data) }),
            None => Err(SendError::NoConnection(id)),
        }
    }

    /// The sends that deliver `data` to every registered connection: one for
    /// each, made from a point-in-time copy of the registry.
    pub fn broadcast(&self, data: &[u8]) -> (plan: Vec<Outbound<H>>)
        ensures
            is_fan_out(self.connections@, data@, plan@),
            plan@.len() == self.connections@.dom().len(),
    {
        let mut copy = self.connections.snapshot();
        let ghost all = copy@;
        let mut plan: Vec<Outbound<H>> = Vec::new();
        while copy.len() > 0
            invariant
                is_snapshot(self.connections@, all),
                copy@.len() + plan@.len() == all.len(),
                copy@ == all.take(copy@.len() as int),
                forall|k: int|
                    0 <= k < plan@.len() ==> {
                        &&& (#[trigger] plan@[k]).id == all[all.len() - 1 - k].0
                        &&& plan@[k].handle == all[all.len() - 1 - k].1
                        &&& plan@[k].payload@ == data@
                    },
            decreases copy.len(),
        {
            let ghost rest = copy@.len() - 1;
            match copy.pop() {
                Some((id, handle)) => {
                    assert(all[rest] == (id, handle));
                    plan.push(Outbound { id, handle, payload: copy_bytes(data) });
                },
                None => {},
            }
        }
        proof {
            let n = all.len() as int;
            assert forall|i: int, j: int| 0 <= i < j < plan@.len() implies plan@[i].id
                != plan@[j].id by {
                assert(all[n - 1 - j].0 != all[n - 1 - i].0);
            }
            assert forall|i: int| 0 <= i < plan@.len() implies {
                &&& self.connections@.contains_key((#[trigger] plan@[i]).id)
                &&& cloned(self.connections@[plan@[i].id], plan@[i].handle)
                &&& plan@[i].payload@ == data@
            } by {
                assert(self.connections@.contains_key(all[n - 1 - i].0));
            }
            assert forall|id: ClientId| #[trigger]
                self.connections@.contains_key(id) implies exists|i: int|
                0 <= i < plan@.len() && (#[trigger] plan@[i]).id == id by {
                let k = choose|k: int| 0 <= k < all.len() && (#[trigger] all[k]).0 == id;
                assert(plan@[n - 1 - k].id == id);
            }
        }
        plan
    }
}

/// A connection is registered from its handshake until its end and not
/// after: streams that open or fail in between change nothing, the end
/// removes the entry, and a second report of the end is a no-op. No report
/// to one connection's loop touches another connection's entry.
pub proof fn lemma_entry_lives_as_long_as_connection<H>(
    entries: Map<ClientId, H>,
    id: ClientId,
    handle: H,
    other: ClientId,
    event: ConnectionEvent,
)
    requires
        other != id,
    ensures
        ({
            let open = after_handshake(entries, Some((id, handle)));
            let closed = after_event(open, id, ConnectionEvent::ConnectionEnded);
            &&& open.contains_key(id) && open[id] == handle
            &&& after_event(open, id, ConnectionEvent::StreamOpened) == open
            &&& after_event(open, id, ConnectionEvent::StreamFailed) == open
            &&& !closed.contains_key(id)
            &&& after_event(closed, id, ConnectionEvent::ConnectionEnded) == closed
            &&& after_event(entries, id, event).contains_key(other) == entries.contains_key(other)
            &&& entries.contains_key(other) ==> after_event(entries, id, event)[other]
                == entries[other]
        }),
{
    let open = after_handshake(entries, Some((id, handle)));
    let closed = after_event(open, id, ConnectionEvent::ConnectionEnded);
    assert(closed.remove(id) =~= closed);
}

} // verus!
