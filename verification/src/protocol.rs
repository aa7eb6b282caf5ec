//! The stream protocol: one message is one stream.
//!
//! The server reads a bounded message from a fresh stream, hands it to the
//! message handler, writes the handler's reply and closes the stream. Reading
//! and writing are the transport's; what is handed to the handler and what
//! is written back is decided here.

use vstd::prelude::*;
use vstd::slice::slice_subrange;

verus! {

/// The most bytes that are read from one stream.
pub const MAX_MESSAGE: usize = 1024;

/// Given the bytes of a message, produce the bytes of the reply.
///
/// An implementation may say with `answers` how the handler's state and
/// its reply follow from the message, and then proves that `handle` does so.
/// One that does not say it promises nothing.
pub trait MessageHandler: Sized {
    /// `after` and `reply` are what handling `data` in state `self` gives.
    open spec fn answers(&self, data: Seq<u8>, after: &Self, reply: Seq<u8>) -> bool {
        true
    }

    /// Handles one message.
    fn handle(&mut self, data: &[u8]) -> (reply: Vec<u8>)
        ensures
            old(self).answers(data@, final(self), reply@),
    ;
}

/// The message that a read has brought, if any: the first `n` bytes of the
/// buffer after a read of `n` bytes. A stream that ended before any data,
/// and a read of no bytes, bring no message.
pub open spec fn message_of(buffer: Seq<u8>, read: Option<usize>) -> Option<Seq<u8>> {
    match read {
        Some(n) => if n > 0 {
            Some(buffer.take(n as int))
        } else {
            None
        },
        None => None,
    }
}

/// Serves one stream after its read: a message goes to the handler, whose
/// reply, also an empty one, is to be written before the stream is closed;
/// without a message the handler is not asked and nothing is written.
pub fn handle_stream<M: MessageHandler>(handler: &mut M, buffer: &[u8], read: Option<usize>) -> (reply:
    Option<Vec<u8>>)
    requires
        read matches Some(n) ==> n <= buffer@.len(),
    ensures
        match message_of(buffer@, read) {
            Some(data) => reply is Some && old(handler).answers(
                data,
                final(handler),
                reply.unwrap()@,
            ),
            None => reply is None && *final(handler) == *old(handler),
        },
{
    match read {
        Some(n) => {
            if n > 0 {
                let data = slice_subrange(buffer, 0, n);
                assert(data@ =~= buffer@.take(n as int));
                Some(handler.handle(data))
            } else {
                None
            }
        },
        None => None,
    }
}

} // verus!
