use vstd::prelude::*;
use mio_extras::channel::Sender;
use crate::message::{Msg, WindowSize};

verus! {

/// The sending half of a `mio_extras` channel, carried as an opaque value.
#[verifier::external_type_specification]
#[verifier::external_body]
#[verifier::reject_recursive_types(T)]
pub struct ExSender<T>(Sender<T>);

/// Relies on `mio_extras::channel::Sender::send`: queues `msg` on the channel
/// and wakes its receiver without blocking. Its errors are dropped: either the
/// receiver is gone and the session has ended, or waking the receiver failed
/// after the message was queued. Empty input is never handed to it, as it
/// would stall the session.
#[verifier::external_body]
fn send_msg(tx: &Sender<Msg>, msg: Msg)
    requires
        msg matches Msg::Input(b) ==> b@.len() > 0,
{
    let _ = tx.send(msg);
}

/// The message that input bytes become on the control channel: none for an
/// empty buffer, which would stall the session.
pub fn input_message(bytes: Vec<u8>) -> (r: Option<Msg>)
    ensures
        bytes@.len() == 0 <==> r is None,
        bytes@.len() != 0 ==> (r matches Some(Msg::Input(b)) && b@ == bytes@),
{
    if bytes.len() == 0 {
        None
    } else {
        Some(Msg::Input(bytes))
    }
}

/// The message that a new window geometry becomes on the control channel.
pub fn resize_message(window_size: WindowSize) -> (r: Msg)
    ensures
        r == Msg::Resize(window_size),
{
    Msg::Resize(window_size)
}

/// Byte sequences are sent to a `Notify` in response to some events.
pub trait Notify {
    /// Queues bytes to be written to the pseudo-terminal; says whether a
    /// message was queued.
    fn notify(&self, bytes: Vec<u8>) -> (queued: bool)
        ensures
            queued == (bytes@.len() > 0),
    ;
}

/// Told of a new window geometry.
pub trait OnResize {
    /// The geometry messages sent so far, in order.
    spec fn sent(&self) -> Seq<Msg>;

    /// Sends a `Resize` with the new geometry.
    fn on_resize(&mut self, window_size: WindowSize)
        ensures
            final(self).sent() == old(self).sent().push(Msg::Resize(window_size)),
    ;
}

/// Producer handle of a session's control channel.
pub struct Notifier {
    tx: Sender<Msg>,
    resizes: Ghost<Seq<Msg>>,
}

impl Notifier {
    /// A handle that sends on `tx`.
    pub fn new(tx: Sender<Msg>) -> (r: Notifier)
        ensures
            r.sent() == Seq::<Msg>::empty(),
    {
        Notifier { tx, resizes: Ghost(Seq::empty()) }
    }
}

impl Notify for Notifier {
    fn notify(&self, bytes: Vec<u8>) -> (queued: bool) {
        match input_message(bytes) {
            Some(msg) => {
                send_msg(&self.tx, msg);
                true
            },
            None => false,
        }
    }
}

impl OnResize for Notifier {
    closed spec fn sent(&self) -> Seq<Msg> {
        self.resizes@
    }

    fn on_resize(&mut self, window_size: WindowSize) {
        let msg = resize_message(window_size);
        let ghost handed = msg;
        send_msg(&self.tx, msg);
        self.resizes = Ghost(self.resizes@.push(handed));
    }
}

} // verus!
