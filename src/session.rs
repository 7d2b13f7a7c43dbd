use vstd::prelude::*;
use crate::message::{Msg, WindowSize};

verus! {

/// What woke a session's loop.
#[derive(Debug)]
pub enum Wake {
    /// Bytes read from the pseudo-terminal; none means the child has exited.
    PtyRead(Vec<u8>),
    /// A read or write on the pseudo-terminal failed, other than by would-block.
    PtyFailed,
    /// The pseudo-terminal accepted this many bytes of the pending output.
    PtyWrote(usize),
    /// A message drained from the control channel.
    Control(Msg),
    /// Every producer of the control channel is gone.
    ControlClosed,
}

/// What the loop does next.
#[derive(Debug, PartialEq, Eq)]
pub enum Command {
    /// Feed these bytes to the tokenizer, in order.
    Parse(Vec<u8>),
    /// Output is pending: wait for the pseudo-terminal to take more.
    AwaitWritable,
    /// Apply this geometry to the pseudo-terminal and the display buffer
    /// together.
    Resize(WindowSize),
    /// Emit the exit event; the loop has ended.
    Exit,
    /// The loop has ended without an exit event.
    Stop,
    /// Nothing to do.
    Idle,
}

/// The decision state of a session's loop.
pub struct Session {
    pub running: bool,
    /// Bytes queued for the pseudo-terminal, oldest first.
    pub pending: Vec<u8>,
    /// The geometry last applied.
    pub size: WindowSize,
}

/// The command after a change of the pending output: wait for the
/// pseudo-terminal while anything is left.
pub open spec fn output_command(pending: Seq<u8>, r: Command) -> bool {
    if pending.len() == 0 {
        r is Idle
    } else {
        r is AwaitWritable
    }
}

impl Session {
    pub fn new(size: WindowSize) -> (r: Session)
        ensures
            r.running,
            r.pending@ == Seq::<u8>::empty(),
            r.size == size,
    {
        Session { running: true, pending: Vec::new(), size }
    }

    fn idle_command(&self) -> (r: Command)
        ensures
            output_command(self.pending@, r),
    {
        if self.pending.len() == 0 {
            Command::Idle
        } else {
            Command::AwaitWritable
        }
    }

    /// Decides what one wake of the loop does. Once the loop has ended every
    /// wake is ignored.
    pub fn step(&mut self, wake: Wake) -> (r: Command)
        requires
            wake matches Wake::PtyWrote(n) ==> n <= old(self).pending@.len(),
        ensures
            !old(self).running ==> (r is Idle && final(self).running == old(self).running
                && final(self).pending@ == old(self).pending@ && final(self).size == old(
                self,
            ).size),
            old(self).running ==> match wake {
                Wake::PtyRead(b) => if b@.len() == 0 {
                    &&& !final(self).running
                    &&& r is Exit
                    &&& final(self).pending@ == old(self).pending@
                    &&& final(self).size == old(self).size
                } else {
                    &&& final(self).running
                    &&& r matches Command::Parse(p) && p@ == b@
                    &&& final(self).pending@ == old(self).pending@
                    &&& final(self).size == old(self).size
                },
                Wake::PtyFailed => {
                    &&& !final(self).running
                    &&& r is Exit
                    &&& final(self).pending@ == old(self).pending@
                    &&& final(self).size == old(self).size
                },
                Wake::PtyWrote(n) => {
                    &&& final(self).running
                    &&& final(self).pending@ == old(self).pending@.skip(n as int)
                    &&& output_command(final(self).pending@, r)
                    &&& final(self).size == old(self).size
                },
                Wake::Control(Msg::Input(b)) => {
                    &&& final(self).running
                    &&& final(self).pending@ == old(self).pending@ + b@
                    &&& output_command(final(self).pending@, r)
                    &&& final(self).size == old(self).size
                },
                Wake::Control(Msg::Resize(w)) => {
                    &&& final(self).running
                    &&& r == Command::Resize(w)
                    &&& final(self).pending@ == old(self).pending@
                    &&& final(self).size == w
                },
                Wake::Control(Msg::Shutdown) | Wake::ControlClosed => {
                    &&& !final(self).running
                    &&& r is Stop
                    &&& final(self).pending@ == old(self).pending@
                    &&& final(self).size == old(self).size
                },
            },
    {
        if !self.running {
            return Command::Idle;
        }
        match wake {
            Wake::PtyRead(b) => {
                if b.len() == 0 {
                    self.running = false;
                    Command::Exit
                } else {
                    Command::Parse(b)
                }
            },
            Wake::PtyFailed => {
                self.running = false;
                Command::Exit
            },
            Wake::PtyWrote(n) => {
                let rest = self.pending.split_off(n);
                self.pending = rest;
                self.idle_command()
            },
            Wake::Control(Msg::Input(b)) => {
                let mut b = b;
                self.pending.append(&mut b);
                self.idle_command()
            },
            Wake::Control(Msg::Resize(w)) => {
                self.size = w;
                Command::Resize(w)
            },
            Wake::Control(Msg::Shutdown) | Wake::ControlClosed => {
                self.running = false;
                Command::Stop
            },
        }
    }
}

} // verus!
