//! Bookkeeping for MIDI ports: finding a port by its name, and counting
//! the messages that a sink has handed to its writer and not yet seen
//! written.

use vstd::prelude::*;
use vstd::string::StringExecFns;

verus! {

/// What can go wrong with a port, apart from what the driver reports.
#[derive(Debug, Clone, Copy, PartialEq, Eq, Structural)]
pub enum ErrorKind {
    /// No port has the name asked for.
    MidiPortNameNotFound,
    /// The sink has been closed.
    NotConnected,
}

impl ErrorKind {
    /// The error in words.
    pub fn message(&self) -> (r: String)
        ensures
            r@ == match *self {
                ErrorKind::MidiPortNameNotFound => "named MIDI port not found"@,
                ErrorKind::NotConnected => "not connected to a MIDI port"@,
            },
    {
        match self {
            ErrorKind::MidiPortNameNotFound => String::from_str("named MIDI port not found"),
            ErrorKind::NotConnected => String::from_str("not connected to a MIDI port"),
        }
    }
}

/// Whether port `i` is the first of `names` with the name `wanted`.
pub open spec fn spec_first_named(names: Seq<String>, wanted: Seq<char>, i: int) -> bool {
    &&& 0 <= i < names.len()
    &&& names[i]@ == wanted
    &&& forall|j: int| 0 <= j < i ==> names[j]@ != wanted
}

/// Finds the first port named `port_name` among the ports' names.
pub fn find_port(names: &Vec<String>, port_name: &str) -> (r: Result<usize, ErrorKind>)
    ensures
        match r {
            Ok(i) => spec_first_named(names@, port_name@, i as int),
            Err(e) => e == ErrorKind::MidiPortNameNotFound && forall|j: int|
                0 <= j < names@.len() ==> names@[j]@ != port_name@,
        },
{
    let wanted = String::from_str(port_name);
    let n: usize = names.len();
    let mut i: usize = 0;
    while i < n
        invariant
            i <= n,
            n == names@.len(),
            wanted@ == port_name@,
            forall|j: int| 0 <= j < i ==> names@[j]@ != port_name@,
        decreases n - i,
    {
        if names[i] == wanted {
            return Ok(i);
        }
        i = i + 1;
    }
    Err(ErrorKind::MidiPortNameNotFound)
}

/// The account that a sink keeps of its writer: whether the writer can
/// still be reached, and how many messages it has been handed that it has
/// not reported as written.
#[derive(Debug, Clone, Copy, PartialEq, Eq, Structural)]
pub struct SinkLedger {
    pub connected: bool,
    pub pending_count: usize,
}

impl SinkLedger {
    /// The account of a sink that has just been bound.
    pub fn new() -> (r: SinkLedger)
        ensures
            r == (SinkLedger { connected: true, pending_count: 0 }),
    {
        SinkLedger { connected: true, pending_count: 0 }
    }

    /// Records that a message is handed to the writer. A closed sink takes
    /// none.
    pub fn start_send(&mut self) -> (r: Result<(), ErrorKind>)
        requires
            old(self).pending_count < usize::MAX,
        ensures
            old(self).connected ==> r is Ok && *final(self) == (SinkLedger {
                connected: true,
                pending_count: (old(self).pending_count + 1) as usize,
            }),
            !old(self).connected ==> r == Err::<(), ErrorKind>(ErrorKind::NotConnected) && *final(self) == *old(self),
    {
        if self.connected {
            self.pending_count = self.pending_count + 1;
            Ok(())
        } else {
            Err(ErrorKind::NotConnected)
        }
    }

    /// Whether every message handed to the writer has been written.
    pub fn is_flushed(&self) -> (r: bool)
        ensures
            r == (self.pending_count == 0),
    {
        self.pending_count == 0
    }

    /// Records that the writer has reported one message as written.
    /// Returns whether all are written now.
    pub fn acknowledge(&mut self) -> (r: bool)
        ensures
            final(self).connected == old(self).connected,
            final(self).pending_count == if old(self).pending_count > 0 {
                old(self).pending_count - 1
            } else {
                0
            },
            r == (final(self).pending_count == 0),
    {
        if self.pending_count > 0 {
            self.pending_count = self.pending_count - 1;
        }
        self.pending_count == 0
    }

    /// Closes the sink if every message has been written; one that still
    /// waits for its writer stays open. Returns whether it is closed.
    pub fn close(&mut self) -> (r: bool)
        ensures
            final(self).pending_count == old(self).pending_count,
            r == (old(self).pending_count == 0),
            final(self).connected == (old(self).connected && !r),
    {
        if self.pending_count == 0 {
            self.connected = false;
            true
        } else {
            false
        }
    }
}

} // verus!
