//! The state of the bridging service.
//!
//! The service runs two forwarding loops, one from MIDI to OSC and one from
//! OSC to MIDI, under one stop signal. What the loops wait for (a MIDI
//! message, a datagram, the signal) is the caller's business; what they do
//! with what arrives is decided here.

use vstd::prelude::*;
use vstd::slice::{slice_subrange, slice_to_vec};

use crate::message::MidiEvent;
use crate::translator::{spec_packet_to_midi, OscPacket, ServerTranslationSet, Translator};

verus! {

/// Where the service stands between creation and the end of its loops.
#[derive(Debug, Clone, Copy, PartialEq, Eq, Structural)]
pub enum ServiceState {
    /// Created; nothing is bound or running.
    Idle,
    /// The loops are running.
    Running,
    /// The stop signal is raised and loops are still running.
    Stopping,
    /// Every loop has ended.
    Stopped,
}

/// The state of a service together with the number of its loops that have
/// not ended.
#[derive(Debug, Clone, Copy, PartialEq, Eq, Structural)]
pub struct Lifecycle {
    pub state: ServiceState,
    pub loops: usize,
}

/// What is valid of a lifecycle at any time: loops run exactly while the
/// service is running or stopping.
pub open spec fn spec_wf(l: Lifecycle) -> bool {
    match l.state {
        ServiceState::Idle => l.loops == 0,
        ServiceState::Running => l.loops > 0,
        ServiceState::Stopping => l.loops > 0,
        ServiceState::Stopped => l.loops == 0,
    }
}

/// Starting `loops` loops: an idle service runs them. A service in any
/// other state, or a start of no loop, changes nothing.
pub open spec fn spec_start(l: Lifecycle, loops: usize) -> Lifecycle {
    if l.state == ServiceState::Idle && loops > 0 {
        Lifecycle { state: ServiceState::Running, loops }
    } else {
        l
    }
}

/// Whether a stop in state `l` has to raise the stop signal: only a
/// running service has loops that wait for it and have not been told.
pub open spec fn spec_stop_raises(l: Lifecycle) -> bool {
    l.state == ServiceState::Running
}

/// Stopping: a running service is stopping from then on. A service in any
/// other state stays as it is.
pub open spec fn spec_stop(l: Lifecycle) -> Lifecycle {
    if l.state == ServiceState::Running {
        Lifecycle { state: ServiceState::Stopping, loops: l.loops }
    } else {
        l
    }
}

/// The end of one loop: with the last loop the service is stopped.
pub open spec fn spec_loop_ended(l: Lifecycle) -> Lifecycle {
    if l.state == ServiceState::Running || l.state == ServiceState::Stopping {
        if l.loops <= 1 {
            Lifecycle { state: ServiceState::Stopped, loops: 0 }
        } else {
            Lifecycle { state: l.state, loops: (l.loops - 1) as usize }
        }
    } else {
        l
    }
}

impl Lifecycle {
    /// The lifecycle of a service that has just been created.
    pub fn new() -> (r: Lifecycle)
        ensures
            r == (Lifecycle { state: ServiceState::Idle, loops: 0 }),
            spec_wf(r),
    {
        Lifecycle { state: ServiceState::Idle, loops: 0 }
    }

    /// Records that `loops` loops have been started. Returns whether the
    /// service went from idle to running.
    pub fn start(&mut self, loops: usize) -> (r: bool)
        ensures
            *final(self) == spec_start(*old(self), loops),
            r == (old(self).state == ServiceState::Idle && loops > 0),
            spec_wf(*old(self)) ==> spec_wf(*final(self)),
    {
        if self.state == ServiceState::Idle && loops > 0 {
            self.state = ServiceState::Running;
            self.loops = loops;
            true
        } else {
            false
        }
    }

    /// Records a request to stop. Returns whether the stop signal is to be
    /// raised now: it is raised once, by the first stop of a running
    /// service, and by no other.
    pub fn stop(&mut self) -> (r: bool)
        ensures
            *final(self) == spec_stop(*old(self)),
            r == spec_stop_raises(*old(self)),
            spec_wf(*old(self)) ==> spec_wf(*final(self)),
    {
        if self.state == ServiceState::Running {
            self.state = ServiceState::Stopping;
            true
        } else {
            false
        }
    }

    /// Records that one loop has ended. Returns whether the service is
    /// stopped.
    pub fn loop_ended(&mut self) -> (r: bool)
        ensures
            *final(self) == spec_loop_ended(*old(self)),
            r == (final(self).state == ServiceState::Stopped),
            spec_wf(*old(self)) ==> spec_wf(*final(self)),
    {
        if self.state == ServiceState::Running || self.state == ServiceState::Stopping {
            if self.loops <= 1 {
                self.state = ServiceState::Stopped;
                self.loops = 0;
            } else {
                self.loops = self.loops - 1;
            }
        }
        self.state == ServiceState::Stopped
    }

    /// Whether a caller of stop still has loops to wait for.
    pub fn must_wait(&self) -> (r: bool)
        ensures
            r == (self.loops > 0),
    {
        self.loops > 0
    }
}

/// A second stop changes nothing and raises nothing.
pub proof fn lemma_stop_is_idempotent(l: Lifecycle)
    ensures
        spec_stop(spec_stop(l)) == spec_stop(l),
        !spec_stop_raises(spec_stop(l)),
{
}

/// The state after `n` loops have ended.
pub open spec fn spec_loops_ended(l: Lifecycle, n: nat) -> Lifecycle
    decreases n,
{
    if n == 0 {
        l
    } else {
        spec_loop_ended(spec_loops_ended(l, (n - 1) as nat))
    }
}

/// A service that is stopped right after its start is stopped for good as
/// soon as each of its loops has ended, whether traffic came or not: no
/// loop is waited for that does not exist, and none is forgotten.
pub proof fn lemma_stop_completes(loops: usize)
    requires
        loops > 0,
    ensures
        spec_loops_ended(
            spec_stop(spec_start(Lifecycle { state: ServiceState::Idle, loops: 0 }, loops)),
            loops as nat,
        ) == (Lifecycle { state: ServiceState::Stopped, loops: 0 }),
{
    let l = spec_stop(spec_start(Lifecycle { state: ServiceState::Idle, loops: 0 }, loops));
    lemma_loops_count_down(l, loops as nat);
}

/// While loops remain, each end of a loop takes one from their number.
proof fn lemma_loops_count_down(l: Lifecycle, n: nat)
    requires
        l.state == ServiceState::Stopping,
        0 < n <= l.loops,
    ensures
        n < l.loops ==> spec_loops_ended(l, n) == (Lifecycle {
            state: ServiceState::Stopping,
            loops: (l.loops - n) as usize,
        }),
        n == l.loops ==> spec_loops_ended(l, n) == (Lifecycle {
            state: ServiceState::Stopped,
            loops: 0,
        }),
    decreases n,
{
    if n > 1 {
        lemma_loops_count_down(l, (n - 1) as nat);
    } else {
        assert(spec_loops_ended(l, 0) == l);
    }
}

/// Room of the buffer that datagrams are received into.
pub const BUFFER_SIZE: usize = 16384;

/// The bytes left over from the datagrams received so far: what stood
/// behind the last packet that could be read.
pub struct OscInbox {
    carry: Vec<u8>,
}

/// What became of the bytes that were received.
#[derive(Debug, PartialEq, Eq)]
pub enum OscReceived {
    /// A packet was read from the front; `remainder` bytes stand behind it.
    Packet { packet: OscPacket, remainder: usize },
    /// No packet could be read.
    Malformed,
}

impl OscInbox {
    /// The bytes carried over.
    pub closed spec fn carry(&self) -> Seq<u8> {
        self.carry@
    }

    /// An inbox that carries nothing.
    pub fn new() -> (r: OscInbox)
        ensures
            r.carry() == Seq::<u8>::empty(),
    {
        OscInbox { carry: Vec::new() }
    }

    /// How many bytes the next datagram may bring.
    pub fn space(&self) -> (r: usize)
        ensures
            r == if self.carry().len() <= BUFFER_SIZE {
                BUFFER_SIZE - self.carry().len()
            } else {
                0
            },
    {
        if self.carry.len() <= BUFFER_SIZE {
            BUFFER_SIZE - self.carry.len()
        } else {
            0
        }
    }

    /// The bytes to read a packet from when `datagram` has arrived: what was
    /// carried over, then the datagram.
    pub fn stage(&self, datagram: &[u8]) -> (r: Vec<u8>)
        ensures
            r@ == self.carry() + datagram@,
    {
        let mut r: Vec<u8> = self.carry.clone();
        assert(r@ =~= self.carry@);
        let mut tail = slice_to_vec(datagram);
        r.append(&mut tail);
        r
    }

    /// Settles what is carried over after an attempt to read a packet from
    /// `staged`, and translates the packet.
    ///
    /// After a packet, the bytes behind it are kept for the next datagram.
    /// After a failure nothing is kept, so that one malformed datagram
    /// cannot pile up. Returns the MIDI messages to send.
    pub fn settle<T: Translator>(
        &mut self,
        set: &ServerTranslationSet<T>,
        staged: &[u8],
        received: &OscReceived,
    ) -> (r: Vec<MidiEvent>)
        ensures
            match *received {
                OscReceived::Packet { packet, remainder } => {
                    &&& r@ == spec_packet_to_midi(set.rules(), packet@)
                    &&& final(self).carry() == spec_tail(staged@, remainder)
                },
                OscReceived::Malformed => {
                    &&& r@ == Seq::<MidiEvent>::empty()
                    &&& final(self).carry() == Seq::<u8>::empty()
                },
            },
    {
        match received {
            OscReceived::Packet { packet, remainder } => {
                let len: usize = staged.len();
                let keep: usize = if *remainder <= len {
                    *remainder
                } else {
                    len
                };
                self.carry = slice_to_vec(slice_subrange(staged, len - keep, len));
                set.osc_pkt_to_midi(packet)
            },
            OscReceived::Malformed => {
                self.carry = Vec::new();
                Vec::new()
            },
        }
    }
}

/// The last `n` bytes of `bytes`, or all of them if there are fewer.
pub open spec fn spec_tail(bytes: Seq<u8>, n: usize) -> Seq<u8> {
    if n <= bytes.len() {
        bytes.subrange(bytes.len() - n, bytes.len() as int)
    } else {
        bytes
    }
}

} // verus!
