//! Receiving a script from a device, line by line.
//!
//! A device answers a request for its settings with a run of script lines,
//! each in a message of its own and numbered from zero. The line `$end`
//! closes the script. The device neither repeats nor reorders lines, so a
//! line out of turn means that one was lost.

use vstd::prelude::*;
use vstd::string::StringExecFns;

use crate::b_control::laws::lemma_decode_encode;
use crate::b_control::{
    spec_decode_event, spec_encode, BControlCommand, BControlModel, BControlSysEx, CommandView, DeviceID,
    PresetIndex, SysExView,
};
use crate::message::{spec_behringer, MidiEvent, MidiEventView};

verus! {

/// Why a script could not be received.
#[derive(Debug, Clone, Copy, PartialEq, Eq, Structural)]
pub enum BclError {
    /// A line arrived that is not the next one.
    OutOfOrder,
    /// The messages ended before the closing line.
    Truncated,
}

/// The text of the line that closes a script.
pub open spec fn spec_end_marker() -> Seq<char> {
    "$end"@
}

/// Whether a message addressed to `id` concerns device number `device`.
pub open spec fn spec_match_device(id: DeviceID, device: u8) -> bool {
    match id {
        DeviceID::Device(d) => d == device,
        DeviceID::Any => true,
    }
}

/// The script line that a MIDI message carries for device `device`: its
/// number and text. Messages that are not Behringer's, that cannot be
/// read, that concern another device or that carry no script line have
/// none.
pub open spec fn spec_bcl_line(device: u8, ev: MidiEventView) -> Option<(u16, Seq<char>)> {
    match spec_decode_event(ev) {
        Ok(msg) => match msg.command {
            CommandView::SendBclMessage { msg_index, text } => if spec_match_device(
                msg.device,
                device,
            ) {
                Some((msg_index, text))
            } else {
                None
            },
            _ => None,
        },
        Err(_) => None,
    }
}

/// The texts of some lines.
pub open spec fn spec_texts(lines: Seq<String>) -> Seq<Seq<char>> {
    lines.map_values(|s: String| s@)
}

/// The script that the messages `events` hold for device `device`, given
/// the lines `lines` received before them.
///
/// Lines are taken in the order of arrival, each must carry the number of
/// lines taken before it, and the closing line ends the script; messages
/// behind it are not looked at.
pub open spec fn spec_recv_bcl(device: u8, events: Seq<MidiEvent>, lines: Seq<Seq<char>>) -> Result<
    Seq<Seq<char>>,
    BclError,
>
    decreases events.len(),
{
    if events.len() == 0 {
        Err(BclError::Truncated)
    } else {
        match spec_bcl_line(device, events[0]@) {
            None => spec_recv_bcl(device, events.drop_first(), lines),
            Some((index, text)) => if index != lines.len() {
                Err(BclError::OutOfOrder)
            } else if text == spec_end_marker() {
                Ok(lines.push(text))
            } else {
                spec_recv_bcl(device, events.drop_first(), lines.push(text))
            },
        }
    }
}

/// A script in the course of being received.
pub struct BclSession {
    device: u8,
    lines: Vec<String>,
    complete: bool,
}

impl BclSession {
    /// The number of the device that the script is expected from.
    pub closed spec fn device(&self) -> u8 {
        self.device
    }

    /// The texts of the lines received so far.
    pub closed spec fn texts(&self) -> Seq<Seq<char>> {
        spec_texts(self.lines@)
    }

    /// Whether the closing line has been received.
    pub closed spec fn complete(&self) -> bool {
        self.complete
    }

    /// A session that waits for line 0 from device `device`.
    pub fn new(device: u8) -> (r: BclSession)
        ensures
            r.device() == device,
            r.texts() == Seq::<Seq<char>>::empty(),
            !r.complete(),
    {
        let r = BclSession { device, lines: Vec::new(), complete: false };
        assert(spec_texts(r.lines@) =~= Seq::<Seq<char>>::empty());
        r
    }

    /// The number of the line that is expected next.
    pub fn next_index(&self) -> (r: usize)
        ensures
            r == self.texts().len(),
    {
        self.lines.len()
    }

    /// Whether the closing line has been received.
    pub fn is_complete(&self) -> (r: bool)
        ensures
            r == self.complete(),
    {
        self.complete
    }

    /// Takes line `msg_index` with text `text`.
    ///
    /// A complete session takes nothing more. Otherwise the line is kept if
    /// it is the next one, and completes the script if it is the closing
    /// line; a line out of turn is an error and leaves the session as it
    /// was. Returns whether the script is complete.
    pub fn accept_line(&mut self, msg_index: u16, text: String) -> (r: Result<bool, BclError>)
        ensures
            final(self).device() == old(self).device(),
            old(self).complete() ==> r == Ok::<bool, BclError>(true) && final(self).texts() == old(self).texts() && final(self).complete(),
            !old(self).complete() && msg_index != old(self).texts().len() ==> r == Err::<
                bool,
                BclError,
            >(BclError::OutOfOrder) && final(self).texts() == old(self).texts() && !final(self).complete(),
            !old(self).complete() && msg_index == old(self).texts().len() ==> final(self).texts()
                == old(self).texts().push(text@) && final(self).complete() == (text@
                == spec_end_marker()) && r == Ok::<bool, BclError>(text@ == spec_end_marker()),
    {
        if self.complete {
            return Ok(true);
        }
        if msg_index as usize != self.lines.len() {
            return Err(BclError::OutOfOrder);
        }
        let done = is_end_marker(&text);
        self.lines.push(text);
        self.complete = done;
        assert(spec_texts(self.lines@) =~= spec_texts(old(self).lines@).push(text@));
        Ok(done)
    }

    /// Looks at one MIDI message and takes the script line in it, if it
    /// carries one for this session's device. Other messages change nothing.
    /// Returns whether the script is complete.
    pub fn offer(&mut self, ev: &MidiEvent) -> (r: Result<bool, BclError>)
        ensures
            final(self).device() == old(self).device(),
            old(self).complete() ==> r == Ok::<bool, BclError>(true) && final(self).texts() == old(self).texts() && final(self).complete(),
            !old(self).complete() ==> match spec_bcl_line(old(self).device(), ev@) {
                None => r == Ok::<bool, BclError>(false) && final(self).texts() == old(self).texts() && !final(self).complete(),
                Some((index, text)) => if index != old(self).texts().len() {
                    r == Err::<bool, BclError>(BclError::OutOfOrder) && final(self).texts() == old(self).texts() && !final(self).complete()
                } else {
                    final(self).texts() == old(self).texts().push(text) && final(self).complete()
                        == (text == spec_end_marker()) && r == Ok::<bool, BclError>(
                        text == spec_end_marker(),
                    )
                },
            },
    {
        if self.complete {
            return Ok(true);
        }
        match BControlSysEx::try_from_event(ev) {
            Err(_) => Ok(false),
            Ok(msg) => {
                if msg.device.match_device(self.device) {
                    match msg.command {
                        BControlCommand::SendBclMessage { msg_index, text } => self.accept_line(
                            msg_index,
                            text,
                        ),
                        _ => Ok(false),
                    }
                } else {
                    Ok(false)
                }
            },
        }
    }

    /// Ends the session when no more messages will come: the script, if the
    /// closing line was received, and [`BclError::Truncated`] if not.
    pub fn finish(self) -> (r: Result<Vec<String>, BclError>)
        ensures
            self.complete() ==> r is Ok && spec_texts(r->Ok_0@) == self.texts(),
            !self.complete() ==> r == Err::<Vec<String>, BclError>(BclError::Truncated),
    {
        if self.complete {
            Ok(self.lines)
        } else {
            Err(BclError::Truncated)
        }
    }
}

/// Whether `text` is the line that closes a script.
pub fn is_end_marker(text: &String) -> (r: bool)
    ensures
        r == (text@ == spec_end_marker()),
{
    let end = String::from_str("$end");
    *text == end
}

/// Receives the script that `events` hold for device `device`.
pub fn recv_bcl(device: u8, events: &Vec<MidiEvent>) -> (r: Result<Vec<String>, BclError>)
    ensures
        match r {
            Ok(lines) => spec_recv_bcl(device, events@, Seq::empty()) == Ok::<
                Seq<Seq<char>>,
                BclError,
            >(spec_texts(lines@)),
            Err(e) => spec_recv_bcl(device, events@, Seq::empty()) == Err::<
                Seq<Seq<char>>,
                BclError,
            >(e),
        },
{
    let mut session = BclSession::new(device);
    let n: usize = events.len();
    let mut i: usize = 0;
    assert(events@.skip(0) =~= events@);
    while i < n
        invariant
            i <= n,
            n == events@.len(),
            session.device() == device,
            !session.complete(),
            spec_recv_bcl(device, events@, Seq::empty()) == spec_recv_bcl(
                device,
                events@.skip(i as int),
                session.texts(),
            ),
        decreases n - i,
    {
        let ghost rest = events@.skip(i as int);
        assert(rest[0] == events@[i as int]);
        assert(rest.drop_first() =~= events@.skip(i + 1));
        match session.offer(&events[i]) {
            Err(e) => {
                return Err(e);
            },
            Ok(done) => {
                if done {
                    return session.finish();
                }
            },
        }
        i = i + 1;
    }
    assert(events@.skip(n as int).len() == 0);
    session.finish()
}

/// The request for the script of preset `preset` of device `device`.
pub open spec fn spec_preset_request(device: u8, preset: PresetIndex) -> SysExView {
    SysExView {
        device: DeviceID::Device(device),
        model: BControlModel::Any,
        command: CommandView::RequestData(preset),
    }
}

/// The request for the script of the global settings of device `device`.
pub open spec fn spec_global_request(device: u8) -> SysExView {
    SysExView {
        device: DeviceID::Device(device),
        model: BControlModel::Any,
        command: CommandView::RequestGlobalSetup,
    }
}

/// Prepares the query for the script of a preset: the session that will
/// receive the answer, and the request to send.
///
/// The session is handed out together with the request so that the
/// receiver can be in place before the request leaves: the device answers
/// at once, and lines that arrive unheard are lost.
pub fn get_preset_bcl(device: u8, preset: PresetIndex) -> (r: (BclSession, BControlSysEx))
    ensures
        r.0.device() == device,
        r.0.texts() == Seq::<Seq<char>>::empty(),
        !r.0.complete(),
        r.1@ == spec_preset_request(device, preset),
{
    let session = BclSession::new(device);
    let request = BControlSysEx {
        device: DeviceID::Device(device),
        model: BControlModel::Any,
        command: BControlCommand::RequestData(preset),
    };
    (session, request)
}

/// Prepares the query for the script of the global settings, as
/// [`get_preset_bcl`] does for a preset.
pub fn get_global_bcl(device: u8) -> (r: (BclSession, BControlSysEx))
    ensures
        r.0.device() == device,
        r.0.texts() == Seq::<Seq<char>>::empty(),
        !r.0.complete(),
        r.1@ == spec_global_request(device),
{
    let session = BclSession::new(device);
    let request = BControlSysEx {
        device: DeviceID::Device(device),
        model: BControlModel::Any,
        command: BControlCommand::RequestGlobalSetup,
    };
    (session, request)
}

/// Whether `events` carry, one line per message and in order, the lines
/// `lines` for device `device`, from message `from` on.
pub open spec fn spec_carries(
    device: u8,
    events: Seq<MidiEvent>,
    lines: Seq<Seq<char>>,
    from: int,
) -> bool {
    &&& events.len() == lines.len()
    &&& lines.len() <= 16384
    &&& forall|i: int|
        from <= i < events.len() ==> #[trigger] spec_bcl_line(device, events[i]@) == Some(
            (i as u16, lines[i]),
        )
}

/// A script that arrives whole and in order is received as it was sent:
/// lines numbered from zero, of which the last, and no other, is the
/// closing line, come out in their order, the closing line included.
pub proof fn lemma_script_in_order(device: u8, events: Seq<MidiEvent>, lines: Seq<Seq<char>>)
    requires
        spec_carries(device, events, lines, 0),
        lines.len() > 0,
        lines.last() == spec_end_marker(),
        forall|i: int| 0 <= i < lines.len() - 1 ==> lines[i] != spec_end_marker(),
    ensures
        spec_recv_bcl(device, events, Seq::empty()) == Ok::<Seq<Seq<char>>, BclError>(lines),
{
    assert(events.skip(0) =~= events);
    assert(lines.take(0) =~= Seq::<Seq<char>>::empty());
    lemma_rest_in_order(device, events, lines, 0);
}

/// A script that arrives in order and stops short of its closing line is
/// truncated.
pub proof fn lemma_script_cut_short(device: u8, events: Seq<MidiEvent>, lines: Seq<Seq<char>>)
    requires
        spec_carries(device, events, lines, 0),
        forall|i: int| 0 <= i < lines.len() ==> lines[i] != spec_end_marker(),
    ensures
        spec_recv_bcl(device, events, Seq::empty()) == Err::<Seq<Seq<char>>, BclError>(
            BclError::Truncated,
        ),
{
    assert(events.skip(0) =~= events);
    assert(lines.take(0) =~= Seq::<Seq<char>>::empty());
    lemma_rest_cut_short(device, events, lines, 0);
}

/// A line that is not the next one stops the script where it stands,
/// whatever follows: the lines before it are taken, and the script is out
/// of order.
pub proof fn lemma_script_with_a_gap(
    device: u8,
    events: Seq<MidiEvent>,
    taken: Seq<Seq<char>>,
    index: u16,
    text: Seq<char>,
)
    requires
        events.len() > 0,
        spec_bcl_line(device, events[0]@) == Some((index, text)),
        index != taken.len(),
    ensures
        spec_recv_bcl(device, events, taken) == Err::<Seq<Seq<char>>, BclError>(
            BclError::OutOfOrder,
        ),
{
}

/// The induction behind [`lemma_script_in_order`].
proof fn lemma_rest_in_order(device: u8, events: Seq<MidiEvent>, lines: Seq<Seq<char>>, i: int)
    requires
        spec_carries(device, events, lines, i),
        0 <= i < lines.len(),
        lines.last() == spec_end_marker(),
        forall|j: int| 0 <= j < lines.len() - 1 ==> lines[j] != spec_end_marker(),
    ensures
        spec_recv_bcl(device, events.skip(i), lines.take(i)) == Ok::<Seq<Seq<char>>, BclError>(
            lines,
        ),
    decreases lines.len() - i,
{
    let rest = events.skip(i);
    assert(rest[0] == events[i]);
    assert(spec_bcl_line(device, events[i]@) == Some((i as u16, lines[i])));
    assert(lines.take(i).push(lines[i]) =~= lines.take(i + 1));
    if i == lines.len() - 1 {
        assert(lines.take(i + 1) =~= lines);
    } else {
        assert(rest.drop_first() =~= events.skip(i + 1));
        lemma_rest_in_order(device, events, lines, i + 1);
    }
}

/// The induction behind [`lemma_script_cut_short`].
proof fn lemma_rest_cut_short(device: u8, events: Seq<MidiEvent>, lines: Seq<Seq<char>>, i: int)
    requires
        spec_carries(device, events, lines, i),
        0 <= i <= lines.len(),
        forall|j: int| 0 <= j < lines.len() ==> lines[j] != spec_end_marker(),
    ensures
        spec_recv_bcl(device, events.skip(i), lines.take(i)) == Err::<Seq<Seq<char>>, BclError>(
            BclError::Truncated,
        ),
    decreases lines.len() - i,
{
    let rest = events.skip(i);
    if i < lines.len() {
        assert(rest[0] == events[i]);
        assert(spec_bcl_line(device, events[i]@) == Some((i as u16, lines[i])));
        assert(lines.take(i).push(lines[i]) =~= lines.take(i + 1));
        assert(rest.drop_first() =~= events.skip(i + 1));
        lemma_rest_cut_short(device, events, lines, i + 1);
    }
}

/// A script line sent to a device is the line that a session for that
/// device finds in the message.
pub proof fn lemma_line_is_found(device: u8, model: BControlModel, msg_index: u16, text: Seq<char>)
    requires
        device <= 15,
        msg_index <= 16383,
    ensures
        spec_bcl_line(
            device,
            MidiEventView::SysEx {
                manufacturer: spec_behringer(),
                data: spec_encode(
                    SysExView {
                        device: DeviceID::Device(device),
                        model,
                        command: CommandView::SendBclMessage { msg_index, text },
                    },
                ),
            },
        ) == Some((msg_index, text)),
{
    lemma_decode_encode(
        SysExView {
            device: DeviceID::Device(device),
            model,
            command: CommandView::SendBclMessage { msg_index, text },
        },
    );
}

} // verus!
