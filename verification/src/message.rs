//! MIDI messages as far as the bridge reads them: control changes and
//! System Exclusive payloads. Everything else passes as [`MidiEvent::Other`].

use vstd::prelude::*;

verus! {

/// Who defined the content of a System Exclusive message.
#[derive(Debug, Clone, Copy, PartialEq, Eq, Structural)]
pub enum ManufacturerId {
    /// One-byte identifier.
    Id(u8),
    /// Three-byte identifier; its first byte, zero, is left out.
    ExtId(u8, u8),
}

/// The value that a control change carries. Which of the three shapes a
/// control has is fixed by its number.
#[derive(Debug, Clone, Copy, PartialEq, Eq, Structural)]
pub enum ControlValue {
    /// Fourteen bits, 0 through 16383.
    HighRes(u16),
    /// Seven bits, 0 through 127.
    Simple(u8),
    /// A switch.
    Toggle(bool),
}

/// A control, by number, and its new value.
#[derive(Debug, Clone, Copy, PartialEq, Eq, Structural)]
pub struct ControlChange {
    pub control: u8,
    pub value: ControlValue,
}

/// One MIDI message.
#[derive(Debug, Clone, PartialEq, Eq)]
pub enum MidiEvent {
    /// A control change on a channel; channels count from 0.
    ControlChange { channel: u8, control: ControlChange },
    /// A System Exclusive message: manufacturer and payload.
    SysEx { manufacturer: ManufacturerId, data: Vec<u8> },
    /// Any other message.
    Other,
}

/// A message with its payload as a mathematical sequence.
pub enum MidiEventView {
    ControlChange { channel: u8, control: ControlChange },
    SysEx { manufacturer: ManufacturerId, data: Seq<u8> },
    Other,
}

impl View for MidiEvent {
    type V = MidiEventView;

    open spec fn view(&self) -> MidiEventView {
        match *self {
            MidiEvent::ControlChange { channel, control } => MidiEventView::ControlChange {
                channel,
                control,
            },
            MidiEvent::SysEx { manufacturer, data } => MidiEventView::SysEx {
                manufacturer,
                data: data@,
            },
            MidiEvent::Other => MidiEventView::Other,
        }
    }
}

/// Behringer's manufacturer identifier.
pub open spec fn spec_behringer() -> ManufacturerId {
    ManufacturerId::ExtId(0x20, 0x32)
}

/// Behringer's manufacturer identifier.
pub fn behringer() -> (r: ManufacturerId)
    ensures
        r == spec_behringer(),
{
    ManufacturerId::ExtId(0x20, 0x32)
}

/// The fourteen-bit value of a control, if it has one.
pub fn u16_from_cc(cc: &ControlChange) -> (r: Option<u16>)
    ensures
        r == match cc.value {
            ControlValue::HighRes(v) => Some(v),
            _ => None,
        },
{
    match cc.value {
        ControlValue::HighRes(v) => Some(v),
        _ => None,
    }
}

/// The seven-bit value of a control, if it has one.
pub fn u8_from_cc(cc: &ControlChange) -> (r: Option<u8>)
    ensures
        r == match cc.value {
            ControlValue::Simple(v) => Some(v),
            _ => None,
        },
{
    match cc.value {
        ControlValue::Simple(v) => Some(v),
        _ => None,
    }
}

/// The state of a control that is a switch.
pub fn bool_from_cc(cc: &ControlChange) -> (r: Option<bool>)
    ensures
        r == match cc.value {
            ControlValue::Toggle(b) => Some(b),
            _ => None,
        },
{
    match cc.value {
        ControlValue::Toggle(b) => Some(b),
        _ => None,
    }
}

} // verus!
