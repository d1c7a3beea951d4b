//! Rules for control changes.

use vstd::prelude::*;

use crate::message::{bool_from_cc, u16_from_cc, u8_from_cc, ControlChange, ControlValue, MidiEvent, MidiEventView};
use crate::translator::ieee::{
    below_half, quotient, round_scaled, spec_below_half, spec_quotient, spec_round_scaled, ONE,
    ZERO,
};
use crate::translator::{
    is_osc_address, osc_address_valid, osc_reaches, spec_reaches, OscArg, OscMessage,
    OscMessageView, OscPacket, Translator,
};

verus! {

/// Why a rule could not be made.
#[derive(Debug, Clone, Copy, PartialEq, Eq, Structural)]
pub enum TranslatorError {
    /// The text given is no OSC address.
    BadAddress,
}

/// How wide the value of a control is.
#[derive(Debug, Clone, Copy, PartialEq, Eq, Structural)]
pub enum ControlShape {
    /// Fourteen bits.
    HighRes,
    /// Seven bits.
    Simple,
}

/// The number in a control change, read as a value of width `shape`.
pub open spec fn spec_value_of_shape(shape: ControlShape, cc: ControlChange) -> Option<u16> {
    match (shape, cc.value) {
        (ControlShape::HighRes, ControlValue::HighRes(v)) => Some(v),
        (ControlShape::Simple, ControlValue::Simple(v)) => Some(v as u16),
        _ => None,
    }
}

/// The control change that sets control `control` to `value`, if a value of
/// width `shape` can be that large.
pub open spec fn spec_make_cc(control: u8, shape: ControlShape, value: int) -> Option<
    ControlChange,
> {
    match shape {
        ControlShape::HighRes => if 0 <= value <= 16383 {
            Some(ControlChange { control, value: ControlValue::HighRes(value as u16) })
        } else {
            None
        },
        ControlShape::Simple => if 0 <= value <= 127 {
            Some(ControlChange { control, value: ControlValue::Simple(value as u8) })
        } else {
            None
        },
    }
}

/// The one number that a message carries: a message with exactly one
/// argument, which is a single.
pub open spec fn spec_float_from_osc(args: Seq<OscArg>) -> Option<u32> {
    if args.len() != 1 {
        None
    } else {
        match args[0] {
            OscArg::Float(bits) => Some(bits),
            _ => None,
        }
    }
}

/// The control value `v` as a position in the range from `low` to `high`:
/// `(v - low) / (high - low)`, by the bits of the single that this
/// division gives. A range of no width has no positions.
pub open spec fn spec_cv_to_normalized(v: u16, low: u16, high: u16) -> Option<u32> {
    if low == high {
        None
    } else {
        Some(spec_quotient(v - low, high - low))
    }
}

/// The control value at the position that the number with bits `bits`
/// gives in the range from `low` to `high`: `round(f * (high - low)) + low`.
/// There is none for what is not finite, or lies beyond every control value.
pub open spec fn spec_normalized_to_cv(bits: u32, low: u16, high: u16) -> Option<int> {
    match spec_round_scaled(bits, high - low) {
        Some(r) => Some(r + low),
        None => None,
    }
}

/// Reads the value of a control as one of width `shape`.
pub fn value_of_shape(shape: ControlShape, cc: &ControlChange) -> (r: Option<u16>)
    ensures
        r == spec_value_of_shape(shape, *cc),
{
    match shape {
        ControlShape::HighRes => u16_from_cc(cc),
        ControlShape::Simple => match u8_from_cc(cc) {
            Some(v) => Some(v as u16),
            None => None,
        },
    }
}

/// Makes the control change that sets `control` to `value`.
pub fn make_cc(control: u8, shape: ControlShape, value: i32) -> (r: Option<ControlChange>)
    ensures
        r == spec_make_cc(control, shape, value as int),
{
    match shape {
        ControlShape::HighRes => if 0 <= value && value <= 16383 {
            Some(ControlChange { control, value: ControlValue::HighRes(value as u16) })
        } else {
            None
        },
        ControlShape::Simple => if 0 <= value && value <= 127 {
            Some(ControlChange { control, value: ControlValue::Simple(value as u8) })
        } else {
            None
        },
    }
}

/// Reads the one number of a message's arguments. Anything but exactly one
/// single-precision argument gives nothing.
pub fn float_from_osc(args: &[OscArg]) -> (r: Option<u32>)
    ensures
        r == spec_float_from_osc(args@),
{
    if args.len() != 1 {
        return None;
    }
    match args[0] {
        OscArg::Float(bits) => Some(bits),
        _ => None,
    }
}

/// Translates a control value to its position in the range from `low` to
/// `high`.
pub fn cv_to_normalized_float(v: u16, low: u16, high: u16) -> (r: Option<u32>)
    ensures
        r == spec_cv_to_normalized(v, low, high),
{
    if low == high {
        return None;
    }
    let num: i32 = v as i32 - low as i32;
    let den: i32 = high as i32 - low as i32;
    Some(quotient(num, den))
}

/// Translates a position in the range from `low` to `high`, given as the
/// bits of a single, to the control value there.
pub fn normalized_float_to_cv(bits: u32, low: u16, high: u16) -> (r: Option<i32>)
    ensures
        r is Some == spec_normalized_to_cv(bits, low, high) is Some,
        r matches Some(v) ==> spec_normalized_to_cv(bits, low, high) == Some(v as int),
{
    let span: i32 = high as i32 - low as i32;
    match round_scaled(bits, span) {
        Some(r) => Some(r + low as i32),
        None => None,
    }
}

/// What a range rule is made of.
pub struct RangeView {
    pub channel: u8,
    pub control: u8,
    pub shape: ControlShape,
    pub low: u16,
    pub high: u16,
    pub address: Seq<char>,
}

/// What a switch rule is made of.
pub struct BoolView {
    pub channel: u8,
    pub control: u8,
    pub shape: ControlShape,
    pub off: u16,
    pub on: u16,
    pub address: Seq<char>,
}

/// The OSC message that a range rule makes of a MIDI message: for a change
/// of the rule's control on the rule's channel, with a value of the rule's
/// width, the position of the value in the rule's range, if the range has
/// a width.
pub open spec fn spec_range_midi_to_osc(rule: RangeView, ev: MidiEventView) -> Option<
    OscMessageView,
> {
    match ev {
        MidiEventView::ControlChange { channel, control } => if channel == rule.channel
            && control.control == rule.control {
            match spec_value_of_shape(rule.shape, control) {
                Some(v) => match spec_cv_to_normalized(v, rule.low, rule.high) {
                    Some(bits) => Some(
                        OscMessageView { addr: rule.address, args: seq![OscArg::Float(bits)] },
                    ),
                    None => None,
                },
                None => None,
            }
        } else {
            None
        },
        _ => None,
    }
}

/// The MIDI message that a range rule makes of an OSC message sent to
/// `pattern` with arguments `args`: if the message reaches the rule's
/// address and carries one number, the control change to the value at that
/// position in the rule's range.
pub open spec fn spec_range_osc_to_midi(rule: RangeView, pattern: Seq<char>, args: Seq<OscArg>)
    -> Option<MidiEvent> {
    if !spec_reaches(pattern, rule.address) {
        None
    } else {
        match spec_float_from_osc(args) {
            None => None,
            Some(bits) => match spec_normalized_to_cv(bits, rule.low, rule.high) {
                None => None,
                Some(v) => match spec_make_cc(rule.control, rule.shape, v) {
                    None => None,
                    Some(control) => Some(
                        MidiEvent::ControlChange { channel: rule.channel, control },
                    ),
                },
            },
        }
    }
}

/// Whether control value `cv` counts as "on" for a switch whose states are
/// the values `off` and `on`: it lies beyond their midpoint, on the side
/// of `on`.
pub open spec fn spec_cv_to_bool(off: u16, on: u16, cv: u16) -> bool {
    let mid = (off + on) / 2;
    if off < on {
        cv > mid
    } else {
        cv <= mid
    }
}

/// The state that a control change shows to a switch rule: a switch shows
/// its own, a number is held against the midpoint.
pub open spec fn spec_bool_of_cc(rule: BoolView, cc: ControlChange) -> bool {
    match cc.value {
        ControlValue::Toggle(b) => b,
        ControlValue::Simple(v) => spec_cv_to_bool(rule.off, rule.on, v as u16),
        ControlValue::HighRes(v) => spec_cv_to_bool(rule.off, rule.on, v),
    }
}

/// The OSC message that a switch rule makes of a MIDI message: for a change
/// of the rule's control on the rule's channel, 1.0 for "on" and 0.0 for
/// "off".
pub open spec fn spec_bool_midi_to_osc(rule: BoolView, ev: MidiEventView) -> Option<
    OscMessageView,
> {
    match ev {
        MidiEventView::ControlChange { channel, control } => if channel == rule.channel
            && control.control == rule.control {
            Some(
                OscMessageView {
                    addr: rule.address,
                    args: seq![
                        OscArg::Float(
                            if spec_bool_of_cc(rule, control) {
                                0x3f80_0000u32
                            } else {
                                0u32
                            },
                        ),
                    ],
                },
            )
        } else {
            None
        },
        _ => None,
    }
}

/// The control value that a switch rule sends for the number with bits
/// `bits`: `off` below one half, else `on`.
pub open spec fn spec_float_to_cv(rule: BoolView, bits: u32) -> u16 {
    if spec_below_half(bits) {
        rule.off
    } else {
        rule.on
    }
}

/// The MIDI message that a switch rule makes of an OSC message sent to
/// `pattern` with arguments `args`.
pub open spec fn spec_bool_osc_to_midi(rule: BoolView, pattern: Seq<char>, args: Seq<OscArg>)
    -> Option<MidiEvent> {
    if !spec_reaches(pattern, rule.address) {
        None
    } else {
        match spec_float_from_osc(args) {
            None => None,
            Some(bits) => match spec_make_cc(
                rule.control,
                rule.shape,
                spec_float_to_cv(rule, bits) as int,
            ) {
                None => None,
                Some(control) => Some(MidiEvent::ControlChange { channel: rule.channel, control }),
            },
        }
    }
}

/// Ties a control to an OSC address by linear scaling: the control's value
/// between `low` and `high` is the OSC number between 0 and 1.
#[derive(Debug, Clone, PartialEq, Eq)]
pub struct ControlChangeHighResRangeTranslator {
    channel: u8,
    control: u8,
    shape: ControlShape,
    low: u16,
    high: u16,
    address: String,
}

impl View for ControlChangeHighResRangeTranslator {
    type V = RangeView;

    closed spec fn view(&self) -> RangeView {
        RangeView {
            channel: self.channel,
            control: self.control,
            shape: self.shape,
            low: self.low,
            high: self.high,
            address: self.address@,
        }
    }
}

impl ControlChangeHighResRangeTranslator {
    /// A rule for the fourteen-bit control `control` on channel `channel`.
    /// `address` must be an OSC address.
    pub fn new(channel: u8, control: u8, low: u16, high: u16, address: &str) -> (r: Result<
        Self,
        TranslatorError,
    >)
        ensures
            r is Ok <==> osc_address_valid(address@),
            r matches Ok(rule) ==> rule@ == (RangeView {
                channel,
                control,
                shape: ControlShape::HighRes,
                low,
                high,
                address: address@,
            }),
            r matches Err(e) ==> e == TranslatorError::BadAddress,
    {
        Self::with_shape(channel, control, ControlShape::HighRes, low, high, address)
    }

    /// A rule for a control whose value has width `shape`.
    pub fn with_shape(
        channel: u8,
        control: u8,
        shape: ControlShape,
        low: u16,
        high: u16,
        address: &str,
    ) -> (r: Result<Self, TranslatorError>)
        ensures
            r is Ok <==> osc_address_valid(address@),
            r matches Ok(rule) ==> rule@ == (RangeView {
                channel,
                control,
                shape,
                low,
                high,
                address: address@,
            }),
            r matches Err(e) ==> e == TranslatorError::BadAddress,
    {
        if is_osc_address(address) {
            Ok(Self { channel, control, shape, low, high, address: address.to_owned() })
        } else {
            Err(TranslatorError::BadAddress)
        }
    }

    /// Translates a MIDI message to the OSC message that this rule makes of
    /// it, if any.
    pub fn midi_to_osc(&self, midi: &MidiEvent) -> (r: Option<OscPacket>)
        ensures
            r is Some == spec_range_midi_to_osc(self@, midi@) is Some,
            r matches Some(p) ==> p matches OscPacket::Message(m) && Some(m@)
                == spec_range_midi_to_osc(self@, midi@),
    {
        match midi {
            MidiEvent::ControlChange { channel, control } => {
                if self.channel == *channel && self.control == control.control {
                    match value_of_shape(self.shape, control) {
                        Some(value) => match cv_to_normalized_float(value, self.low, self.high) {
                            Some(bits) => {
                                let mut args: Vec<OscArg> = Vec::new();
                                args.push(OscArg::Float(bits));
                                assert(args@ =~= seq![OscArg::Float(bits)]);
                                Some(
                                    OscPacket::Message(
                                        OscMessage { addr: self.address.clone(), args },
                                    ),
                                )
                            },
                            None => None,
                        },
                        None => None,
                    }
                } else {
                    None
                }
            },
            _ => None,
        }
    }

    /// Translates an OSC message, sent to `pattern` with arguments `args`,
    /// to the MIDI message that this rule makes of it, if any.
    pub fn osc_to_midi(&self, pattern: &str, args: &[OscArg]) -> (r: Option<MidiEvent>)
        ensures
            r == spec_range_osc_to_midi(self@, pattern@, args@),
    {
        if !osc_reaches(pattern, self.address.as_str()) {
            return None;
        }
        match float_from_osc(args) {
            None => None,
            Some(bits) => match normalized_float_to_cv(bits, self.low, self.high) {
                None => None,
                Some(value) => match make_cc(self.control, self.shape, value) {
                    None => None,
                    Some(control) => Some(
                        MidiEvent::ControlChange { channel: self.channel, control },
                    ),
                },
            },
        }
    }
}

/// Ties a control to an OSC address as a switch: the control is "on" or
/// "off", and the OSC number is 1.0 or 0.0.
#[derive(Debug, Clone, PartialEq, Eq)]
pub struct ControlChangeBoolTranslator {
    channel: u8,
    control: u8,
    shape: ControlShape,
    off: u16,
    on: u16,
    address: String,
}

impl View for ControlChangeBoolTranslator {
    type V = BoolView;

    closed spec fn view(&self) -> BoolView {
        BoolView {
            channel: self.channel,
            control: self.control,
            shape: self.shape,
            off: self.off,
            on: self.on,
            address: self.address@,
        }
    }
}

impl ControlChangeBoolTranslator {
    /// A rule for the seven-bit control `control` on channel `channel`, which
    /// sends `off` and `on` for the two states. `address` must be an OSC
    /// address.
    pub fn new(channel: u8, control: u8, off: u16, on: u16, address: &str) -> (r: Result<
        Self,
        TranslatorError,
    >)
        ensures
            r is Ok <==> osc_address_valid(address@),
            r matches Ok(rule) ==> rule@ == (BoolView {
                channel,
                control,
                shape: ControlShape::Simple,
                off,
                on,
                address: address@,
            }),
            r matches Err(e) ==> e == TranslatorError::BadAddress,
    {
        Self::with_shape(channel, control, ControlShape::Simple, off, on, address)
    }

    /// A rule for a control whose value has width `shape`.
    pub fn with_shape(
        channel: u8,
        control: u8,
        shape: ControlShape,
        off: u16,
        on: u16,
        address: &str,
    ) -> (r: Result<Self, TranslatorError>)
        ensures
            r is Ok <==> osc_address_valid(address@),
            r matches Ok(rule) ==> rule@ == (BoolView {
                channel,
                control,
                shape,
                off,
                on,
                address: address@,
            }),
            r matches Err(e) ==> e == TranslatorError::BadAddress,
    {
        if is_osc_address(address) {
            Ok(Self { channel, control, shape, off, on, address: address.to_owned() })
        } else {
            Err(TranslatorError::BadAddress)
        }
    }

    /// Whether control value `cv` counts as "on".
    pub fn cv_to_bool(&self, cv: u16) -> (r: bool)
        ensures
            r == spec_cv_to_bool(self@.off, self@.on, cv),
    {
        let mid: u32 = (self.off as u32 + self.on as u32) / 2;
        if self.off < self.on {
            cv as u32 > mid
        } else {
            cv as u32 <= mid
        }
    }

    /// The control value to send for the number with bits `bits`: one of
    /// the rule's two values, never one between.
    pub fn float_to_cv(&self, bits: u32) -> (r: u16)
        ensures
            r == spec_float_to_cv(self@, bits),
            r == self@.off || r == self@.on,
    {
        if below_half(bits) {
            self.off
        } else {
            self.on
        }
    }

    /// Translates a MIDI message to the OSC message that this rule makes of
    /// it, if any.
    pub fn midi_to_osc(&self, midi: &MidiEvent) -> (r: Option<OscPacket>)
        ensures
            r is Some == spec_bool_midi_to_osc(self@, midi@) is Some,
            r matches Some(p) ==> p matches OscPacket::Message(m) && Some(m@)
                == spec_bool_midi_to_osc(self@, midi@),
    {
        match midi {
            MidiEvent::ControlChange { channel, control } => {
                if self.channel == *channel && self.control == control.control {
                    let state = match bool_from_cc(control) {
                        Some(b) => b,
                        None => match u8_from_cc(control) {
                            Some(v) => self.cv_to_bool(v as u16),
                            None => match u16_from_cc(control) {
                                Some(v) => self.cv_to_bool(v),
                                None => false,
                            },
                        },
                    };
                    let mut args: Vec<OscArg> = Vec::new();
                    args.push(OscArg::Float(if state { ONE } else { ZERO }));
                    assert(args@ =~= seq![
                        OscArg::Float(
                            if spec_bool_of_cc(self@, *control) {
                                0x3f80_0000u32
                            } else {
                                0u32
                            },
                        ),
                    ]);
                    Some(OscPacket::Message(OscMessage { addr: self.address.clone(), args }))
                } else {
                    None
                }
            },
            _ => None,
        }
    }

    /// Translates an OSC message, sent to `pattern` with arguments `args`,
    /// to the MIDI message that this rule makes of it, if any.
    pub fn osc_to_midi(&self, pattern: &str, args: &[OscArg]) -> (r: Option<MidiEvent>)
        ensures
            r == spec_bool_osc_to_midi(self@, pattern@, args@),
    {
        if !osc_reaches(pattern, self.address.as_str()) {
            return None;
        }
        match float_from_osc(args) {
            None => None,
            Some(bits) => match make_cc(self.control, self.shape, self.float_to_cv(bits) as i32) {
                None => None,
                Some(control) => Some(MidiEvent::ControlChange { channel: self.channel, control }),
            },
        }
    }
}

impl Translator for ControlChangeHighResRangeTranslator {
    open spec fn spec_midi_to_osc(&self, midi: MidiEventView) -> Option<OscMessageView> {
        spec_range_midi_to_osc(self@, midi)
    }

    open spec fn spec_osc_to_midi(&self, pattern: Seq<char>, args: Seq<OscArg>) -> Option<
        MidiEvent,
    > {
        spec_range_osc_to_midi(self@, pattern, args)
    }

    fn midi_to_osc(&self, midi: &MidiEvent) -> (r: Option<OscPacket>) {
        ControlChangeHighResRangeTranslator::midi_to_osc(self, midi)
    }

    fn osc_to_midi(&self, pattern: &str, args: &[OscArg]) -> (r: Option<MidiEvent>) {
        ControlChangeHighResRangeTranslator::osc_to_midi(self, pattern, args)
    }
}

impl Translator for ControlChangeBoolTranslator {
    open spec fn spec_midi_to_osc(&self, midi: MidiEventView) -> Option<OscMessageView> {
        spec_bool_midi_to_osc(self@, midi)
    }

    open spec fn spec_osc_to_midi(&self, pattern: Seq<char>, args: Seq<OscArg>) -> Option<
        MidiEvent,
    > {
        spec_bool_osc_to_midi(self@, pattern, args)
    }

    fn midi_to_osc(&self, midi: &MidiEvent) -> (r: Option<OscPacket>) {
        ControlChangeBoolTranslator::midi_to_osc(self, midi)
    }

    fn osc_to_midi(&self, pattern: &str, args: &[OscArg]) -> (r: Option<MidiEvent>) {
        ControlChangeBoolTranslator::osc_to_midi(self, pattern, args)
    }
}

} // verus!
