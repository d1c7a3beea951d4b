//! System Exclusive syntax of the B-Control devices.
//!
//! A payload is three header bytes (device, model, command) followed by
//! what the command carries, and is closed by the end-of-exclusive marker.
//! [`BControlSysEx::to_midi`] writes a payload and
//! [`BControlSysEx::from_midi`] reads one; both are specified against
//! [`spec_encode`] and [`spec_decode`].

use vstd::prelude::*;
use vstd::utf8::encode_utf8;

pub mod io;
pub mod laws;
pub mod wire;

use crate::b_control::wire::{
    extend_midi_from_string, spec_string_from_midi, spec_u14_from_midi, spec_u14_to_midi,
    spec_u8_from_midi, string_from_midi, u14_from_midi_msb_lsb, u14_to_midi_msb_lsb, u8_from_midi,
    ParseError, U14_MAX,
};
use crate::message::{behringer, spec_behringer, MidiEvent, MidiEventView};
use crate::text::{decimal, parse_u8, spec_decimal, str_parse_u8};
use vstd::slice::{slice_subrange, slice_to_vec};
use vstd::string::StringExecFns;

verus! {

/// The byte that closes a System Exclusive message.
pub const EOX: u8 = 0xf7;

/// Device byte that addresses every device.
pub const DEVICE_ANY: u8 = 0x7f;

/// Highest device number.
pub const DEVICE_MAX: u8 = 15;

/// Highest preset slot.
pub const PRESET_MAX: u8 = 31;

/// Device number of a B-Control. A controller answers requests sent to the
/// number it is set to, 0 through 15 (shown as 1 through 16 on the device).
#[derive(Debug, Clone, Copy, PartialEq, Eq, Structural)]
pub enum DeviceID {
    /// One device, by number.
    Device(u8),
    /// Every device.
    Any,
}

/// Models addressed by a request, or answering one.
#[derive(Debug, Clone, Copy, PartialEq, Eq, Structural)]
pub enum BControlModel {
    BCR,
    BCF,
    Any,
}

/// A preset memory of the device.
#[derive(Debug, Clone, Copy, PartialEq, Eq, Structural)]
pub enum PresetIndex {
    /// Stored preset, slot 0 through 31.
    Preset(u8),
    /// All stored presets.
    All,
    /// The preset being edited.
    Temporary,
}

/// What a message asks of a device or reports from it.
#[derive(Debug, Clone, PartialEq, Eq)]
pub enum BControlCommand {
    /// One line of a script, with its position in the script.
    SendBclMessage { msg_index: u16, text: String },
    RequestIdentity,
    SelectPreset { index: u8 },
    SendFirmware { data: Vec<u8> },
    RequestData(PresetIndex),
    RequestGlobalSetup,
    RequestPresetName { preset: PresetIndex },
    RequestSnapshot,
    SendIdentity { id_string: String },
    /// The device's answer to one script line.
    BclReply { msg_index: u16, error_code: u8 },
    SendPresetName { preset: PresetIndex, name: String },
    FirmwareReply { mem_addr: u16, err: u8 },
    SendText,
}

/// One System Exclusive message to or from a B-Control.
#[derive(Debug, Clone, PartialEq, Eq)]
pub struct BControlSysEx {
    pub device: DeviceID,
    pub model: BControlModel,
    pub command: BControlCommand,
}

/// A command with its text and bytes as mathematical sequences.
pub enum CommandView {
    SendBclMessage { msg_index: u16, text: Seq<char> },
    RequestIdentity,
    SelectPreset { index: u8 },
    SendFirmware { data: Seq<u8> },
    RequestData(PresetIndex),
    RequestGlobalSetup,
    RequestPresetName { preset: PresetIndex },
    RequestSnapshot,
    SendIdentity { id_string: Seq<char> },
    BclReply { msg_index: u16, error_code: u8 },
    SendPresetName { preset: PresetIndex, name: Seq<char> },
    FirmwareReply { mem_addr: u16, err: u8 },
    SendText,
}

/// A message with its command as a [`CommandView`].
pub struct SysExView {
    pub device: DeviceID,
    pub model: BControlModel,
    pub command: CommandView,
}

impl View for BControlCommand {
    type V = CommandView;

    open spec fn view(&self) -> CommandView {
        match *self {
            BControlCommand::SendBclMessage { msg_index, text } => CommandView::SendBclMessage {
                msg_index,
                text: text@,
            },
            BControlCommand::RequestIdentity => CommandView::RequestIdentity,
            BControlCommand::SelectPreset { index } => CommandView::SelectPreset { index },
            BControlCommand::SendFirmware { data } => CommandView::SendFirmware { data: data@ },
            BControlCommand::RequestData(preset) => CommandView::RequestData(preset),
            BControlCommand::RequestGlobalSetup => CommandView::RequestGlobalSetup,
            BControlCommand::RequestPresetName { preset } => CommandView::RequestPresetName {
                preset,
            },
            BControlCommand::RequestSnapshot => CommandView::RequestSnapshot,
            BControlCommand::SendIdentity { id_string } => CommandView::SendIdentity {
                id_string: id_string@,
            },
            BControlCommand::BclReply { msg_index, error_code } => CommandView::BclReply {
                msg_index,
                error_code,
            },
            BControlCommand::SendPresetName { preset, name } => CommandView::SendPresetName {
                preset,
                name: name@,
            },
            BControlCommand::FirmwareReply { mem_addr, err } => CommandView::FirmwareReply {
                mem_addr,
                err,
            },
            BControlCommand::SendText => CommandView::SendText,
        }
    }
}

impl View for BControlSysEx {
    type V = SysExView;

    open spec fn view(&self) -> SysExView {
        SysExView { device: self.device, model: self.model, command: self.command@ }
    }
}

/// The device byte on the wire. A number above 15 is sent as 15.
pub open spec fn spec_device_byte(d: DeviceID) -> u8 {
    match d {
        DeviceID::Device(n) => if n > 15 { 15 } else { n },
        DeviceID::Any => 0x7f,
    }
}

/// The model byte on the wire.
pub open spec fn spec_model_byte(m: BControlModel) -> u8 {
    match m {
        BControlModel::BCR => 0x15,
        BControlModel::BCF => 0x14,
        BControlModel::Any => 0x7f,
    }
}

/// The preset byte on the wire.
pub open spec fn spec_preset_byte(p: PresetIndex) -> u8 {
    match p {
        PresetIndex::Preset(i) => i,
        PresetIndex::All => 0x7e,
        PresetIndex::Temporary => 0x7f,
    }
}

/// The command byte of each command.
pub open spec fn spec_opcode(c: CommandView) -> u8 {
    match c {
        CommandView::RequestIdentity => 0x01,
        CommandView::SendIdentity { .. } => 0x02,
        CommandView::SendBclMessage { .. } => 0x20,
        CommandView::BclReply { .. } => 0x21,
        CommandView::SendPresetName { .. } => 0x21,
        CommandView::SelectPreset { .. } => 0x22,
        CommandView::SendFirmware { .. } => 0x34,
        CommandView::FirmwareReply { .. } => 0x35,
        CommandView::RequestData(_) => 0x40,
        CommandView::RequestGlobalSetup => 0x41,
        CommandView::RequestPresetName { .. } => 0x42,
        CommandView::RequestSnapshot => 0x43,
        CommandView::SendText => 0x78,
    }
}

/// The bytes that follow the command byte.
pub open spec fn spec_payload(c: CommandView) -> Seq<u8> {
    match c {
        CommandView::SendBclMessage { msg_index, text } => spec_u14_to_midi(msg_index)
            + encode_utf8(text),
        CommandView::SelectPreset { index } => seq![index],
        CommandView::SendFirmware { data } => data,
        CommandView::RequestData(preset) => seq![spec_preset_byte(preset)],
        CommandView::RequestPresetName { preset } => seq![spec_preset_byte(preset)],
        CommandView::SendIdentity { id_string } => encode_utf8(id_string),
        CommandView::BclReply { msg_index, error_code } => spec_u14_to_midi(msg_index).push(
            error_code,
        ),
        CommandView::SendPresetName { preset, name } => seq![spec_preset_byte(preset)]
            + encode_utf8(name),
        CommandView::FirmwareReply { mem_addr, err } => spec_u14_to_midi(mem_addr).push(err),
        CommandView::RequestIdentity => Seq::empty(),
        CommandView::RequestGlobalSetup => Seq::empty(),
        CommandView::RequestSnapshot => Seq::empty(),
        CommandView::SendText => Seq::empty(),
    }
}

/// A command on the wire: its command byte, then its payload.
pub open spec fn spec_encode_command(c: CommandView) -> Seq<u8> {
    seq![spec_opcode(c)] + spec_payload(c)
}

/// A message on the wire: device, model, command, end marker.
pub open spec fn spec_encode(m: SysExView) -> Seq<u8> {
    seq![spec_device_byte(m.device), spec_model_byte(m.model)] + spec_encode_command(m.command)
        + seq![0xf7u8]
}

/// Whether every number of the command fits the two data bytes it is
/// written in. Only such a command can be encoded.
pub open spec fn spec_encodable(c: CommandView) -> bool {
    match c {
        CommandView::SendBclMessage { msg_index, .. } => msg_index <= 16383,
        CommandView::BclReply { msg_index, .. } => msg_index <= 16383,
        CommandView::FirmwareReply { mem_addr, .. } => mem_addr <= 16383,
        _ => true,
    }
}

impl DeviceID {
    /// Whether a message addressed to `self` concerns device number `device`.
    pub fn match_device(&self, device: u8) -> (r: bool)
        ensures
            r == match *self {
                DeviceID::Device(d) => d == device,
                DeviceID::Any => true,
            },
    {
        match self {
            DeviceID::Device(d) => device == *d,
            DeviceID::Any => true,
        }
    }
}

impl PresetIndex {
    /// Reads a preset byte from the front of `m`.
    pub fn from_midi(m: &[u8]) -> (r: Result<PresetIndex, ParseError>)
        ensures
            r == spec_preset_from_midi(m@),
    {
        match u8_from_midi(m) {
            Err(e) => Err(e),
            Ok(n) => {
                if n <= PRESET_MAX {
                    Ok(PresetIndex::Preset(n))
                } else if n == 0x7e {
                    Ok(PresetIndex::All)
                } else if n == 0x7f {
                    Ok(PresetIndex::Temporary)
                } else {
                    Err(ParseError::BadPresetIndex(n))
                }
            },
        }
    }

    /// Appends the preset byte to `v`.
    pub fn extend_midi(self, v: &mut Vec<u8>)
        ensures
            final(v)@ == old(v)@.push(spec_preset_byte(self)),
    {
        match self {
            PresetIndex::Preset(index) => v.push(index),
            PresetIndex::All => v.push(0x7e),
            PresetIndex::Temporary => v.push(0x7f),
        }
    }
}

/// Reading a preset byte from the front of `m`.
pub open spec fn spec_preset_from_midi(m: Seq<u8>) -> Result<PresetIndex, ParseError> {
    match spec_u8_from_midi(m) {
        Err(e) => Err(e),
        Ok(n) => if n <= 31 {
            Ok(PresetIndex::Preset(n))
        } else if n == 0x7e {
            Ok(PresetIndex::All)
        } else if n == 0x7f {
            Ok(PresetIndex::Temporary)
        } else {
            Err(ParseError::BadPresetIndex(n))
        },
    }
}

impl BControlCommand {
    /// Whether the command can be encoded: see [`spec_encodable`].
    pub fn encodable(&self) -> (r: bool)
        ensures
            r == spec_encodable(self@),
    {
        match self {
            BControlCommand::SendBclMessage { msg_index, .. } => *msg_index <= U14_MAX,
            BControlCommand::BclReply { msg_index, .. } => *msg_index <= U14_MAX,
            BControlCommand::FirmwareReply { mem_addr, .. } => *mem_addr <= U14_MAX,
            _ => true,
        }
    }

    /// Appends the command byte and the payload to `v`.
    pub fn extend_midi(&self, v: &mut Vec<u8>)
        requires
            spec_encodable(self@),
        ensures
            final(v)@ == old(v)@ + spec_encode_command(self@),
    {
        match self {
            BControlCommand::RequestIdentity => {
                v.push(0x01);
            },
            BControlCommand::SendBclMessage { msg_index, text } => {
                v.push(0x20);
                u14_to_midi_msb_lsb(*msg_index, v);
                extend_midi_from_string(text.as_str(), v);
            },
            BControlCommand::SelectPreset { index } => {
                v.push(0x22);
                v.push(*index);
            },
            BControlCommand::SendFirmware { data } => {
                v.push(0x34);
                let n: usize = data.len();
                let mut i: usize = 0;
                while i < n
                    invariant
                        i <= n,
                        n == data@.len(),
                        v@ == old(v)@.push(0x34u8) + data@.subrange(0, i as int),
                    decreases n - i,
                {
                    v.push(data[i]);
                    i = i + 1;
                    assert(v@ =~= old(v)@.push(0x34u8) + data@.subrange(0, i as int));
                }
                assert(data@.subrange(0, n as int) =~= data@);
            },
            BControlCommand::RequestData(preset) => {
                v.push(0x40);
                preset.extend_midi(v);
            },
            BControlCommand::RequestGlobalSetup => {
                v.push(0x41);
            },
            BControlCommand::RequestPresetName { preset } => {
                v.push(0x42);
                preset.extend_midi(v);
            },
            BControlCommand::RequestSnapshot => {
                v.push(0x43);
            },
            BControlCommand::SendIdentity { id_string } => {
                v.push(0x02);
                extend_midi_from_string(id_string.as_str(), v);
            },
            BControlCommand::BclReply { msg_index, error_code } => {
                v.push(0x21);
                u14_to_midi_msb_lsb(*msg_index, v);
                v.push(*error_code);
            },
            BControlCommand::SendPresetName { preset, name } => {
                v.push(0x21);
                preset.extend_midi(v);
                extend_midi_from_string(name.as_str(), v);
            },
            BControlCommand::FirmwareReply { mem_addr, err } => {
                v.push(0x35);
                u14_to_midi_msb_lsb(*mem_addr, v);
                v.push(*err);
            },
            BControlCommand::SendText => {
                v.push(0x78);
            },
        }
        assert(v@ =~= old(v)@ + spec_encode_command(self@));
    }
}

impl BControlSysEx {
    /// The message as the bytes of a System Exclusive payload.
    pub fn to_midi(&self) -> (r: Vec<u8>)
        requires
            spec_encodable(self@.command),
        ensures
            r@ == spec_encode(self@),
    {
        let mut r: Vec<u8> = Vec::new();
        self.extend_midi(&mut r);
        assert(r@ =~= spec_encode(self@));
        r
    }

    /// Appends the bytes of the message to `v`.
    pub fn extend_midi(&self, v: &mut Vec<u8>)
        requires
            spec_encodable(self@.command),
        ensures
            final(v)@ == old(v)@ + spec_encode(self@),
    {
        v.push(
            match self.device {
                DeviceID::Device(d) => if d > DEVICE_MAX { DEVICE_MAX } else { d },
                DeviceID::Any => DEVICE_ANY,
            },
        );
        v.push(
            match self.model {
                BControlModel::BCR => 0x15,
                BControlModel::BCF => 0x14,
                BControlModel::Any => 0x7f,
            },
        );
        self.command.extend_midi(v);
        v.push(EOX);
        assert(v@ =~= old(v)@ + spec_encode(self@));
    }
}

/// `m` without its end marker, if it has one.
pub open spec fn spec_strip_eox(m: Seq<u8>) -> Seq<u8> {
    if m.len() > 0 && m.last() == 0xf7 {
        m.drop_last()
    } else {
        m
    }
}

/// Reading the device byte.
pub open spec fn spec_device_from_byte(b: u8) -> Result<DeviceID, ParseError> {
    if b <= 15 {
        Ok(DeviceID::Device(b))
    } else if b == 0x7f {
        Ok(DeviceID::Any)
    } else {
        Err(ParseError::InvalidDevice(b))
    }
}

/// Reading the model byte.
pub open spec fn spec_model_from_byte(b: u8) -> Result<BControlModel, ParseError> {
    if b == 0x14 {
        Ok(BControlModel::BCF)
    } else if b == 0x15 {
        Ok(BControlModel::BCR)
    } else if b == 0x7f {
        Ok(BControlModel::Any)
    } else {
        Err(ParseError::BadModel(b))
    }
}

/// Reading a fourteen-bit number and the data byte behind it.
pub open spec fn spec_u14_and_byte(p: Seq<u8>) -> Result<(u16, u8), ParseError> {
    match spec_u14_from_midi(p) {
        Err(e) => Err(e),
        Ok(n) => match spec_u8_from_midi(p.skip(2)) {
            Err(e) => Err(e),
            Ok(b) => Ok((n, b)),
        },
    }
}

/// Reading the command of a payload `b` that has its three header bytes:
/// the command, and how many bytes behind the header belong to it.
///
/// Command byte `0x21` stands for two reports. A payload of more than six
/// bytes is a preset name, a shorter one the answer to a script line.
pub open spec fn spec_decode_command(b: Seq<u8>) -> Result<(CommandView, nat), ParseError> {
    let p = b.skip(3);
    let op = b[2];
    if op == 0x01 {
        Ok((CommandView::RequestIdentity, 0))
    } else if op == 0x02 {
        match spec_string_from_midi(p) {
            Err(e) => Err(e),
            Ok(id_string) => Ok((CommandView::SendIdentity { id_string }, p.len())),
        }
    } else if op == 0x20 {
        match spec_u14_from_midi(p) {
            Err(e) => Err(e),
            Ok(msg_index) => match spec_string_from_midi(p.skip(2)) {
                Err(e) => Err(e),
                Ok(text) => Ok((CommandView::SendBclMessage { msg_index, text }, p.len())),
            },
        }
    } else if op == 0x21 {
        if b.len() > 6 {
            match spec_preset_from_midi(p) {
                Err(e) => Err(e),
                Ok(preset) => match spec_string_from_midi(p.skip(1)) {
                    Err(e) => Err(e),
                    Ok(name) => Ok((CommandView::SendPresetName { preset, name }, p.len())),
                },
            }
        } else {
            match spec_u14_and_byte(p) {
                Err(e) => Err(e),
                Ok((msg_index, error_code)) => Ok(
                    (CommandView::BclReply { msg_index, error_code }, 3),
                ),
            }
        }
    } else if op == 0x22 {
        match spec_u8_from_midi(p) {
            Err(e) => Err(e),
            Ok(index) => Ok((CommandView::SelectPreset { index }, 1)),
        }
    } else if op == 0x34 {
        Ok((CommandView::SendFirmware { data: p }, p.len()))
    } else if op == 0x35 {
        match spec_u14_and_byte(p) {
            Err(e) => Err(e),
            Ok((mem_addr, err)) => Ok((CommandView::FirmwareReply { mem_addr, err }, 3)),
        }
    } else if op == 0x40 {
        match spec_preset_from_midi(p) {
            Err(e) => Err(e),
            Ok(preset) => Ok((CommandView::RequestData(preset), 1)),
        }
    } else if op == 0x41 {
        Ok((CommandView::RequestGlobalSetup, 0))
    } else if op == 0x42 {
        match spec_preset_from_midi(p) {
            Err(e) => Err(e),
            Ok(preset) => Ok((CommandView::RequestPresetName { preset }, 1)),
        }
    } else if op == 0x43 {
        Ok((CommandView::RequestSnapshot, 0))
    } else if op == 0x78 {
        Ok((CommandView::SendText, 0))
    } else {
        Err(ParseError::InvalidCommand(op))
    }
}

/// Reading a message from the bytes `m`: the message and how many bytes of
/// `m` it takes, or why `m` is no message.
///
/// One end marker at the end of `m` is ignored. The device byte is judged
/// first, then the model byte, then the command and its payload.
pub open spec fn spec_decode(m: Seq<u8>) -> Result<(SysExView, nat), ParseError> {
    let b = spec_strip_eox(m);
    if m.len() == 0 {
        Err(ParseError::NoData)
    } else if b.len() < 3 {
        Err(ParseError::UnexpectedEnd)
    } else {
        match spec_device_from_byte(b[0]) {
            Err(e) => Err(e),
            Ok(device) => match spec_model_from_byte(b[1]) {
                Err(e) => Err(e),
                Ok(model) => match spec_decode_command(b) {
                    Err(e) => Err(e),
                    Ok((command, used)) => Ok((SysExView { device, model, command }, used + 3)),
                },
            },
        }
    }
}

/// What an exec decoder returned, compared with what the specification
/// gives for the same bytes.
pub open spec fn spec_decoded_as(
    r: Result<(BControlSysEx, usize), ParseError>,
    expected: Result<(SysExView, nat), ParseError>,
) -> bool {
    match r {
        Ok((msg, used)) => expected == Ok::<(SysExView, nat), ParseError>((msg@, used as nat)),
        Err(e) => expected == Err::<(SysExView, nat), ParseError>(e),
    }
}

/// Reads a fourteen-bit number and the data byte behind it.
fn u14_and_byte_from_midi(p: &[u8]) -> (r: Result<(u16, u8), ParseError>)
    ensures
        r == spec_u14_and_byte(p@),
        r matches Ok((n, _)) ==> n <= U14_MAX,
{
    match u14_from_midi_msb_lsb(p) {
        Err(e) => Err(e),
        Ok(n) => {
            let rest = slice_subrange(p, 2, p.len());
            assert(rest@ =~= p@.skip(2));
            match u8_from_midi(rest) {
                Err(e) => Err(e),
                Ok(b) => Ok((n, b)),
            }
        },
    }
}

impl BControlCommand {
    /// Reads the command of the payload `b`, which holds its three header
    /// bytes and no end marker. Returns the command and the number of bytes
    /// behind the header that belong to it.
    fn from_midi(b: &[u8]) -> (r: Result<(BControlCommand, usize), ParseError>)
        requires
            b@.len() >= 3,
        ensures
            match r {
                Ok((c, used)) => spec_decode_command(b@) == Ok::<(CommandView, nat), ParseError>(
                    (c@, used as nat),
                ),
                Err(e) => spec_decode_command(b@) == Err::<(CommandView, nat), ParseError>(e),
            },
    {
        let len: usize = b.len();
        let p = slice_subrange(b, 3, len);
        assert(p@ =~= b@.skip(3));
        let op: u8 = b[2];
        if op == 0x01 {
            Ok((BControlCommand::RequestIdentity, 0))
        } else if op == 0x02 {
            match string_from_midi(p) {
                Err(e) => Err(e),
                Ok(id_string) => Ok((BControlCommand::SendIdentity { id_string }, len - 3)),
            }
        } else if op == 0x20 {
            match u14_from_midi_msb_lsb(p) {
                Err(e) => Err(e),
                Ok(msg_index) => {
                    let t = slice_subrange(p, 2, p.len());
                    assert(t@ =~= p@.skip(2));
                    match string_from_midi(t) {
                        Err(e) => Err(e),
                        Ok(text) => Ok(
                            (BControlCommand::SendBclMessage { msg_index, text }, len - 3),
                        ),
                    }
                },
            }
        } else if op == 0x21 {
            if len > 6 {
                match PresetIndex::from_midi(p) {
                    Err(e) => Err(e),
                    Ok(preset) => {
                        let t = slice_subrange(p, 1, p.len());
                        assert(t@ =~= p@.skip(1));
                        match string_from_midi(t) {
                            Err(e) => Err(e),
                            Ok(name) => Ok(
                                (BControlCommand::SendPresetName { preset, name }, len - 3),
                            ),
                        }
                    },
                }
            } else {
                match u14_and_byte_from_midi(p) {
                    Err(e) => Err(e),
                    Ok((msg_index, error_code)) => Ok(
                        (BControlCommand::BclReply { msg_index, error_code }, 3),
                    ),
                }
            }
        } else if op == 0x22 {
            match u8_from_midi(p) {
                Err(e) => Err(e),
                Ok(index) => Ok((BControlCommand::SelectPreset { index }, 1)),
            }
        } else if op == 0x34 {
            Ok((BControlCommand::SendFirmware { data: slice_to_vec(p) }, len - 3))
        } else if op == 0x35 {
            match u14_and_byte_from_midi(p) {
                Err(e) => Err(e),
                Ok((mem_addr, err)) => Ok((BControlCommand::FirmwareReply { mem_addr, err }, 3)),
            }
        } else if op == 0x40 {
            match PresetIndex::from_midi(p) {
                Err(e) => Err(e),
                Ok(preset) => Ok((BControlCommand::RequestData(preset), 1)),
            }
        } else if op == 0x41 {
            Ok((BControlCommand::RequestGlobalSetup, 0))
        } else if op == 0x42 {
            match PresetIndex::from_midi(p) {
                Err(e) => Err(e),
                Ok(preset) => Ok((BControlCommand::RequestPresetName { preset }, 1)),
            }
        } else if op == 0x43 {
            Ok((BControlCommand::RequestSnapshot, 0))
        } else if op == 0x78 {
            Ok((BControlCommand::SendText, 0))
        } else {
            Err(ParseError::InvalidCommand(op))
        }
    }
}

impl BControlSysEx {
    /// Reads a message from `m`. Returns the message and the number of bytes
    /// of `m` that it takes, or the reason why `m` holds no message.
    pub fn from_midi(m: &[u8]) -> (r: Result<(BControlSysEx, usize), ParseError>)
        ensures
            spec_decoded_as(r, spec_decode(m@)),
    {
        if m.len() == 0 {
            return Err(ParseError::NoData);
        }
        let b = if m[m.len() - 1] == EOX {
            slice_subrange(m, 0, m.len() - 1)
        } else {
            m
        };
        assert(b@ =~= spec_strip_eox(m@));
        if b.len() < 3 {
            return Err(ParseError::UnexpectedEnd);
        }
        let d: u8 = b[0];
        let device = if d <= DEVICE_MAX {
            DeviceID::Device(d)
        } else if d == DEVICE_ANY {
            DeviceID::Any
        } else {
            return Err(ParseError::InvalidDevice(d));
        };
        let k: u8 = b[1];
        let model = if k == 0x14 {
            BControlModel::BCF
        } else if k == 0x15 {
            BControlModel::BCR
        } else if k == 0x7f {
            BControlModel::Any
        } else {
            return Err(ParseError::BadModel(k));
        };
        match BControlCommand::from_midi(b) {
            Err(e) => Err(e),
            Ok((command, used)) => Ok((BControlSysEx { device, model, command }, used + 3)),
        }
    }

    /// Reads a message from `m` and drops the count of bytes taken.
    pub fn try_from_bytes(m: &[u8]) -> (r: Result<BControlSysEx, ParseError>)
        ensures
            match r {
                Ok(msg) => spec_decode(m@) matches Ok((v, _)) && v == msg@,
                Err(e) => spec_decode(m@) == Err::<(SysExView, nat), ParseError>(e),
            },
    {
        match BControlSysEx::from_midi(m) {
            Ok((msg, _)) => Ok(msg),
            Err(e) => Err(e),
        }
    }
}

/// Reading a message from a MIDI message: only a System Exclusive message
/// of Behringer's holds one.
pub open spec fn spec_decode_event(ev: MidiEventView) -> Result<SysExView, ParseError> {
    match ev {
        MidiEventView::SysEx { manufacturer, data } => if manufacturer == spec_behringer() {
            match spec_decode(data) {
                Ok((msg, _)) => Ok(msg),
                Err(e) => Err(e),
            }
        } else {
            Err(ParseError::NotBehringer)
        },
        _ => Err(ParseError::NotBehringer),
    }
}

impl BControlSysEx {
    /// The message as a System Exclusive message of Behringer's.
    pub fn to_event(&self) -> (r: MidiEvent)
        requires
            spec_encodable(self@.command),
        ensures
            r@ == (MidiEventView::SysEx {
                manufacturer: spec_behringer(),
                data: spec_encode(self@),
            }),
    {
        MidiEvent::SysEx { manufacturer: behringer(), data: self.to_midi() }
    }

    /// Reads a message from a MIDI message.
    pub fn try_from_event(ev: &MidiEvent) -> (r: Result<BControlSysEx, ParseError>)
        ensures
            match r {
                Ok(msg) => spec_decode_event(ev@) == Ok::<SysExView, ParseError>(msg@),
                Err(e) => spec_decode_event(ev@) == Err::<SysExView, ParseError>(e),
            },
    {
        match ev {
            MidiEvent::SysEx { manufacturer, data } => {
                if *manufacturer == behringer() {
                    BControlSysEx::try_from_bytes(data.as_slice())
                } else {
                    Err(ParseError::NotBehringer)
                }
            },
            _ => Err(ParseError::NotBehringer),
        }
    }
}

/// The name of a model, as it is shown to a user.
pub open spec fn spec_model_name(m: BControlModel) -> Seq<char> {
    match m {
        BControlModel::BCR => "BCR"@,
        BControlModel::BCF => "BCF"@,
        BControlModel::Any => "?"@,
    }
}

/// A preset, as it is shown to a user: the slot's number, `all` or `temp`.
pub open spec fn spec_preset_name(p: PresetIndex) -> Seq<char> {
    match p {
        PresetIndex::Preset(n) => spec_decimal(n),
        PresetIndex::All => "all"@,
        PresetIndex::Temporary => "temp"@,
    }
}

/// The preset that a number given by a user stands for: users count the
/// slots from 1 to 32.
pub open spec fn spec_preset_from_number(n: Option<u8>) -> Option<PresetIndex> {
    match n {
        Some(n) => if 1 <= n <= 32 {
            Some(PresetIndex::Preset((n - 1) as u8))
        } else {
            None
        },
        None => None,
    }
}

/// The preset that a text given by a user stands for: `all`, `temp`, or a
/// number from 1 to 32.
pub open spec fn spec_parse_preset(s: Seq<char>) -> Option<PresetIndex> {
    if s == "all"@ {
        Some(PresetIndex::All)
    } else if s == "temp"@ {
        Some(PresetIndex::Temporary)
    } else {
        spec_preset_from_number(str_parse_u8(s))
    }
}

/// A text that names no preset.
#[derive(Debug, Clone, Copy, PartialEq, Eq, Structural)]
pub struct InvalidPresetIndex;

impl BControlModel {
    /// The name of the model.
    pub fn to_string(&self) -> (r: String)
        ensures
            r@ == spec_model_name(*self),
    {
        match self {
            BControlModel::BCR => String::from_str("BCR"),
            BControlModel::BCF => String::from_str("BCF"),
            BControlModel::Any => String::from_str("?"),
        }
    }
}

impl PresetIndex {
    /// The preset as it is shown to a user.
    pub fn to_string(&self) -> (r: String)
        ensures
            r@ == spec_preset_name(*self),
    {
        match self {
            PresetIndex::Preset(n) => decimal(*n),
            PresetIndex::All => String::from_str("all"),
            PresetIndex::Temporary => String::from_str("temp"),
        }
    }

    /// The preset that a user's number stands for, if it is one from 1 to
    /// 32.
    pub fn from_number(n: Option<u8>) -> (r: Result<PresetIndex, InvalidPresetIndex>)
        ensures
            match r {
                Ok(p) => spec_preset_from_number(n) == Some(p),
                Err(_) => spec_preset_from_number(n) is None,
            },
    {
        match n {
            Some(n) => if 1 <= n && n <= 32 {
                Ok(PresetIndex::Preset(n - 1))
            } else {
                Err(InvalidPresetIndex)
            },
            None => Err(InvalidPresetIndex),
        }
    }
}

/// Reads a preset from what a user typed.
pub fn parse_preset_arg(s: &str) -> (r: Result<PresetIndex, InvalidPresetIndex>)
    ensures
        match r {
            Ok(p) => spec_parse_preset(s@) == Some(p),
            Err(_) => spec_parse_preset(s@) is None,
        },
{
    let text = String::from_str(s);
    if text == String::from_str("all") {
        Ok(PresetIndex::All)
    } else if text == String::from_str("temp") {
        Ok(PresetIndex::Temporary)
    } else {
        PresetIndex::from_number(parse_u8(s))
    }
}

} // verus!
