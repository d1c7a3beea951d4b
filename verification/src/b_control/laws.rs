//! What holds of the codec as a whole.

use vstd::prelude::*;
use vstd::utf8::{encode_utf8, encode_utf8_decode_utf8, encode_utf8_valid_utf8};

use crate::b_control::wire::{lemma_u14_round_trip, spec_u14_to_midi, ParseError};
use crate::b_control::{
    spec_decode, spec_decode_command, spec_device_byte, spec_encode, spec_encode_command,
    spec_model_byte, spec_opcode, spec_payload, spec_preset_byte, spec_strip_eox, CommandView,
    DeviceID, PresetIndex, SysExView,
};

verus! {

/// Whether a preset names a slot that exists.
pub open spec fn spec_preset_in_range(p: PresetIndex) -> bool {
    p matches PresetIndex::Preset(i) ==> i <= 31
}

/// The messages that come back unchanged from their own encoding: every
/// field lies in the range that its bytes on the wire can carry, and a
/// preset name takes at least three bytes, so that its report is longer
/// than the answer to a script line, which shares its command byte.
pub open spec fn spec_round_trips(m: SysExView) -> bool {
    &&& m.device matches DeviceID::Device(d) ==> d <= 15
    &&& match m.command {
        CommandView::SendBclMessage { msg_index, .. } => msg_index <= 16383,
        CommandView::BclReply { msg_index, error_code } => msg_index <= 16383 && error_code
            <= 127,
        CommandView::FirmwareReply { mem_addr, err } => mem_addr <= 16383 && err <= 127,
        CommandView::SelectPreset { index } => index <= 127,
        CommandView::RequestData(preset) => spec_preset_in_range(preset),
        CommandView::RequestPresetName { preset } => spec_preset_in_range(preset),
        CommandView::SendPresetName { preset, name } => spec_preset_in_range(preset)
            && encode_utf8(name).len() >= 3,
        _ => true,
    }
}

/// Decoding the encoding of a message gives the message back, and takes
/// every byte but the end marker.
pub proof fn lemma_decode_encode(m: SysExView)
    requires
        spec_round_trips(m),
    ensures
        spec_decode(spec_encode(m)) == Ok::<(SysExView, nat), ParseError>(
            (m, (spec_encode(m).len() - 1) as nat),
        ),
{
    let e = spec_encode(m);
    let b = seq![spec_device_byte(m.device), spec_model_byte(m.model)] + spec_encode_command(
        m.command,
    );
    assert(e.last() == 0xf7);
    assert(e.drop_last() =~= b);
    assert(spec_strip_eox(e) == b);
    let p = spec_payload(m.command);
    assert(b.len() == 3 + p.len());
    assert(b[2] == spec_opcode(m.command));
    assert(b.skip(3) =~= p);
    match m.command {
        CommandView::SendBclMessage { msg_index, text } => {
            lemma_u14_round_trip(msg_index);
            encode_utf8_valid_utf8(text);
            encode_utf8_decode_utf8(text);
            assert(p.skip(2) =~= encode_utf8(text));
            assert(p[0] == spec_u14_to_midi(msg_index)[0]);
            assert(p[1] == spec_u14_to_midi(msg_index)[1]);
        },
        CommandView::SendIdentity { id_string } => {
            encode_utf8_valid_utf8(id_string);
            encode_utf8_decode_utf8(id_string);
        },
        CommandView::BclReply { msg_index, error_code } => {
            lemma_u14_round_trip(msg_index);
            assert(p.skip(2) =~= seq![error_code]);
            assert(p[0] == spec_u14_to_midi(msg_index)[0]);
            assert(p[1] == spec_u14_to_midi(msg_index)[1]);
        },
        CommandView::FirmwareReply { mem_addr, err } => {
            lemma_u14_round_trip(mem_addr);
            assert(p.skip(2) =~= seq![err]);
            assert(p[0] == spec_u14_to_midi(mem_addr)[0]);
            assert(p[1] == spec_u14_to_midi(mem_addr)[1]);
        },
        CommandView::SendPresetName { preset, name } => {
            encode_utf8_valid_utf8(name);
            encode_utf8_decode_utf8(name);
            assert(p.skip(1) =~= encode_utf8(name));
            assert(p[0] == spec_preset_byte(preset));
        },
        _ => {},
    }
    assert(spec_decode_command(b) == Ok::<(CommandView, nat), ParseError>((m.command, p.len())));
}

/// A device number above 15 goes on the wire as 15.
pub proof fn lemma_device_clamped(m: SysExView)
    requires
        m.device matches DeviceID::Device(d) && d > 15,
    ensures
        spec_encode(m)[0] == 0x0f,
{
}

/// Command byte `0x21` is read by length: a payload of more than six bytes
/// (the end marker not counted) can only be a preset name, a shorter one
/// only the answer to a script line.
pub proof fn lemma_reply_or_preset_name(m: Seq<u8>)
    requires
        spec_strip_eox(m).len() >= 3,
        spec_strip_eox(m)[2] == 0x21,
    ensures
        spec_decode(m) matches Ok((msg, _)) ==> {
            &&& spec_strip_eox(m).len() > 6 ==> msg.command is SendPresetName
            &&& spec_strip_eox(m).len() <= 6 ==> msg.command is BclReply
        },
{
}

} // verus!
