//! What holds of the rules and of a set of them.

use vstd::prelude::*;

use crate::message::{ControlChange, ControlValue, MidiEvent, MidiEventView};
use crate::translator::ccx::{spec_bool_midi_to_osc, spec_bool_osc_to_midi, BoolView};
use crate::translator::{
    spec_hits, spec_immediately, spec_message_to_midi, spec_pack, OscArg, OscMessageView,
    OscPacketView, Translator,
};

verus! {

/// The number that a control change carries, whatever its width; a switch
/// carries none.
pub open spec fn spec_number_of(cc: ControlChange) -> Option<int> {
    match cc.value {
        ControlValue::HighRes(v) => Some(v as int),
        ControlValue::Simple(v) => Some(v as int),
        ControlValue::Toggle(_) => None,
    }
}

/// A switch rule sends one of its two values and never one between: what
/// it makes of an OSC message is a change of its control, on its channel,
/// to `off` or to `on`.
pub proof fn lemma_switch_sends_off_or_on(rule: BoolView, pattern: Seq<char>, args: Seq<OscArg>)
    ensures
        spec_bool_osc_to_midi(rule, pattern, args) matches Some(ev) ==> ev matches MidiEvent::ControlChange {
            channel,
            control,
        } && channel == rule.channel && control.control == rule.control && (spec_number_of(control)
            == Some(rule.off as int) || spec_number_of(control) == Some(rule.on as int)),
{
}

/// A switch rule answers a change of its control with 0.0 or 1.0, and
/// with nothing else.
pub proof fn lemma_switch_shows_zero_or_one(rule: BoolView, ev: MidiEventView)
    ensures
        spec_bool_midi_to_osc(rule, ev) matches Some(m) ==> m.addr == rule.address && (m.args
            == seq![OscArg::Float(0u32)] || m.args == seq![OscArg::Float(0x3f80_0000u32)]),
{
}

/// Two rules that both answer a MIDI message give a bundle of their two
/// messages, the first rule's first, to be applied at once.
pub proof fn lemma_two_hits_make_a_bundle<T: Translator>(first: T, second: T, ev: MidiEventView)
    requires
        first.spec_midi_to_osc(ev) is Some,
        second.spec_midi_to_osc(ev) is Some,
    ensures
        spec_pack(spec_hits(seq![first, second], ev)) == Some(
            OscPacketView::Bundle {
                timetag: spec_immediately(),
                content: seq![
                    OscPacketView::Message(first.spec_midi_to_osc(ev)->0),
                    OscPacketView::Message(second.spec_midi_to_osc(ev)->0),
                ],
            },
        ),
{
    let rules = seq![first, second];
    assert(rules.drop_last() =~= seq![first]);
    assert(seq![first].drop_last() =~= Seq::<T>::empty());
    reveal_with_fuel(spec_hits, 3);
    let hits = spec_hits(rules, ev);
    assert(hits =~= seq![
        first.spec_midi_to_osc(ev)->0,
        second.spec_midi_to_osc(ev)->0,
    ]);
    assert(hits.map_values(|m: OscMessageView| OscPacketView::Message(m)) =~= seq![
        OscPacketView::Message(first.spec_midi_to_osc(ev)->0),
        OscPacketView::Message(second.spec_midi_to_osc(ev)->0),
    ]);
}

/// What the rules make of a MIDI message stays in the order of the rules
/// when a rule is added at the end: the new rule's message, if it has one,
/// comes last.
pub proof fn lemma_hits_keep_rule_order<T: Translator>(rules: Seq<T>, rule: T, ev: MidiEventView)
    ensures
        spec_hits(rules.push(rule), ev) == match rule.spec_midi_to_osc(ev) {
            Some(m) => spec_hits(rules, ev).push(m),
            None => spec_hits(rules, ev),
        },
{
    assert(rules.push(rule).drop_last() =~= rules);
}

/// The same for what the rules make of an OSC message.
pub proof fn lemma_midi_keeps_rule_order<T: Translator>(
    rules: Seq<T>,
    rule: T,
    pattern: Seq<char>,
    args: Seq<OscArg>,
)
    ensures
        spec_message_to_midi(rules.push(rule), pattern, args) == match rule.spec_osc_to_midi(
            pattern,
            args,
        ) {
            Some(ev) => spec_message_to_midi(rules, pattern, args).push(ev),
            None => spec_message_to_midi(rules, pattern, args),
        },
{
    assert(rules.push(rule).drop_last() =~= rules);
}

} // verus!
