//! Translation between OSC messages and MIDI control changes.
//!
//! A [`ServerTranslationSet`] holds rules. Each rule ties one control of one
//! MIDI channel to one OSC address, and says how the control's value and
//! the number in the OSC message correspond. What a rule has to offer is
//! the [`Translator`] trait; the rules of this crate are gathered in
//! [`TranslationRule`], which a set holds unless told otherwise.

use rosc::address::{Matcher, OscAddress};
use vstd::prelude::*;

use crate::message::{MidiEvent, MidiEventView};
use crate::translator::ccx::{
    spec_bool_midi_to_osc, spec_bool_osc_to_midi, spec_range_midi_to_osc, spec_range_osc_to_midi,
    BoolView, ControlChangeBoolTranslator, ControlChangeHighResRangeTranslator, ControlShape,
    RangeView, TranslatorError,
};

pub mod ccx;
pub mod ieee;
pub mod laws;
pub mod symmetry;

verus! {

/// One argument of an OSC message, as far as the rules read it.
#[derive(Debug, Clone, Copy, PartialEq, Eq, Structural)]
pub enum OscArg {
    /// A single-precision number, by its bits.
    Float(u32),
    /// An argument of any other type.
    Other,
}

/// An OSC time tag.
#[derive(Debug, Clone, Copy, PartialEq, Eq, Structural)]
pub struct OscTime {
    pub seconds: u32,
    pub fractional: u32,
}

/// An OSC message: an address, or a pattern of addresses, and arguments.
#[derive(Debug, Clone, PartialEq, Eq)]
pub struct OscMessage {
    pub addr: String,
    pub args: Vec<OscArg>,
}

/// Packets to be handled together, at a given time.
#[derive(Debug, PartialEq, Eq)]
pub struct OscBundle {
    pub timetag: OscTime,
    pub content: Vec<OscPacket>,
}

/// What one datagram carries.
#[derive(Debug, PartialEq, Eq)]
pub enum OscPacket {
    Message(OscMessage),
    Bundle(OscBundle),
}

/// A message with its text and arguments as mathematical sequences.
pub struct OscMessageView {
    pub addr: Seq<char>,
    pub args: Seq<OscArg>,
}

/// A packet with its content as mathematical sequences.
pub enum OscPacketView {
    Message(OscMessageView),
    Bundle { timetag: OscTime, content: Seq<OscPacketView> },
}

impl View for OscMessage {
    type V = OscMessageView;

    open spec fn view(&self) -> OscMessageView {
        OscMessageView { addr: self.addr@, args: self.args@ }
    }
}

/// The view of a packet.
pub open spec fn spec_packet_view(p: OscPacket) -> OscPacketView
    decreases p,
{
    match p {
        OscPacket::Message(m) => OscPacketView::Message(m@),
        OscPacket::Bundle(b) => OscPacketView::Bundle {
            timetag: b.timetag,
            content: Seq::new(
                b.content@.len(),
                |i: int|
                    if 0 <= i < b.content@.len() {
                        spec_packet_view(b.content@[i])
                    } else {
                        arbitrary()
                    },
            ),
        },
    }
}

impl View for OscPacket {
    type V = OscPacketView;

    open spec fn view(&self) -> OscPacketView {
        spec_packet_view(*self)
    }
}

/// Whether `address` is an OSC address: what `OscAddress::new` of rosc
/// accepts.
pub uninterp spec fn osc_address_valid(address: Seq<char>) -> bool;

/// Whether `pattern` is an OSC address pattern: what `Matcher::new` of rosc
/// accepts.
pub uninterp spec fn osc_pattern_valid(pattern: Seq<char>) -> bool;

/// Whether the address `address` matches the pattern `pattern`: what
/// `Matcher::match_address` of rosc returns for a matcher made of the one
/// and an address made of the other.
pub uninterp spec fn osc_address_matches(pattern: Seq<char>, address: Seq<char>) -> bool;

/// Whether a message sent to `pattern` reaches `address`. A text that is no
/// pattern reaches nothing, and nothing reaches a text that is no address.
pub open spec fn spec_reaches(pattern: Seq<char>, address: Seq<char>) -> bool {
    osc_pattern_valid(pattern) && osc_address_valid(address) && osc_address_matches(
        pattern,
        address,
    )
}

/// `OscAddress::new` of rosc, asked only whether it accepts `address`.
#[verifier::external_body]
pub(crate) fn is_osc_address(address: &str) -> (r: bool)
    ensures
        r == osc_address_valid(address@),
{
    OscAddress::new(address.to_string()).is_ok()
}

/// `Matcher::match_address` of rosc, on a matcher made by `Matcher::new`
/// from `pattern` and an address made by `OscAddress::new` from `address`.
/// Where one of the two is refused there is nothing to match, and the
/// answer is no.
#[verifier::external_body]
pub(crate) fn osc_reaches(pattern: &str, address: &str) -> (r: bool)
    ensures
        r == (osc_pattern_valid(pattern@) && osc_address_valid(address@) && osc_address_matches(
            pattern@,
            address@,
        )),
{
    match (Matcher::new(pattern), OscAddress::new(address.to_string())) {
        (Ok(matcher), Ok(target)) => matcher.match_address(&target),
        _ => false,
    }
}

/// A rule of one of the kinds that the bridge knows.
#[derive(Debug, Clone, PartialEq, Eq)]
pub enum TranslationRule {
    Range(ControlChangeHighResRangeTranslator),
    Bool(ControlChangeBoolTranslator),
}

/// What a rule is made of.
pub enum RuleView {
    Range(RangeView),
    Bool(BoolView),
}

impl View for TranslationRule {
    type V = RuleView;

    open spec fn view(&self) -> RuleView {
        match *self {
            TranslationRule::Range(r) => RuleView::Range(r@),
            TranslationRule::Bool(r) => RuleView::Bool(r@),
        }
    }
}

/// The OSC message that a rule makes of a MIDI message.
pub open spec fn spec_rule_midi_to_osc(rule: RuleView, ev: MidiEventView) -> Option<
    OscMessageView,
> {
    match rule {
        RuleView::Range(r) => spec_range_midi_to_osc(r, ev),
        RuleView::Bool(r) => spec_bool_midi_to_osc(r, ev),
    }
}

/// The MIDI message that a rule makes of an OSC message.
pub open spec fn spec_rule_osc_to_midi(rule: RuleView, pattern: Seq<char>, args: Seq<OscArg>)
    -> Option<MidiEvent> {
    match rule {
        RuleView::Range(r) => spec_range_osc_to_midi(r, pattern, args),
        RuleView::Bool(r) => spec_bool_osc_to_midi(r, pattern, args),
    }
}

/// What every rule can do: make an OSC message of a MIDI message, and a
/// MIDI message of an OSC message.
pub trait Translator {
    /// The OSC message that the rule makes of a MIDI message, if any.
    spec fn spec_midi_to_osc(&self, midi: MidiEventView) -> Option<OscMessageView>;

    /// The MIDI message that the rule makes of an OSC message sent to
    /// `pattern` with arguments `args`, if any.
    spec fn spec_osc_to_midi(&self, pattern: Seq<char>, args: Seq<OscArg>) -> Option<MidiEvent>;

    /// Translates a MIDI message to an OSC message.
    fn midi_to_osc(&self, midi: &MidiEvent) -> (r: Option<OscPacket>)
        ensures
            r is Some == self.spec_midi_to_osc(midi@) is Some,
            r matches Some(p) ==> p matches OscPacket::Message(m) && Some(m@)
                == self.spec_midi_to_osc(midi@),
    ;

    /// Translates an OSC message to a MIDI message.
    fn osc_to_midi(&self, pattern: &str, args: &[OscArg]) -> (r: Option<MidiEvent>)
        ensures
            r == self.spec_osc_to_midi(pattern@, args@),
    ;
}

/// The OSC messages that the rules make of a MIDI message, in the order of
/// the rules.
pub open spec fn spec_hits<T: Translator>(rules: Seq<T>, ev: MidiEventView) -> Seq<OscMessageView>
    decreases rules.len(),
{
    if rules.len() == 0 {
        Seq::empty()
    } else {
        let before = spec_hits(rules.drop_last(), ev);
        match rules.last().spec_midi_to_osc(ev) {
            Some(m) => before.push(m),
            None => before,
        }
    }
}

/// The time tag that asks for a bundle to be applied at once.
pub open spec fn spec_immediately() -> OscTime {
    OscTime { seconds: 0, fractional: 0 }
}

/// The packet that carries `hits`: none for no message, the message itself
/// for one, and for more a bundle of them, in their order, to be applied at
/// once.
pub open spec fn spec_pack(hits: Seq<OscMessageView>) -> Option<OscPacketView> {
    if hits.len() == 0 {
        None
    } else if hits.len() == 1 {
        Some(OscPacketView::Message(hits[0]))
    } else {
        Some(
            OscPacketView::Bundle {
                timetag: spec_immediately(),
                content: hits.map_values(|m: OscMessageView| OscPacketView::Message(m)),
            },
        )
    }
}

/// The MIDI messages that the rules make of an OSC message, in the order
/// of the rules.
pub open spec fn spec_message_to_midi<T: Translator>(
    rules: Seq<T>,
    pattern: Seq<char>,
    args: Seq<OscArg>,
) -> Seq<MidiEvent>
    decreases rules.len(),
{
    if rules.len() == 0 {
        Seq::empty()
    } else {
        let before = spec_message_to_midi(rules.drop_last(), pattern, args);
        match rules.last().spec_osc_to_midi(pattern, args) {
            Some(ev) => before.push(ev),
            None => before,
        }
    }
}

/// The MIDI messages that the rules make of a packet: those of a message,
/// and for a bundle those of its packets, one packet after the other.
pub open spec fn spec_packet_to_midi<T: Translator>(rules: Seq<T>, p: OscPacketView) -> Seq<
    MidiEvent,
>
    decreases p, 0nat,
{
    match p {
        OscPacketView::Message(m) => spec_message_to_midi(rules, m.addr, m.args),
        OscPacketView::Bundle { content, .. } => spec_packets_to_midi(
            rules,
            content,
            content.len(),
        ),
    }
}

/// The MIDI messages that the rules make of the first `n` of the packets
/// `content`.
pub open spec fn spec_packets_to_midi<T: Translator>(
    rules: Seq<T>,
    content: Seq<OscPacketView>,
    n: nat,
) -> Seq<MidiEvent>
    decreases content, n,
{
    if n == 0 || n > content.len() {
        Seq::empty()
    } else {
        spec_packets_to_midi(rules, content, (n - 1) as nat) + spec_packet_to_midi(
            rules,
            content[n - 1],
        )
    }
}

/// The views of some rules.
pub open spec fn spec_rule_views(rules: Seq<TranslationRule>) -> Seq<RuleView> {
    rules.map_values(|r: TranslationRule| r@)
}

impl TranslationRule {
    /// Translates a MIDI message to the OSC message that this rule makes of
    /// it, if any.
    pub fn midi_to_osc(&self, midi: &MidiEvent) -> (r: Option<OscPacket>)
        ensures
            r is Some == spec_rule_midi_to_osc(self@, midi@) is Some,
            r matches Some(p) ==> p matches OscPacket::Message(m) && Some(m@)
                == spec_rule_midi_to_osc(self@, midi@),
    {
        match self {
            TranslationRule::Range(rule) => rule.midi_to_osc(midi),
            TranslationRule::Bool(rule) => rule.midi_to_osc(midi),
        }
    }

    /// Translates an OSC message to the MIDI message that this rule makes of
    /// it, if any.
    pub fn osc_to_midi(&self, pattern: &str, args: &[OscArg]) -> (r: Option<MidiEvent>)
        ensures
            r == spec_rule_osc_to_midi(self@, pattern@, args@),
    {
        match self {
            TranslationRule::Range(rule) => rule.osc_to_midi(pattern, args),
            TranslationRule::Bool(rule) => rule.osc_to_midi(pattern, args),
        }
    }
}

impl Translator for TranslationRule {
    open spec fn spec_midi_to_osc(&self, midi: MidiEventView) -> Option<OscMessageView> {
        spec_rule_midi_to_osc(self@, midi)
    }

    open spec fn spec_osc_to_midi(&self, pattern: Seq<char>, args: Seq<OscArg>) -> Option<
        MidiEvent,
    > {
        spec_rule_osc_to_midi(self@, pattern, args)
    }

    fn midi_to_osc(&self, midi: &MidiEvent) -> (r: Option<OscPacket>) {
        TranslationRule::midi_to_osc(self, midi)
    }

    fn osc_to_midi(&self, pattern: &str, args: &[OscArg]) -> (r: Option<MidiEvent>) {
        TranslationRule::osc_to_midi(self, pattern, args)
    }
}

/// A set of translations between OSC and MIDI messages. The order of the
/// rules is the order of what they produce.
pub struct ServerTranslationSet<T: Translator = TranslationRule>(Vec<T>);

impl<T: Translator> ServerTranslationSet<T> {
    /// The rules, in order.
    pub closed spec fn rules(&self) -> Seq<T> {
        self.0@
    }

    /// A set of the rules `set`.
    pub fn new(set: Vec<T>) -> (r: ServerTranslationSet<T>)
        ensures
            r.rules() == set@,
    {
        ServerTranslationSet(set)
    }

    /// The number of rules.
    pub fn len(&self) -> (r: usize)
        ensures
            r == self.rules().len(),
    {
        self.0.len()
    }
}

/// The views of some packets.
pub open spec fn spec_packet_views(packets: Seq<OscPacket>) -> Seq<OscPacketView> {
    Seq::new(packets.len(), |i: int| packets[i]@)
}

/// What [`ServerTranslationSet::midi_msg_to_osc`] returned, held against
/// the packet that is due.
pub open spec fn spec_packed_as(r: Option<OscPacket>, due: Option<OscPacketView>) -> bool {
    match r {
        Some(p) => due == Some(p@),
        None => due is None,
    }
}

impl ServerTranslationSet<TranslationRule> {
    /// The rules of the example surface: `/encoder/1` follows control 1 of
    /// channel 1 over the values 0 to 127, and `/key/1` follows control 65 of
    /// channel 1 as a switch with the values 0 and 127.
    pub fn get_test_set() -> (r: Result<ServerTranslationSet, TranslatorError>)
        ensures
            r is Ok <==> osc_address_valid("/encoder/1"@) && osc_address_valid("/key/1"@),
            r matches Ok(set) ==> spec_rule_views(set.rules()) == seq![
                RuleView::Range(
                    RangeView {
                        channel: 0,
                        control: 1,
                        shape: ControlShape::Simple,
                        low: 0,
                        high: 127,
                        address: "/encoder/1"@,
                    },
                ),
                RuleView::Bool(
                    BoolView {
                        channel: 0,
                        control: 65,
                        shape: ControlShape::Simple,
                        off: 0,
                        on: 127,
                        address: "/key/1"@,
                    },
                ),
            ],
            r matches Err(e) ==> e == TranslatorError::BadAddress,
    {
        let encoder = match ControlChangeHighResRangeTranslator::with_shape(
            0,
            1,
            ControlShape::Simple,
            0,
            127,
            "/encoder/1",
        ) {
            Ok(rule) => rule,
            Err(e) => {
                return Err(e);
            },
        };
        let key = match ControlChangeBoolTranslator::new(0, 65, 0, 127, "/key/1") {
            Ok(rule) => rule,
            Err(e) => {
                return Err(e);
            },
        };
        let mut set: Vec<TranslationRule> = Vec::new();
        set.push(TranslationRule::Range(encoder));
        set.push(TranslationRule::Bool(key));
        let r = ServerTranslationSet::new(set);
        assert(spec_rule_views(r.rules()) =~= seq![RuleView::Range(encoder@), RuleView::Bool(key@)]);
        Ok(r)
    }

}

impl<T: Translator> ServerTranslationSet<T> {
    /// Translates a MIDI message to an OSC packet: nothing if no rule
    /// answers, the one message if one does, and a bundle of all messages,
    /// in the order of the rules, if several do.
    pub fn midi_msg_to_osc(&self, midi_msg: &MidiEvent) -> (r: Option<OscPacket>)
        ensures
            spec_packed_as(r, spec_pack(spec_hits(self.rules(), midi_msg@))),
    {
        let mut msgs: Vec<OscPacket> = Vec::new();
        let n: usize = self.0.len();
        let mut i: usize = 0;
        let ghost rules = self.rules();
        assert(rules.take(0) =~= Seq::<T>::empty());
        while i < n
            invariant
                i <= n,
                n == self.0@.len(),
                rules == self.rules(),
                rules.len() == n,
                spec_packet_views(msgs@) == spec_hits(rules.take(i as int), midi_msg@).map_values(
                    |m: OscMessageView| OscPacketView::Message(m),
                ),
            decreases n - i,
        {
            let ghost before = spec_hits(rules.take(i as int), midi_msg@);
            assert(rules.take(i + 1).drop_last() =~= rules.take(i as int));
            assert(rules.take(i + 1).last() == self.0@[i as int]);
            match self.0[i].midi_to_osc(midi_msg) {
                Some(p) => {
                    let ghost old_msgs = msgs@;
                    msgs.push(p);
                    assert(spec_packet_views(msgs@) =~= spec_packet_views(old_msgs).push(p@));
                    assert(spec_hits(rules.take(i + 1), midi_msg@).map_values(
                        |m: OscMessageView| OscPacketView::Message(m),
                    ) =~= before.map_values(|m: OscMessageView| OscPacketView::Message(m)).push(
                        p@,
                    ));
                },
                None => {},
            }
            i = i + 1;
        }
        assert(rules.take(n as int) =~= rules);
        let ghost hits = spec_hits(rules, midi_msg@);
        assert(spec_packet_views(msgs@).len() == hits.len());
        if msgs.len() == 0 {
            None
        } else if msgs.len() == 1 {
            let ghost all = msgs@;
            let p = msgs.pop();
            assert(p->0@ == spec_packet_views(all)[0]);
            p
        } else {
            let bundle = OscPacket::Bundle(
                OscBundle { timetag: OscTime { seconds: 0, fractional: 0 }, content: msgs },
            );
            assert(bundle@->Bundle_content =~= spec_packet_views(msgs@));
            Some(bundle)
        }
    }
}

impl<T: Translator> ServerTranslationSet<T> {
    /// Translates an OSC message, sent to `pattern` with arguments `args`,
    /// to the MIDI messages that the rules make of it, in their order.
    pub fn osc_msg_to_midi(&self, pattern: &str, args: &[OscArg]) -> (r: Vec<MidiEvent>)
        ensures
            r@ == spec_message_to_midi(self.rules(), pattern@, args@),
    {
        let mut out: Vec<MidiEvent> = Vec::new();
        let n: usize = self.0.len();
        let mut i: usize = 0;
        let ghost rules = self.rules();
        assert(rules.take(0) =~= Seq::<T>::empty());
        while i < n
            invariant
                i <= n,
                n == self.0@.len(),
                rules == self.rules(),
                rules.len() == n,
                out@ == spec_message_to_midi(rules.take(i as int), pattern@, args@),
            decreases n - i,
        {
            assert(rules.take(i + 1).drop_last() =~= rules.take(i as int));
            assert(rules.take(i + 1).last() == self.0@[i as int]);
            match self.0[i].osc_to_midi(pattern, args) {
                Some(ev) => {
                    out.push(ev);
                },
                None => {},
            }
            i = i + 1;
        }
        assert(rules.take(n as int) =~= rules);
        out
    }

    /// Translates an OSC packet to the MIDI messages that the rules make of
    /// it: those of a message in the order of the rules, those of a bundle
    /// packet by packet, in the order of the bundle.
    pub fn osc_pkt_to_midi(&self, op: &OscPacket) -> (r: Vec<MidiEvent>)
        ensures
            r@ == spec_packet_to_midi(self.rules(), op@),
        decreases op,
    {
        match op {
            OscPacket::Message(om) => self.osc_msg_to_midi(om.addr.as_str(), om.args.as_slice()),
            OscPacket::Bundle(b) => {
                let mut out: Vec<MidiEvent> = Vec::new();
                let n: usize = b.content.len();
                let mut i: usize = 0;
                let ghost content = op@->Bundle_content;
                assert(content.len() == n);
                while i < n
                    invariant
                        i <= n,
                        n == b.content@.len(),
                        op == OscPacket::Bundle(*b),
                        content == op@->Bundle_content,
                        content.len() == n,
                        out@ == spec_packets_to_midi(self.rules(), content, i as nat),
                    decreases n - i,
                {
                    assert(content[i as int] == b.content@[i as int]@);
                    let mut sub = self.osc_pkt_to_midi(&b.content[i]);
                    out.append(&mut sub);
                    i = i + 1;
                }
                out
            },
        }
    }
}

} // verus!
