//! The script that describes a device's settings.

use vstd::prelude::*;
use vstd::string::StringExecFns;

use crate::b_control::BControlModel;
use crate::text::{decimal, spec_decimal};

verus! {

/// A script: for which model, of which revision, and its sections.
pub struct BclBlock {
    pub model: BControlModel,
    pub rev: Option<u8>,
    pub sections: Vec<BclSection>,
}

/// One section of a script.
pub enum BclSection {
    Global(GlobalData),
    Preset,
    Button,
    Encoder,
    Fader,
}

/// The settings that concern the device as a whole.
pub struct GlobalData {
    pub midimode: Option<MidiMode>,
    pub startup: Option<u8>,
    pub footsw: Option<()>,
    pub rxch: Option<()>,
    pub device_id: Option<()>,
    pub txinterval: Option<()>,
    pub deadtime: Option<()>,
}

/// The operating modes of the device's MIDI ports.
#[derive(Debug, Clone, Copy, PartialEq, Eq, Structural)]
pub enum MidiMode {
    U1,
    U2,
    U3,
    U4,
    S1,
    S2,
    S3,
    S4,
}

/// The letter that a script's first line gives the model.
pub open spec fn spec_model_letter(model: BControlModel) -> Seq<char> {
    match model {
        BControlModel::BCR => "R"@,
        BControlModel::BCF => "F"@,
        BControlModel::Any => Seq::empty(),
    }
}

/// The text of a script: the revision line, which names the model and, if
/// known, the revision, and the closing line.
pub open spec fn spec_block_text(model: BControlModel, rev: Option<u8>) -> Seq<char> {
    "$rev"@ + spec_model_letter(model) + (match rev {
        Some(r) => spec_decimal(r),
        None => Seq::empty(),
    }) + "\n"@ + "$end\n"@
}

impl BclBlock {
    /// The script as text.
    pub fn to_string(&self) -> (s: String)
        ensures
            s@ == spec_block_text(self.model, self.rev),
    {
        let mut s = String::new();
        s.append("$rev");
        match self.model {
            BControlModel::BCR => s.append("R"),
            BControlModel::BCF => s.append("F"),
            BControlModel::Any => {},
        }
        match self.rev {
            Some(r) => {
                let digits = decimal(r);
                s.append(digits.as_str());
            },
            None => {},
        }
        s.append("\n");
        s.append("$end\n");
        assert(s@ =~= spec_block_text(self.model, self.rev));
        s
    }
}

} // verus!
