//! What the inference core says about its models, as plain values.

use crate::stem::StemId;
use vstd::prelude::*;

verus! {

/// One published model: how it is called, what it separates, and where its
/// weights live.
#[derive(Debug)]
pub struct ModelInfo {
    pub id: String,
    pub label: String,
    pub description: String,
    pub size_mb: u32,
    pub stems: Vec<StemId>,
    pub filename: String,
}

/// The core's lower-case name of each stem, for messages.
#[derive(Debug)]
pub struct StemNames {
    pub drums: String,
    pub bass: String,
    pub other: String,
    pub vocals: String,
    pub guitar: String,
    pub piano: String,
}

impl StemNames {
    /// The name of `id`.
    pub open spec fn of(self, id: StemId) -> Seq<char> {
        match id {
            StemId::Drums => self.drums@,
            StemId::Bass => self.bass@,
            StemId::Other => self.other@,
            StemId::Vocals => self.vocals@,
            StemId::Guitar => self.guitar@,
            StemId::Piano => self.piano@,
        }
    }

    /// Looks up the name of `id`.
    pub fn name(&self, id: StemId) -> (r: &str)
        ensures
            r@ == self.of(id),
    {
        match id {
            StemId::Drums => self.drums.as_str(),
            StemId::Bass => self.bass.as_str(),
            StemId::Other => self.other.as_str(),
            StemId::Vocals => self.vocals.as_str(),
            StemId::Guitar => self.guitar.as_str(),
            StemId::Piano => self.piano.as_str(),
        }
    }
}

/// The three published models, the stem names, and the length of audio the
/// core works on at a time.
#[derive(Debug)]
pub struct ModelCatalog {
    /// The standard four-stem model.
    pub htdemucs: ModelInfo,
    /// The six-stem model.
    pub htdemucs_6s: ModelInfo,
    /// The fine-tuned model, one sub-model per stem.
    pub htdemucs_ft: ModelInfo,
    pub stem_names: StemNames,
    /// Samples per chunk at the models' own rate.
    pub training_length: usize,
}

/// Each stem is looked up under its own name.
pub proof fn each_stem_has_its_own_name(names: StemNames)
    ensures
        names.of(StemId::Drums) == names.drums@,
        names.of(StemId::Bass) == names.bass@,
        names.of(StemId::Other) == names.other@,
        names.of(StemId::Vocals) == names.vocals@,
        names.of(StemId::Guitar) == names.guitar@,
        names.of(StemId::Piano) == names.piano@,
{
}

} // verus!
