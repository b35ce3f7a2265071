//! Stems: the sources a mix is separated into.

use vstd::prelude::*;

verus! {

/// A stem as the inference core names it.
#[derive(Debug, Clone, Copy, PartialEq, Eq, Structural)]
pub enum StemId {
    Drums,
    Bass,
    Other,
    Vocals,
    Guitar,
    Piano,
}

/// A stem as it crosses the language boundary.
#[derive(Debug, Clone, Copy, PartialEq, Eq, Structural)]
pub enum FfiStemKind {
    Drums,
    Bass,
    Other,
    Vocals,
    Guitar,
    Piano,
}

/// The boundary's name for a core stem.
pub open spec fn kind_of(id: StemId) -> FfiStemKind {
    match id {
        StemId::Drums => FfiStemKind::Drums,
        StemId::Bass => FfiStemKind::Bass,
        StemId::Other => FfiStemKind::Other,
        StemId::Vocals => FfiStemKind::Vocals,
        StemId::Guitar => FfiStemKind::Guitar,
        StemId::Piano => FfiStemKind::Piano,
    }
}

/// The core's name for a boundary stem.
pub open spec fn id_of(kind: FfiStemKind) -> StemId {
    match kind {
        FfiStemKind::Drums => StemId::Drums,
        FfiStemKind::Bass => StemId::Bass,
        FfiStemKind::Other => StemId::Other,
        FfiStemKind::Vocals => StemId::Vocals,
        FfiStemKind::Guitar => StemId::Guitar,
        FfiStemKind::Piano => StemId::Piano,
    }
}

/// The boundary's names for a list of core stems, in the same order.
pub open spec fn kinds_of(ids: Seq<StemId>) -> Seq<FfiStemKind> {
    Seq::new(ids.len(), |i: int| kind_of(ids[i]))
}

/// The core's names for a list of boundary stems, in the same order.
pub open spec fn ids_of(kinds: Seq<FfiStemKind>) -> Seq<StemId> {
    Seq::new(kinds.len(), |i: int| id_of(kinds[i]))
}

impl From<StemId> for FfiStemKind {
    fn from(value: StemId) -> (r: FfiStemKind) {
        match value {
            StemId::Drums => FfiStemKind::Drums,
            StemId::Bass => FfiStemKind::Bass,
            StemId::Other => FfiStemKind::Other,
            StemId::Vocals => FfiStemKind::Vocals,
            StemId::Guitar => FfiStemKind::Guitar,
            StemId::Piano => FfiStemKind::Piano,
        }
    }
}

impl vstd::std_specs::convert::FromSpecImpl<StemId> for FfiStemKind {
    open spec fn obeys_from_spec() -> bool {
        true
    }

    open spec fn from_spec(value: StemId) -> FfiStemKind {
        kind_of(value)
    }
}

impl From<FfiStemKind> for StemId {
    fn from(value: FfiStemKind) -> (r: StemId) {
        match value {
            FfiStemKind::Drums => StemId::Drums,
            FfiStemKind::Bass => StemId::Bass,
            FfiStemKind::Other => StemId::Other,
            FfiStemKind::Vocals => StemId::Vocals,
            FfiStemKind::Guitar => StemId::Guitar,
            FfiStemKind::Piano => StemId::Piano,
        }
    }
}

impl vstd::std_specs::convert::FromSpecImpl<FfiStemKind> for StemId {
    open spec fn obeys_from_spec() -> bool {
        true
    }

    open spec fn from_spec(value: FfiStemKind) -> StemId {
        id_of(value)
    }
}

/// Renames a list of core stems for the boundary, keeping order and repeats.
pub fn stem_kinds(ids: &Vec<StemId>) -> (r: Vec<FfiStemKind>)
    ensures
        r@ == kinds_of(ids@),
{
    let mut kinds: Vec<FfiStemKind> = Vec::with_capacity(ids.len());
    for i in 0..ids.len()
        invariant
            kinds@ == kinds_of(ids@.take(i as int)),
    {
        kinds.push(FfiStemKind::from(ids[i]));
        assert(kinds@ =~= kinds_of(ids@.take(i + 1)));
    }
    assert(ids@.take(ids@.len() as int) =~= ids@);
    kinds
}

/// One separated source as the inference core returns it. `S` is the sample
/// type.
#[derive(Debug)]
pub struct Stem<S> {
    pub id: StemId,
    pub left: Vec<S>,
    pub right: Vec<S>,
}

/// One separated source. `left` and `right` are at the input sample rate and
/// have the same length as the input channels.
#[derive(Debug, Clone)]
pub struct FfiStem<S> {
    pub kind: FfiStemKind,
    pub left: Vec<S>,
    pub right: Vec<S>,
}

impl<S> From<Stem<S>> for FfiStem<S> {
    fn from(value: Stem<S>) -> (r: FfiStem<S>) {
        FfiStem { kind: FfiStemKind::from(value.id), left: value.left, right: value.right }
    }
}

impl<S> vstd::std_specs::convert::FromSpecImpl<Stem<S>> for FfiStem<S> {
    open spec fn obeys_from_spec() -> bool {
        true
    }

    open spec fn from_spec(value: Stem<S>) -> FfiStem<S> {
        FfiStem { kind: kind_of(value.id), left: value.left, right: value.right }
    }
}

/// Renaming a stem in either direction and back gives the same stem, so no
/// two stems share a name on either side.
pub proof fn stem_names_correspond(id: StemId, kind: FfiStemKind)
    ensures
        id_of(kind_of(id)) == id,
        kind_of(id_of(kind)) == kind,
        kind_of(id) == kind <==> id == id_of(kind),
{
}

/// Renaming a whole list in either direction and back gives the same list.
pub proof fn stem_lists_correspond(ids: Seq<StemId>, kinds: Seq<FfiStemKind>)
    ensures
        ids_of(kinds_of(ids)) == ids,
        kinds_of(ids_of(kinds)) == kinds,
{
    assert(ids_of(kinds_of(ids)) =~= ids);
    assert(kinds_of(ids_of(kinds)) =~= kinds);
}

/// A stem goes by the same name on both sides of the boundary.
pub proof fn stems_go_by_the_same_name(id: StemId)
    ensures
        id is Drums <==> kind_of(id) is Drums,
        id is Bass <==> kind_of(id) is Bass,
        id is Other <==> kind_of(id) is Other,
        id is Vocals <==> kind_of(id) is Vocals,
        id is Guitar <==> kind_of(id) is Guitar,
        id is Piano <==> kind_of(id) is Piano,
{
}

/// Renaming a list renames each stem where it stands: nothing is added, left
/// out or moved, in either direction.
pub proof fn stem_lists_are_renamed_in_place(ids: Seq<StemId>, kinds: Seq<FfiStemKind>)
    ensures
        kinds_of(ids).len() == ids.len(),
        forall|i: int| 0 <= i < ids.len() ==> id_of(#[trigger] kinds_of(ids)[i]) == ids[i],
        ids_of(kinds).len() == kinds.len(),
        forall|i: int| 0 <= i < kinds.len() ==> kind_of(#[trigger] ids_of(kinds)[i]) == kinds[i],
{
}

/// A separated source keeps its samples and the name of its stem.
pub proof fn separated_sources_keep_their_samples<S>(stem: Stem<S>, separated: FfiStem<S>)
    requires
        call_ensures(<FfiStem<S> as From<Stem<S>>>::from, (stem,), separated),
    ensures
        separated.left == stem.left,
        separated.right == stem.right,
        id_of(separated.kind) == stem.id,
{
}

/// Converting a stem gives the stem of the same name on the other side.
pub proof fn conversions_keep_the_stem(id: StemId, kind: FfiStemKind, to: FfiStemKind, back: StemId)
    requires
        call_ensures(<FfiStemKind as From<StemId>>::from, (id,), to),
        call_ensures(<StemId as From<FfiStemKind>>::from, (kind,), back),
    ensures
        to == kind_of(id),
        back == id_of(kind),
        to == kind <==> back == id,
{
}

} // verus!
