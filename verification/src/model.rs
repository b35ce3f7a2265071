//! Choosing a model: variants, load options and metadata.

use crate::catalog::{ModelCatalog, ModelInfo};
use crate::error::FfiDemucsError;
use crate::stem::{stem_kinds, FfiStemKind, StemId};
use vstd::prelude::*;

verus! {

/// Which model variant to download or load.
///
/// `FineTuned` runs one sub-model per requested stem, so asking for fewer
/// stems is proportionally faster. It only knows the stems that the catalog
/// lists for it; an empty list or any other stem is rejected at load time.
#[derive(Debug, PartialEq, Eq)]
pub enum FfiDemucsModel {
    FourStem,
    SixStem,
    FineTuned { stems: Vec<FfiStemKind> },
}

/// A model variant as a mathematical value.
pub enum ModelView {
    FourStem,
    SixStem,
    FineTuned { stems: Seq<FfiStemKind> },
}

impl View for FfiDemucsModel {
    type V = ModelView;

    open spec fn view(&self) -> ModelView {
        match *self {
            FfiDemucsModel::FourStem => ModelView::FourStem,
            FfiDemucsModel::SixStem => ModelView::SixStem,
            FfiDemucsModel::FineTuned { stems } => ModelView::FineTuned { stems: stems@ },
        }
    }
}

impl Clone for FfiDemucsModel {
    fn clone(&self) -> (r: FfiDemucsModel)
        ensures
            r@ == self@,
    {
        match self {
            FfiDemucsModel::FourStem => FfiDemucsModel::FourStem,
            FfiDemucsModel::SixStem => FfiDemucsModel::SixStem,
            FfiDemucsModel::FineTuned { stems } => {
                let copy = stems.clone();
                assert(copy@ =~= stems@);
                FfiDemucsModel::FineTuned { stems: copy }
            },
        }
    }
}

/// What the inference core is asked to load.
#[derive(Debug, PartialEq, Eq)]
pub enum ModelOptions {
    FourStem,
    SixStem,
    FineTuned(Vec<StemId>),
}

/// Load options as a mathematical value.
pub enum OptionsView {
    FourStem,
    SixStem,
    FineTuned(Seq<StemId>),
}

impl View for ModelOptions {
    type V = OptionsView;

    open spec fn view(&self) -> OptionsView {
        match *self {
            ModelOptions::FourStem => OptionsView::FourStem,
            ModelOptions::SixStem => OptionsView::SixStem,
            ModelOptions::FineTuned(stems) => OptionsView::FineTuned(stems@),
        }
    }
}

/// `stems` with every repeat left out: each stem stands where it first occurs.
pub open spec fn first_occurrences(stems: Seq<StemId>) -> Seq<StemId>
    decreases stems.len(),
{
    if stems.len() == 0 {
        Seq::empty()
    } else {
        let before = first_occurrences(stems.drop_last());
        if before.contains(stems.last()) {
            before
        } else {
            before.push(stems.last())
        }
    }
}

/// Stem `i` of `stems` is the first that `supported` does not list.
pub open spec fn first_unsupported(stems: Seq<StemId>, supported: Seq<StemId>, i: int) -> bool {
    &&& 0 <= i < stems.len()
    &&& !supported.contains(stems[i])
    &&& forall|j: int| 0 <= j < i ==> supported.contains(#[trigger] stems[j])
}

/// Every stem of `stems` is listed in `supported`.
pub open spec fn all_supported(stems: Seq<StemId>, supported: Seq<StemId>) -> bool {
    forall|i: int| 0 <= i < stems.len() ==> supported.contains(#[trigger] stems[i])
}

impl ModelView {
    /// The catalog entry of this variant.
    pub open spec fn info(self, catalog: ModelCatalog) -> ModelInfo {
        match self {
            ModelView::FourStem => catalog.htdemucs,
            ModelView::SixStem => catalog.htdemucs_6s,
            ModelView::FineTuned { .. } => catalog.htdemucs_ft,
        }
    }

    /// The variant can be loaded: a fine-tuned selection names at least one
    /// stem and only stems that the fine-tuned model has.
    pub open spec fn loadable(self, catalog: ModelCatalog) -> bool {
        match self {
            ModelView::FineTuned { stems } => stems.len() > 0 && all_supported(
                crate::stem::ids_of(stems),
                catalog.htdemucs_ft.stems@,
            ),
            _ => true,
        }
    }

    /// The options a loadable variant stands for.
    pub open spec fn options(self) -> OptionsView {
        match self {
            ModelView::FourStem => OptionsView::FourStem,
            ModelView::SixStem => OptionsView::SixStem,
            ModelView::FineTuned { stems } => OptionsView::FineTuned(
                first_occurrences(crate::stem::ids_of(stems)),
            ),
        }
    }

    /// Why a variant that is not loadable is rejected: the first stem that
    /// the fine-tuned model lacks, or that none was asked for.
    pub open spec fn rejection(self, catalog: ModelCatalog, reason: Seq<char>) -> bool {
        match self {
            ModelView::FineTuned { stems } => {
                let ids = crate::stem::ids_of(stems);
                if stems.len() == 0 {
                    reason == "the fine-tuned model needs at least one stem"@
                } else {
                    exists|i: int|
                        #![trigger ids[i]]
                        first_unsupported(ids, catalog.htdemucs_ft.stems@, i) && reason
                            == "the fine-tuned model has no "@ + catalog.stem_names.of(ids[i])
                            + " stem"@
                }
            },
            _ => false,
        }
    }
}

/// Whether `stems` lists `id`.
fn lists(stems: &Vec<StemId>, id: StemId) -> (r: bool)
    ensures
        r == stems@.contains(id),
{
    for i in 0..stems.len()
        invariant
            forall|j: int| 0 <= j < i ==> stems@[j] != id,
    {
        if stems[i] == id {
            return true;
        }
    }
    false
}

impl FfiDemucsModel {
    /// The catalog entry of this variant.
    pub fn info<'a>(&self, catalog: &'a ModelCatalog) -> (r: &'a ModelInfo)
        ensures
            *r == self@.info(*catalog),
    {
        match self {
            FfiDemucsModel::FourStem => &catalog.htdemucs,
            FfiDemucsModel::SixStem => &catalog.htdemucs_6s,
            FfiDemucsModel::FineTuned { .. } => &catalog.htdemucs_ft,
        }
    }

    /// The options to load this variant with. A fine-tuned selection loses
    /// its repeats; an empty one, or one with a stem that the fine-tuned model
    /// lacks, is refused.
    pub fn options(&self, catalog: &ModelCatalog) -> (r: Result<ModelOptions, FfiDemucsError>)
        ensures
            r is Ok <==> self@.loadable(*catalog),
            r matches Ok(options) ==> options@ == self@.options(),
            r matches Err(error) ==> {
                &&& error matches FfiDemucsError::InvalidInput { reason }
                &&& self@.rejection(*catalog, reason@)
            },
    {
        match self {
            FfiDemucsModel::FourStem => Ok(ModelOptions::FourStem),
            FfiDemucsModel::SixStem => Ok(ModelOptions::SixStem),
            FfiDemucsModel::FineTuned { stems } => {
                let supported = &catalog.htdemucs_ft.stems;
                let ghost ids = crate::stem::ids_of(stems@);
                let mut selected: Vec<StemId> = Vec::with_capacity(stems.len());
                for i in 0..stems.len()
                    invariant
                        self@ == (ModelView::FineTuned { stems: stems@ }),
                        supported == catalog.htdemucs_ft.stems,
                        ids == crate::stem::ids_of(stems@),
                        forall|j: int| 0 <= j < i ==> supported@.contains(#[trigger] ids[j]),
                        selected@ == first_occurrences(ids.take(i as int)),
                        i > 0 ==> selected@.len() > 0,
                {
                    let id = StemId::from(stems[i]);
                    assert(id == ids[i as int]);
                    if !lists(supported, id) {
                        assert(first_unsupported(ids, supported@, i as int));
                        return Err(
                            FfiDemucsError::InvalidInput {
                                reason: "the fine-tuned model has no ".to_owned().concat(
                                    catalog.stem_names.name(id),
                                ).concat(" stem"),
                            },
                        );
                    }
                    assert(ids.take(i + 1).drop_last() =~= ids.take(i as int));
                    assert(ids.take(i + 1).last() == id);
                    if !lists(&selected, id) {
                        selected.push(id);
                    }
                }
                assert(ids.take(ids.len() as int) =~= ids);
                if selected.len() == 0 {
                    return Err(
                        FfiDemucsError::InvalidInput {
                            reason: "the fine-tuned model needs at least one stem".to_owned(),
                        },
                    );
                }
                Ok(ModelOptions::FineTuned(selected))
            },
        }
    }
}

/// A model variant together with what the catalog says about it.
#[derive(Debug, Clone)]
pub struct FfiModelMetadata {
    pub model: FfiDemucsModel,
    pub id: String,
    pub label: String,
    pub description: String,
    pub size_mb: u32,
    pub stems: Vec<FfiStemKind>,
}

impl FfiModelMetadata {
    /// The record describes `model` as `catalog` does.
    pub open spec fn describes(self, model: ModelView, catalog: ModelCatalog) -> bool {
        let info = model.info(catalog);
        &&& self.model@ == model
        &&& self.id@ == info.id@
        &&& self.label@ == info.label@
        &&& self.description@ == info.description@
        &&& self.size_mb == info.size_mb
        &&& self.stems@ == crate::stem::kinds_of(info.stems@)
    }

    /// Describes `model`.
    pub fn new(model: FfiDemucsModel, catalog: &ModelCatalog) -> (r: FfiModelMetadata)
        ensures
            r.describes(model@, *catalog),
            r.model == model,
    {
        let info = model.info(catalog);
        FfiModelMetadata {
            id: info.id.clone(),
            label: info.label.clone(),
            description: info.description.clone(),
            size_mb: info.size_mb,
            stems: stem_kinds(&info.stems),
            model,
        }
    }
}

/// The variants on offer, in catalog order; the fine-tuned one with every
/// stem it has.
pub open spec fn offered(catalog: ModelCatalog) -> Seq<ModelView> {
    seq![
        ModelView::FourStem,
        ModelView::SixStem,
        ModelView::FineTuned { stems: crate::stem::kinds_of(catalog.htdemucs_ft.stems@) },
    ]
}

/// Describes every variant on offer.
pub fn all_models(catalog: &ModelCatalog) -> (r: Vec<FfiModelMetadata>)
    ensures
        r@.len() == offered(*catalog).len(),
        forall|i: int|
            0 <= i < r@.len() ==> (#[trigger] r@[i]).describes(offered(*catalog)[i], *catalog),
{
    let mut models: Vec<FfiModelMetadata> = Vec::with_capacity(3);
    models.push(FfiModelMetadata::new(FfiDemucsModel::FourStem, catalog));
    models.push(FfiModelMetadata::new(FfiDemucsModel::SixStem, catalog));
    models.push(
        FfiModelMetadata::new(
            FfiDemucsModel::FineTuned { stems: stem_kinds(&catalog.htdemucs_ft.stems) },
            catalog,
        ),
    );
    models
}

/// Describes one variant.
pub fn model_metadata(model: FfiDemucsModel, catalog: &ModelCatalog) -> (r: FfiModelMetadata)
    ensures
        r.describes(model@, *catalog),
        r.model == model,
{
    FfiModelMetadata::new(model, catalog)
}

/// Leaving out repeats keeps exactly the stems that were asked for, each of
/// them once.
pub proof fn first_occurrences_keeps_the_stems(stems: Seq<StemId>)
    ensures
        first_occurrences(stems).no_duplicates(),
        forall|id: StemId| first_occurrences(stems).contains(id) <==> #[trigger] stems.contains(id),
        first_occurrences(stems).len() <= stems.len(),
        stems.len() > 0 ==> first_occurrences(stems).len() > 0,
    decreases stems.len(),
{
    if stems.len() > 0 {
        let init = stems.drop_last();
        let before = first_occurrences(init);
        first_occurrences_keeps_the_stems(init);
        assert forall|id: StemId|
            first_occurrences(stems).contains(id) <==> #[trigger] stems.contains(id) by {
            assert(stems == init.push(stems.last()));
            if stems.contains(id) {
                let k = stems.index_of(id);
                if k < init.len() {
                    assert(init[k] == id);
                    assert(init.contains(id));
                }
                if first_occurrences(stems) != before {
                    assert(first_occurrences(stems)[before.len() as int] == stems.last());
                    if before.contains(id) {
                        let b = before.index_of(id);
                        assert(first_occurrences(stems)[b] == id);
                    }
                }
            }
            if first_occurrences(stems).contains(id) {
                let k = first_occurrences(stems).index_of(id);
                if k < before.len() {
                    assert(before[k] == id);
                    assert(init.contains(id));
                    let i = init.index_of(id);
                    assert(stems[i] == id);
                } else {
                    assert(stems[stems.len() - 1] == id);
                }
            }
        }
    }
}

/// What the selection holds after some of the stems stays where it is as the
/// rest of the stems are added.
proof fn first_occurrences_extends(stems: Seq<StemId>, n: int)
    requires
        0 <= n <= stems.len(),
    ensures
        first_occurrences(stems.take(n)).is_prefix_of(first_occurrences(stems)),
    decreases stems.len(),
{
    if n == stems.len() {
        assert(stems.take(n) =~= stems);
    } else {
        first_occurrences_extends(stems.drop_last(), n);
        assert(stems.drop_last().take(n) =~= stems.take(n));
    }
}

/// The selection keeps the order in which stems are first asked for: where
/// `a` is asked for before `b` ever is, `a` comes before `b`.
pub proof fn first_occurrences_keeps_the_order(
    stems: Seq<StemId>,
    a: StemId,
    b: StemId,
    first_a: int,
    any_b: int,
)
    requires
        0 <= first_a < stems.len(),
        0 <= any_b < stems.len(),
        stems[first_a] == a,
        stems[any_b] == b,
        !stems.take(first_a + 1).contains(b),
    ensures
        exists|p: int, q: int|
            0 <= p < q < first_occurrences(stems).len() && #[trigger] first_occurrences(stems)[p]
                == a && #[trigger] first_occurrences(stems)[q] == b,
{
    let head = stems.take(first_a + 1);
    let early = first_occurrences(head);
    first_occurrences_extends(stems, first_a + 1);
    first_occurrences_keeps_the_stems(head);
    first_occurrences_keeps_the_stems(stems);
    assert(head[first_a] == a);
    assert(head.contains(a));
    assert(stems.contains(b));
    let p = early.index_of(a);
    let q = first_occurrences(stems).index_of(b);
    assert(first_occurrences(stems)[p] == a);
    if q < early.len() {
        assert(early[q] == b);
        assert(early.contains(b));
    }
}

/// A selection without repeats is loaded as it stands.
pub proof fn first_occurrences_of_distinct_stems(stems: Seq<StemId>)
    requires
        stems.no_duplicates(),
    ensures
        first_occurrences(stems) == stems,
    decreases stems.len(),
{
    if stems.len() > 0 {
        let init = stems.drop_last();
        first_occurrences_of_distinct_stems(init);
        assert(!init.contains(stems.last())) by {
            if init.contains(stems.last()) {
                let k = init.index_of(stems.last());
                assert(stems[k] == stems[stems.len() - 1]);
            }
        }
        assert(init.push(stems.last()) =~= stems);
    }
}

/// The fine-tuned model only knows the stems listed for it: what is loaded
/// for a selection is part of that list, has no repeats and is not empty, and
/// a selection that is empty or strays from the list is not loaded at all.
pub proof fn fine_tuned_loads_only_its_own_stems(
    stems: Seq<FfiStemKind>,
    catalog: ModelCatalog,
)
    ensures
        ({
            let model = ModelView::FineTuned { stems };
            let ids = crate::stem::ids_of(stems);
            let selected = first_occurrences(ids);
            let supported = catalog.htdemucs_ft.stems@;
            &&& stems.len() == 0 ==> !model.loadable(catalog)
            &&& (exists|i: int| 0 <= i < ids.len() && !supported.contains(#[trigger] ids[i]))
                ==> !model.loadable(catalog)
            &&& model.loadable(catalog) ==> {
                &&& model.options() == OptionsView::FineTuned(selected)
                &&& selected.len() > 0
                &&& selected.no_duplicates()
                &&& all_supported(selected, supported)
                &&& forall|id: StemId| selected.contains(id) <==> #[trigger] ids.contains(id)
            }
        }),
{
    let ids = crate::stem::ids_of(stems);
    let selected = first_occurrences(ids);
    first_occurrences_keeps_the_stems(ids);
    if (ModelView::FineTuned { stems }).loadable(catalog) {
        assert forall|i: int| 0 <= i < selected.len() implies catalog.htdemucs_ft.stems@.contains(
            #[trigger] selected[i],
        ) by {
            assert(selected.contains(selected[i]));
            assert(ids.contains(selected[i]));
            let k = ids.index_of(selected[i]);
            assert(catalog.htdemucs_ft.stems@.contains(ids[k]));
        }
    }
}

/// Where the catalog lists drums, bass, other and vocals for the fine-tuned
/// model, a selection can be loaded exactly if it names some stem and neither
/// guitar nor piano.
pub proof fn fine_tuned_has_no_guitar_or_piano(stems: Seq<FfiStemKind>, catalog: ModelCatalog)
    requires
        catalog.htdemucs_ft.stems@ == seq![
            StemId::Drums,
            StemId::Bass,
            StemId::Other,
            StemId::Vocals,
        ],
    ensures
        (ModelView::FineTuned { stems }).loadable(catalog) <==> {
            &&& stems.len() > 0
            &&& !stems.contains(FfiStemKind::Guitar)
            &&& !stems.contains(FfiStemKind::Piano)
        },
{
    let supported = catalog.htdemucs_ft.stems@;
    let ids = crate::stem::ids_of(stems);
    assert(supported[0] == StemId::Drums && supported[1] == StemId::Bass && supported[2]
        == StemId::Other && supported[3] == StemId::Vocals);
    assert forall|i: int| 0 <= i < stems.len() implies (supported.contains(#[trigger] ids[i]) <==> (
    stems[i] != FfiStemKind::Guitar && stems[i] != FfiStemKind::Piano)) by {
    }
    if all_supported(ids, supported) {
        assert forall|i: int| 0 <= i < stems.len() implies stems[i] != FfiStemKind::Guitar
            && stems[i] != FfiStemKind::Piano by {
            assert(supported.contains(ids[i]));
        }
    } else {
        let i = choose|i: int| 0 <= i < ids.len() && !supported.contains(#[trigger] ids[i]);
        assert(stems.contains(stems[i]));
    }
}

/// Every variant on offer can be loaded, provided the catalog lists any stem
/// for the fine-tuned model.
pub proof fn offered_models_are_loadable(catalog: ModelCatalog, i: int)
    requires
        catalog.htdemucs_ft.stems@.len() > 0,
        0 <= i < offered(catalog).len(),
    ensures
        offered(catalog)[i].loadable(catalog),
{
    let supported = catalog.htdemucs_ft.stems@;
    crate::stem::stem_lists_correspond(supported, crate::stem::kinds_of(supported));
    assert forall|k: int| 0 <= k < supported.len() implies supported.contains(
        #[trigger] supported[k],
    ) by {
    }
}

/// The list of all models describes each variant as asking for that variant
/// alone does, and gives it the catalog's own identifier.
pub proof fn listed_metadata_agrees(
    listed: FfiModelMetadata,
    asked: FfiModelMetadata,
    model: ModelView,
    catalog: ModelCatalog,
)
    requires
        listed.describes(model, catalog),
        asked.describes(model, catalog),
    ensures
        listed.model@ == asked.model@,
        listed.id@ == asked.id@,
        listed.label@ == asked.label@,
        listed.description@ == asked.description@,
        listed.size_mb == asked.size_mb,
        listed.stems@ == asked.stems@,
        listed.model@.info(catalog).id@ == listed.id@,
        listed.stems@.len() == model.info(catalog).stems@.len(),
{
}

/// A variant is what it was chosen to be, with its stems in their order.
pub proof fn variants_keep_their_stems(model: FfiDemucsModel)
    ensures
        model is FourStem <==> model@ is FourStem,
        model is SixStem <==> model@ is SixStem,
        model is FineTuned <==> model@ is FineTuned,
        model matches FfiDemucsModel::FineTuned { stems } ==> model@ == (ModelView::FineTuned {
            stems: stems@,
        }),
{
}

/// Load options are what they were chosen to be, with their stems in order.
pub proof fn options_keep_their_stems(options: ModelOptions)
    ensures
        options is FourStem <==> options@ is FourStem,
        options is SixStem <==> options@ is SixStem,
        options matches ModelOptions::FineTuned(stems) ==> options@ == OptionsView::FineTuned(
            stems@,
        ),
        options@ is FineTuned ==> options is FineTuned,
{
}

/// Each variant has its own catalog entry, and every fine-tuned selection the
/// same one.
pub proof fn variants_have_their_own_entries(stems: Seq<FfiStemKind>, catalog: ModelCatalog)
    ensures
        ModelView::FourStem.info(catalog) == catalog.htdemucs,
        ModelView::SixStem.info(catalog) == catalog.htdemucs_6s,
        (ModelView::FineTuned { stems }).info(catalog) == catalog.htdemucs_ft,
{
}

/// Whole models always load as themselves. A fine-tuned selection loads
/// exactly if it names some stem and each stem it names is one that the
/// catalog lists for the fine-tuned model, however many they are; what is
/// loaded then is made of the stems named.
pub proof fn what_can_be_loaded(
    model: &FfiDemucsModel,
    catalog: &ModelCatalog,
    r: Result<ModelOptions, FfiDemucsError>,
)
    requires
        call_ensures(FfiDemucsModel::options, (model, catalog), r),
    ensures
        model is FourStem ==> r matches Ok(ModelOptions::FourStem),
        model is SixStem ==> r matches Ok(ModelOptions::SixStem),
        model matches FfiDemucsModel::FineTuned { stems } ==> {
            &&& r is Ok <==> stems@.len() > 0 && forall|i: int|
                0 <= i < stems@.len() ==> catalog.htdemucs_ft.stems@.contains(
                    crate::stem::id_of(#[trigger] stems@[i]),
                )
            &&& r matches Ok(options) ==> {
                &&& options matches ModelOptions::FineTuned(selected)
                &&& selected@.len() > 0
                &&& selected@.no_duplicates()
                &&& forall|i: int|
                    0 <= i < stems@.len() ==> selected@.contains(
                        crate::stem::id_of(#[trigger] stems@[i]),
                    )
                &&& forall|k: int|
                    0 <= k < selected@.len() ==> stems@.contains(
                        crate::stem::kind_of(#[trigger] selected@[k]),
                    )
            }
        },
{
    if let FfiDemucsModel::FineTuned { stems } = *model {
        let ids = crate::stem::ids_of(stems@);
        let supported = catalog.htdemucs_ft.stems@;
        if stems@.len() > 0 && (forall|i: int|
            0 <= i < stems@.len() ==> supported.contains(
                crate::stem::id_of(#[trigger] stems@[i]),
            )) {
            assert forall|i: int| 0 <= i < ids.len() implies supported.contains(
                #[trigger] ids[i],
            ) by {
                assert(ids[i] == crate::stem::id_of(stems@[i]));
            }
        }
        if let Ok(ModelOptions::FineTuned(selected)) = r {
            first_occurrences_keeps_the_stems(ids);
            assert forall|i: int| 0 <= i < stems@.len() implies {
                &&& supported.contains(crate::stem::id_of(#[trigger] stems@[i]))
                &&& selected@.contains(crate::stem::id_of(stems@[i]))
            } by {
                assert(ids[i] == crate::stem::id_of(stems@[i]));
                assert(ids.contains(ids[i]));
            }
            assert forall|k: int| 0 <= k < selected@.len() implies stems@.contains(
                crate::stem::kind_of(#[trigger] selected@[k]),
            ) by {
                assert(selected@.contains(selected@[k]));
                assert(ids.contains(selected@[k]));
                let i = ids.index_of(selected@[k]);
                crate::stem::stem_names_correspond(ids[i], stems@[i]);
                assert(stems@[i] == crate::stem::kind_of(selected@[k]));
            }
        }
    }
}

/// A selection is refused for its first stem that the fine-tuned model lacks,
/// by that stem's name; one that names no stem is told to name one.
pub proof fn refusals_name_the_first_missing_stem(
    stems: Vec<FfiStemKind>,
    model: &FfiDemucsModel,
    catalog: &ModelCatalog,
    first: int,
    r: Result<ModelOptions, FfiDemucsError>,
)
    requires
        *model == (FfiDemucsModel::FineTuned { stems }),
        call_ensures(FfiDemucsModel::options, (model, catalog), r),
        stems@.len() > 0 ==> {
            &&& 0 <= first < stems@.len()
            &&& !catalog.htdemucs_ft.stems@.contains(crate::stem::id_of(stems@[first]))
            &&& forall|i: int|
                0 <= i < first ==> catalog.htdemucs_ft.stems@.contains(
                    crate::stem::id_of(#[trigger] stems@[i]),
                )
        },
    ensures
        r matches Err(FfiDemucsError::InvalidInput { reason }) && reason@ == (if stems@.len()
            == 0 {
            "the fine-tuned model needs at least one stem"@
        } else {
            "the fine-tuned model has no "@ + catalog.stem_names.of(
                crate::stem::id_of(stems@[first]),
            ) + " stem"@
        }),
{
    let ids = crate::stem::ids_of(stems@);
    let supported = catalog.htdemucs_ft.stems@;
    if stems@.len() > 0 {
        assert(!supported.contains(ids[first]));
        assert forall|i: int| 0 <= i < first implies supported.contains(#[trigger] ids[i]) by {
            assert(ids[i] == crate::stem::id_of(stems@[i]));
        }
        if let Err(FfiDemucsError::InvalidInput { reason }) = r {
            let i = choose|i: int|
                #![trigger ids[i]]
                first_unsupported(ids, supported, i) && reason@
                    == "the fine-tuned model has no "@ + catalog.stem_names.of(ids[i]) + " stem"@;
            assert(supported.contains(ids[i]) || i <= first);
            assert(i >= first) by {
                if i < first {
                    assert(supported.contains(ids[i]));
                }
            }
            assert(i == first);
        }
    }
}

/// Metadata repeats the catalog entry of its model, field by field, and lists
/// the entry's stems in their order.
pub proof fn metadata_repeats_its_entry(
    record: FfiModelMetadata,
    model: ModelView,
    catalog: ModelCatalog,
)
    requires
        record.describes(model, catalog),
    ensures
        ({
            let entry = match model {
                ModelView::FourStem => catalog.htdemucs,
                ModelView::SixStem => catalog.htdemucs_6s,
                ModelView::FineTuned { .. } => catalog.htdemucs_ft,
            };
            &&& record.model@ == model
            &&& record.id@ == entry.id@
            &&& record.label@ == entry.label@
            &&& record.description@ == entry.description@
            &&& record.size_mb == entry.size_mb
            &&& record.stems@.len() == entry.stems@.len()
            &&& forall|i: int| 0 <= i < entry.stems@.len() ==> crate::stem::id_of(
                #[trigger] record.stems@[i],
            ) == entry.stems@[i]
        }),
{
    crate::stem::stem_lists_are_renamed_in_place(model.info(catalog).stems@, record.stems@);
}

/// On offer are the four-stem model, the six-stem model and the fine-tuned
/// model with all its stems, in this order and each with its own entry.
pub proof fn three_models_are_offered(catalog: &ModelCatalog, r: Vec<FfiModelMetadata>)
    requires
        call_ensures(all_models, (catalog,), r),
    ensures
        r@.len() == 3,
        r@[0].model is FourStem && r@[0].id@ == catalog.htdemucs.id@,
        r@[1].model is SixStem && r@[1].id@ == catalog.htdemucs_6s.id@,
        r@[2].id@ == catalog.htdemucs_ft.id@,
        r@[2].model matches FfiDemucsModel::FineTuned { stems } && stems@.len()
            == catalog.htdemucs_ft.stems@.len() && forall|i: int|
            0 <= i < stems@.len() ==> crate::stem::id_of(#[trigger] stems@[i])
                == catalog.htdemucs_ft.stems@[i],
{
    assert(r@[0].describes(offered(*catalog)[0], *catalog));
    assert(r@[1].describes(offered(*catalog)[1], *catalog));
    assert(r@[2].describes(offered(*catalog)[2], *catalog));
}

} // verus!
