//! Choosing models: variants, options and metadata.

use demucs_ffi::catalog::{ModelCatalog, ModelInfo, StemNames};
use demucs_ffi::error::FfiDemucsError;
use demucs_ffi::model::{all_models, model_metadata, FfiDemucsModel, FfiModelMetadata, ModelOptions};
use demucs_ffi::stem::{stem_kinds, FfiStem, FfiStemKind, Stem, StemId};

fn info(id: &str, size_mb: u32, stems: Vec<StemId>) -> ModelInfo {
    ModelInfo {
        id: id.to_string(),
        label: format!("{} label", id),
        description: format!("{} description", id),
        size_mb,
        stems,
        filename: format!("{}.safetensors", id),
    }
}

fn catalog() -> ModelCatalog {
    let four = || vec![StemId::Drums, StemId::Bass, StemId::Other, StemId::Vocals];
    let mut six = four();
    six.push(StemId::Guitar);
    six.push(StemId::Piano);
    ModelCatalog {
        htdemucs: info("htdemucs", 84, four()),
        htdemucs_6s: info("htdemucs_6s", 55, six),
        htdemucs_ft: info("htdemucs_ft", 333, four()),
        stem_names: StemNames {
            drums: "drums".to_string(),
            bass: "bass".to_string(),
            other: "other".to_string(),
            vocals: "vocals".to_string(),
            guitar: "guitar".to_string(),
            piano: "piano".to_string(),
        },
        training_length: 343_980,
    }
}

fn reason(result: Result<ModelOptions, FfiDemucsError>) -> String {
    match result {
        Err(FfiDemucsError::InvalidInput { reason }) => reason,
        other => panic!("expected a rejection, got {:?}", other),
    }
}

#[test]
fn fine_tuned_rejects_unsupported_and_empty_selections() {
    let guitar = FfiDemucsModel::FineTuned {
        stems: vec![FfiStemKind::Guitar],
    };
    assert!(matches!(
        guitar.options(&catalog()),
        Err(FfiDemucsError::InvalidInput { .. })
    ));
    let empty = FfiDemucsModel::FineTuned { stems: vec![] };
    assert!(matches!(
        empty.options(&catalog()),
        Err(FfiDemucsError::InvalidInput { .. })
    ));
}

#[test]
fn fine_tuned_deduplicates_stems() {
    let model = FfiDemucsModel::FineTuned {
        stems: vec![FfiStemKind::Vocals, FfiStemKind::Vocals, FfiStemKind::Drums],
    };
    match model.options(&catalog()) {
        Ok(ModelOptions::FineTuned(stems)) => {
            assert_eq!(stems, vec![StemId::Vocals, StemId::Drums]);
        }
        _ => panic!("expected a fine-tuned selection"),
    }
}

#[test]
fn all_models_matches_core_metadata() {
    let catalog = catalog();
    let core = [&catalog.htdemucs, &catalog.htdemucs_6s, &catalog.htdemucs_ft];
    let models = all_models(&catalog);
    assert_eq!(models.len(), core.len());
    for (ffi, core) in models.iter().zip(core) {
        assert_eq!(ffi.id, core.id);
        assert_eq!(ffi.model.info(&catalog).id, core.id);
        assert_eq!(ffi.stems.len(), core.stems.len());
    }
}

#[test]
fn rejection_names_the_first_unsupported_stem() {
    let model = FfiDemucsModel::FineTuned {
        stems: vec![FfiStemKind::Drums, FfiStemKind::Piano, FfiStemKind::Guitar],
    };
    assert_eq!(
        reason(model.options(&catalog())),
        "the fine-tuned model has no piano stem"
    );
}

#[test]
fn empty_selection_is_told_to_name_a_stem() {
    let model = FfiDemucsModel::FineTuned { stems: vec![] };
    assert_eq!(
        reason(model.options(&catalog())),
        "the fine-tuned model needs at least one stem"
    );
}

#[test]
fn selection_keeps_the_order_of_first_requests() {
    let model = FfiDemucsModel::FineTuned {
        stems: vec![
            FfiStemKind::Other,
            FfiStemKind::Bass,
            FfiStemKind::Other,
            FfiStemKind::Vocals,
            FfiStemKind::Bass,
        ],
    };
    assert_eq!(
        model.options(&catalog()).unwrap(),
        ModelOptions::FineTuned(vec![StemId::Other, StemId::Bass, StemId::Vocals])
    );
}

#[test]
fn whole_models_always_have_options() {
    assert_eq!(
        FfiDemucsModel::FourStem.options(&catalog()).unwrap(),
        ModelOptions::FourStem
    );
    assert_eq!(
        FfiDemucsModel::SixStem.options(&catalog()).unwrap(),
        ModelOptions::SixStem
    );
}

#[test]
fn every_offered_model_can_be_loaded() {
    let catalog = catalog();
    for metadata in all_models(&catalog) {
        assert!(metadata.model.options(&catalog).is_ok());
    }
}

#[test]
fn metadata_repeats_the_catalog() {
    let catalog = catalog();
    let metadata = model_metadata(FfiDemucsModel::SixStem, &catalog);
    assert_eq!(metadata.model, FfiDemucsModel::SixStem);
    assert_eq!(metadata.id, "htdemucs_6s");
    assert_eq!(metadata.label, "htdemucs_6s label");
    assert_eq!(metadata.description, "htdemucs_6s description");
    assert_eq!(metadata.size_mb, 55);
    assert_eq!(
        metadata.stems,
        vec![
            FfiStemKind::Drums,
            FfiStemKind::Bass,
            FfiStemKind::Other,
            FfiStemKind::Vocals,
            FfiStemKind::Guitar,
            FfiStemKind::Piano
        ]
    );
    let same = FfiModelMetadata::new(FfiDemucsModel::SixStem, &catalog);
    assert_eq!(same.id, metadata.id);
}

#[test]
fn fine_tuned_offer_lists_all_its_stems() {
    let catalog = catalog();
    assert_eq!(
        all_models(&catalog)[2].model,
        FfiDemucsModel::FineTuned {
            stems: vec![
                FfiStemKind::Drums,
                FfiStemKind::Bass,
                FfiStemKind::Other,
                FfiStemKind::Vocals
            ]
        }
    );
}

#[test]
fn cloned_selection_is_the_same_selection() {
    let model = FfiDemucsModel::FineTuned {
        stems: vec![FfiStemKind::Bass, FfiStemKind::Bass],
    };
    assert_eq!(model.clone(), model);
}

#[test]
fn stem_names_translate_both_ways() {
    let pairs = [
        (StemId::Drums, FfiStemKind::Drums),
        (StemId::Bass, FfiStemKind::Bass),
        (StemId::Other, FfiStemKind::Other),
        (StemId::Vocals, FfiStemKind::Vocals),
        (StemId::Guitar, FfiStemKind::Guitar),
        (StemId::Piano, FfiStemKind::Piano),
    ];
    for (id, kind) in pairs {
        assert_eq!(FfiStemKind::from(id), kind);
        assert_eq!(StemId::from(kind), id);
    }
    assert_eq!(
        stem_kinds(&vec![StemId::Piano, StemId::Bass]),
        vec![FfiStemKind::Piano, FfiStemKind::Bass]
    );
}

#[test]
fn stem_keeps_its_channels() {
    let stem = FfiStem::from(Stem {
        id: StemId::Vocals,
        left: vec![0.5f32, 0.25],
        right: vec![-0.5f32, -0.25],
    });
    assert_eq!(stem.kind, FfiStemKind::Vocals);
    assert_eq!(stem.left, vec![0.5, 0.25]);
    assert_eq!(stem.right, vec![-0.5, -0.25]);
}

#[test]
fn distinct_selection_is_loaded_as_it_stands() {
    let model = FfiDemucsModel::FineTuned {
        stems: vec![FfiStemKind::Vocals, FfiStemKind::Drums, FfiStemKind::Bass],
    };
    assert_eq!(
        model.options(&catalog()).unwrap(),
        ModelOptions::FineTuned(vec![StemId::Vocals, StemId::Drums, StemId::Bass])
    );
}
