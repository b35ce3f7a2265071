//! The engine, its errors and the separations it begins.

use demucs_ffi::catalog::{ModelCatalog, ModelInfo, StemNames};
use demucs_ffi::chunks::{chunk_length, num_chunks, resampled_length, validate_input};
use demucs_ffi::engine::{finish_separation, worker_result, FfiDemucsEngine, LoadFailure, LoadPlan};
use demucs_ffi::error::{DemucsError, FfiDemucsError};
use demucs_ffi::model::{FfiDemucsModel, ModelOptions};
use demucs_ffi::stem::{FfiStemKind, Stem, StemId};

fn info(id: &str, size_mb: u32, stems: Vec<StemId>) -> ModelInfo {
    ModelInfo {
        id: id.to_string(),
        label: format!("{} label", id),
        description: format!("{} description", id),
        size_mb,
        stems,
        filename: format!("{}.safetensors", id),
    }
}

fn catalog() -> ModelCatalog {
    let four = || vec![StemId::Drums, StemId::Bass, StemId::Other, StemId::Vocals];
    let mut six = four();
    six.push(StemId::Guitar);
    six.push(StemId::Piano);
    ModelCatalog {
        htdemucs: info("htdemucs", 84, four()),
        htdemucs_6s: info("htdemucs_6s", 55, six),
        htdemucs_ft: info("htdemucs_ft", 333, four()),
        stem_names: StemNames {
            drums: "drums".to_string(),
            bass: "bass".to_string(),
            other: "other".to_string(),
            vocals: "vocals".to_string(),
            guitar: "guitar".to_string(),
            piano: "piano".to_string(),
        },
        training_length: 343_980,
    }
}

const TRAINING_LENGTH: usize = 343_980;

/// A count of chunks that do not overlap, at least one.
fn plain_chunks(length: usize) -> usize {
    length.div_ceil(TRAINING_LENGTH).max(1)
}

fn plan(model: FfiDemucsModel) -> LoadPlan {
    LoadPlan::new(model, &catalog()).unwrap()
}

fn loaded(model: FfiDemucsModel, weights: u8) -> FfiDemucsEngine<u8> {
    let mut engine = FfiDemucsEngine::new();
    let plan = plan(model);
    engine.load_model(&plan, Ok(true)).unwrap();
    engine.finish_load(plan, Ok(weights)).unwrap();
    engine
}

#[test]
fn num_chunks_accounts_for_resampling() {
    let one_chunk = TRAINING_LENGTH as u64;
    assert_eq!(num_chunks(one_chunk, 44_100, plain_chunks), 1);
    // The same sample count at 22.05 kHz doubles after resampling.
    assert!(num_chunks(one_chunk, 22_050, plain_chunks) > 1);
    assert_eq!(num_chunks(0, 0, plain_chunks), 1);
}

#[test]
fn validate_input_rejects_bad_buffers() {
    let none: [f32; 0] = [];
    assert!(validate_input(&none, &none, 44_100).is_err());
    assert!(validate_input(&[0.0], &[0.0, 0.0], 44_100).is_err());
    assert!(validate_input(&[0.0], &[0.0], 0).is_err());
    assert!(validate_input(&[0.0], &[0.0], 44_100).is_ok());
}

#[test]
fn bad_buffers_are_explained() {
    let none: [f32; 0] = [];
    let faults = [
        (validate_input(&none, &[0.0], 0), "audio is empty"),
        (
            validate_input(&[0.0], &[0.0, 0.0], 0),
            "left and right channels have different lengths",
        ),
        (
            validate_input(&[0.0], &[0.0], 0),
            "sample rate must be greater than zero",
        ),
    ];
    for (result, expected) in faults {
        match result {
            Err(FfiDemucsError::InvalidInput { reason }) => assert_eq!(reason, expected),
            other => panic!("expected a rejection, got {:?}", other),
        }
    }
}

#[test]
fn lengths_are_resampled_upwards() {
    assert_eq!(resampled_length(1_000, 44_100), 1_000);
    assert_eq!(resampled_length(1_000, 0), 1_000);
    assert_eq!(resampled_length(1_000, 22_050), 2_000);
    assert_eq!(resampled_length(48_000, 48_000), 44_100);
    assert_eq!(resampled_length(1, 48_000), 1);
    assert_eq!(resampled_length(5, 8_000), 28);
}

#[test]
fn enormous_lengths_keep_their_low_bits() {
    let exact = (u64::MAX as u128) * 44_100;
    assert_eq!(resampled_length(u64::MAX, 1), exact as u64 as usize);
}

#[test]
fn chunk_length_is_the_training_length() {
    assert_eq!(chunk_length(&catalog()), 343_980);
}

#[test]
fn new_engine_is_empty() {
    let engine: FfiDemucsEngine<u8> = FfiDemucsEngine::new();
    assert!(!engine.is_loaded());
    assert_eq!(engine.loaded_model(), None);
    assert!(matches!(engine.warmup(), Err(FfiDemucsError::NotLoaded)));
    let default: FfiDemucsEngine<u8> = FfiDemucsEngine::default();
    assert!(!default.is_loaded());
}

#[test]
fn successful_load_is_visible() {
    let engine = loaded(FfiDemucsModel::SixStem, 6);
    assert!(engine.is_loaded());
    assert_eq!(engine.loaded_model(), Some(FfiDemucsModel::SixStem));
    assert_eq!(*engine.warmup().unwrap(), 6);
}

#[test]
fn plan_holds_what_the_load_needs() {
    let plan = plan(FfiDemucsModel::FineTuned {
        stems: vec![FfiStemKind::Bass, FfiStemKind::Bass],
    });
    assert_eq!(plan.options, ModelOptions::FineTuned(vec![StemId::Bass]));
    assert_eq!(plan.model_id, "htdemucs_ft");
    let rejected = LoadPlan::new(FfiDemucsModel::FineTuned { stems: vec![] }, &catalog());
    assert!(matches!(rejected, Err(FfiDemucsError::InvalidInput { .. })));
}

#[test]
fn missing_weights_leave_the_loaded_model() {
    let mut engine = loaded(FfiDemucsModel::FourStem, 4);
    match engine.load_model(&plan(FfiDemucsModel::SixStem), Ok(false)) {
        Err(FfiDemucsError::NotCached { model_id }) => assert_eq!(model_id, "htdemucs_6s"),
        other => panic!("expected NotCached, got {:?}", other),
    }
    assert_eq!(engine.loaded_model(), Some(FfiDemucsModel::FourStem));
    let no_dir = FfiDemucsError::Io {
        reason: "no directory".to_string(),
    };
    assert!(matches!(
        engine.load_model(&plan(FfiDemucsModel::SixStem), Err(no_dir)),
        Err(FfiDemucsError::Io { .. })
    ));
    assert_eq!(*engine.warmup().unwrap(), 4);
}

#[test]
fn failed_load_leaves_no_model() {
    for (failure, expected) in [
        (
            LoadFailure::Read {
                reason: "disk".to_string(),
            },
            "i/o error: disk",
        ),
        (
            LoadFailure::Build {
                error: DemucsError::Failed {
                    message: "shape".to_string(),
                },
            },
            "shape",
        ),
        (
            LoadFailure::Build {
                error: DemucsError::Cancelled,
            },
            "operation cancelled",
        ),
    ] {
        let mut engine = loaded(FfiDemucsModel::FourStem, 4);
        let plan = plan(FfiDemucsModel::SixStem);
        engine.load_model(&plan, Ok(true)).unwrap();
        assert!(!engine.is_loaded());
        let error = engine.finish_load(plan, Err(failure)).unwrap_err();
        assert_eq!(error.message(), expected);
        assert!(!engine.is_loaded());
        assert!(matches!(engine.warmup(), Err(FfiDemucsError::NotLoaded)));
    }
}

#[test]
fn unload_frees_once() {
    let mut engine = loaded(FfiDemucsModel::FourStem, 4);
    assert!(engine.unload_model());
    assert!(!engine.is_loaded());
    assert!(!engine.unload_model());
}

#[test]
fn separation_needs_input_and_a_model() {
    let mut engine: FfiDemucsEngine<u8> = FfiDemucsEngine::new();
    let bad = engine.separate(&[0.0f32], &[], 44_100, (), plain_chunks);
    assert!(matches!(bad, Err(FfiDemucsError::InvalidInput { .. })));
    let unloaded = engine.separate(&[0.0f32], &[0.0], 44_100, (), plain_chunks);
    assert!(matches!(unloaded, Err(FfiDemucsError::NotLoaded)));
    engine = loaded(FfiDemucsModel::FourStem, 4);
    let samples = vec![0.0f32; TRAINING_LENGTH];
    let separation = match engine.separate(&samples, &samples, 22_050, "ear", plain_chunks) {
        Ok(separation) => separation,
        Err(error) => panic!("expected a separation, got {:?}", error),
    };
    assert_eq!(*separation.model, 4);
    assert_eq!(separation.bridge.listener, "ear");
    assert_eq!(separation.bridge.chunk, 0);
    assert_eq!(separation.bridge.total_chunks, 2);
    assert!(!separation.bridge.cancelled);
}

#[test]
fn separated_stems_keep_their_order() {
    let stems = vec![
        Stem {
            id: StemId::Vocals,
            left: vec![1.0f32],
            right: vec![2.0],
        },
        Stem {
            id: StemId::Drums,
            left: vec![3.0],
            right: vec![4.0],
        },
    ];
    let separated = finish_separation(Ok(stems)).unwrap();
    assert_eq!(separated.len(), 2);
    assert_eq!(separated[0].kind, FfiStemKind::Vocals);
    assert_eq!(separated[0].right, vec![2.0]);
    assert_eq!(separated[1].kind, FfiStemKind::Drums);
    assert_eq!(separated[1].left, vec![3.0]);
}

#[test]
fn failed_separation_says_why() {
    let cancelled = finish_separation::<f32>(Err(DemucsError::Cancelled));
    assert!(matches!(cancelled, Err(FfiDemucsError::Cancelled)));
    let failed = finish_separation::<f32>(Err(DemucsError::Failed {
        message: "out of memory".to_string(),
    }));
    match failed {
        Err(FfiDemucsError::Inference { reason }) => assert_eq!(reason, "out of memory"),
        other => panic!("expected an inference error, got {:?}", other),
    }
}

#[test]
fn silent_worker_has_panicked() {
    assert_eq!(worker_result("demucs-load", Some(3)).unwrap(), 3);
    match worker_result::<u8>("demucs-load", None) {
        Err(FfiDemucsError::Inference { reason }) => {
            assert_eq!(reason, "demucs-load worker panicked")
        }
        other => panic!("expected an inference error, got {:?}", other),
    }
}

#[test]
fn errors_read_as_sentences() {
    let text = |s: &str| s.to_string();
    let cases = [
        (FfiDemucsError::Cancelled, "operation cancelled"),
        (FfiDemucsError::NotLoaded, "no model is loaded"),
        (
            FfiDemucsError::NotCached {
                model_id: text("htdemucs"),
            },
            "model htdemucs is not downloaded",
        ),
        (
            FfiDemucsError::InvalidInput {
                reason: text("audio is empty"),
            },
            "audio is empty",
        ),
        (
            FfiDemucsError::Download {
                reason: text("timeout"),
            },
            "download failed: timeout",
        ),
        (
            FfiDemucsError::Io {
                reason: text("denied"),
            },
            "i/o error: denied",
        ),
        (
            FfiDemucsError::Inference {
                reason: text("shape"),
            },
            "shape",
        ),
    ];
    for (error, expected) in cases {
        assert_eq!(error.message(), expected);
    }
}

#[test]
fn io_errors_keep_their_text() {
    let error = std::io::Error::new(std::io::ErrorKind::Other, "disk full");
    match FfiDemucsError::from(error) {
        FfiDemucsError::Io { reason } => assert_eq!(reason, "disk full"),
        other => panic!("expected an i/o error, got {:?}", other),
    }
}

#[test]
fn more_input_is_never_shorter() {
    for rate in [8_000, 11_025, 44_100, 48_000, 96_000] {
        for samples in 0..200 {
            assert!(resampled_length(samples, rate) <= resampled_length(samples + 1, rate));
            let length = resampled_length(samples, rate) as u64;
            assert!(length * rate as u64 >= samples * 44_100);
            assert!(length * (rate as u64) < samples * 44_100 + rate as u64);
        }
    }
}

#[test]
fn engine_holds_the_last_model_loaded() {
    let mut engine = loaded(FfiDemucsModel::FourStem, 4);
    let six = plan(FfiDemucsModel::SixStem);
    engine.load_model(&six, Ok(true)).unwrap();
    engine.finish_load(six, Ok(6)).unwrap();
    let absent = plan(FfiDemucsModel::FourStem);
    assert!(engine.load_model(&absent, Ok(false)).is_err());
    assert_eq!(engine.loaded_model(), Some(FfiDemucsModel::SixStem));
    assert_eq!(*engine.warmup().unwrap(), 6);
}
