//! The cache, downloads into it, and their locks.

use demucs_ffi::cache::{
    cache_dir, cached_model_path, choose_cache_dir, configure_cache_dir, delete_cached_model,
    is_model_cached, model_path, path_in, CachePath, CacheRoot,
};
use demucs_ffi::catalog::{ModelCatalog, ModelInfo, StemNames};
use demucs_ffi::download::{
    download_model, parse_count, Download, DownloadEvent, DownloadState, FfiDownloadListener,
    FfiDownloadProgress,
};
use demucs_ffi::error::FfiDemucsError;
use demucs_ffi::lock::{download_lock, lock, DownloadLocks};
use demucs_ffi::model::FfiDemucsModel;
use demucs_ffi::stem::{FfiStemKind, StemId};
use std::path::PathBuf;
use std::sync::{Arc, Mutex, PoisonError};

fn info(id: &str, size_mb: u32, stems: Vec<StemId>) -> ModelInfo {
    ModelInfo {
        id: id.to_string(),
        label: format!("{} label", id),
        description: format!("{} description", id),
        size_mb,
        stems,
        filename: format!("{}.safetensors", id),
    }
}

fn catalog() -> ModelCatalog {
    let four = || vec![StemId::Drums, StemId::Bass, StemId::Other, StemId::Vocals];
    let mut six = four();
    six.push(StemId::Guitar);
    six.push(StemId::Piano);
    ModelCatalog {
        htdemucs: info("htdemucs", 84, four()),
        htdemucs_6s: info("htdemucs_6s", 55, six),
        htdemucs_ft: info("htdemucs_ft", 333, four()),
        stem_names: StemNames {
            drums: "drums".to_string(),
            bass: "bass".to_string(),
            other: "other".to_string(),
            vocals: "vocals".to_string(),
            guitar: "guitar".to_string(),
            piano: "piano".to_string(),
        },
        training_length: 343_980,
    }
}

fn configured(names: &[&str]) -> CachePath {
    CachePath {
        root: CacheRoot::Configured("/weights".to_string()),
        names: names.iter().map(|name| name.to_string()).collect(),
    }
}

fn weights() -> Option<String> {
    Some("/weights".to_string())
}

#[test]
fn configured_directory_wins() {
    let mut directory = None;
    configure_cache_dir(&mut directory, "/first".to_string());
    configure_cache_dir(&mut directory, "/weights".to_string());
    assert_eq!(directory, weights());
    assert_eq!(cache_dir(directory.clone()).unwrap(), configured(&[]));
    let platform = Some(PathBuf::from("/home/me/.cache"));
    assert_eq!(choose_cache_dir(directory, platform).unwrap(), configured(&[]));
}

#[test]
fn platform_directory_has_a_subdirectory() {
    let base = PathBuf::from("/home/me/.cache");
    assert_eq!(
        choose_cache_dir(None, Some(base.clone())).unwrap(),
        CachePath {
            root: CacheRoot::Platform(base),
            names: vec!["demucs-rs".to_string()],
        }
    );
}

#[test]
fn missing_cache_directory_is_explained() {
    match choose_cache_dir(None, None) {
        Err(FfiDemucsError::Io { reason }) => assert_eq!(
            reason,
            "could not determine the cache directory; call configure_cache_dir"
        ),
        other => panic!("expected an i/o error, got {:?}", other),
    }
}

#[test]
fn platform_is_asked_where_nothing_is_configured() {
    match (cache_dir(None), dirs::cache_dir()) {
        (Ok(path), Some(base)) => {
            assert_eq!(path.root, CacheRoot::Platform(base));
            assert_eq!(path.names, vec!["demucs-rs".to_string()]);
        }
        (Err(FfiDemucsError::Io { .. }), None) => {}
        other => panic!("the platform was not asked: {:?}", other),
    }
}

#[test]
fn model_path_is_the_file_in_the_directory() {
    assert_eq!(
        model_path(&FfiDemucsModel::FourStem, &catalog(), weights()),
        Some(configured(&["htdemucs.safetensors"]))
    );
    let none = Err(FfiDemucsError::NotLoaded);
    assert_eq!(path_in(none, "htdemucs.safetensors"), None);
}

#[test]
fn fine_tuned_selections_share_a_path() {
    let path = |stem| {
        let model = FfiDemucsModel::FineTuned { stems: vec![stem] };
        model_path(&model, &catalog(), weights())
    };
    assert_eq!(path(FfiStemKind::Drums), path(FfiStemKind::Guitar));
    assert_ne!(
        path(FfiStemKind::Drums),
        model_path(&FfiDemucsModel::SixStem, &catalog(), weights())
    );
}

#[test]
fn cache_queries_follow_the_disk() {
    let catalog = catalog();
    let expected = configured(&["htdemucs_6s.safetensors"]);
    let six = || FfiDemucsModel::SixStem;
    assert!(is_model_cached(six(), &catalog, weights(), |path| *path == expected));
    assert!(!is_model_cached(six(), &catalog, weights(), |_| false));
    assert_eq!(
        cached_model_path(six(), &catalog, weights(), |_| true),
        Some(configured(&["htdemucs_6s.safetensors"]))
    );
    assert_eq!(cached_model_path(six(), &catalog, weights(), |_| false), None);
    assert!(delete_cached_model(six(), &catalog, weights(), |path| *path == expected));
    assert!(!delete_cached_model(six(), &catalog, weights(), |_| false));
}

#[test]
fn counts_are_decimal() {
    assert_eq!(parse_count("0"), Some(0));
    assert_eq!(parse_count("333000000"), Some(333_000_000));
    assert_eq!(parse_count("+17"), Some(17));
    assert_eq!(parse_count("007"), Some(7));
    assert_eq!(parse_count("18446744073709551615"), Some(u64::MAX));
    for text in [
        "", "+", "++1", "-1", " 1", "1 ", "0x10", "1.5", "18446744073709551616", "99999999999999999999", "\u{663}",
    ] {
        assert_eq!(parse_count(text), text.parse::<u64>().ok());
        assert_eq!(parse_count(text), None);
    }
}

#[derive(Clone, Default)]
struct Ear {
    seen: Arc<Mutex<Vec<FfiDownloadProgress>>>,
    refuse: bool,
}

impl FfiDownloadListener for Ear {
    fn on_progress(&self, progress: FfiDownloadProgress) -> bool {
        self.seen.lock().unwrap().push(progress);
        !self.refuse
    }
}

fn start() -> Download {
    download_model(&FfiDemucsModel::FourStem, &catalog(), weights()).unwrap()
}

fn connected(content_length: Option<&str>) -> Download {
    start()
        .step(DownloadEvent::Found { exists: false })
        .step(DownloadEvent::Succeeded)
        .step(DownloadEvent::Connected {
            content_length: content_length.map(str::to_string),
        })
}

fn failed(reason: &str) -> DownloadEvent {
    DownloadEvent::Failed {
        reason: reason.to_string(),
    }
}

fn message(download: Download) -> String {
    match download.state {
        DownloadState::Done { result: Err(error) } => error.message(),
        other => panic!("expected a failure, got {:?}", other),
    }
}

#[test]
fn download_starts_with_its_files() {
    let download = start();
    assert_eq!(download.dir, configured(&[]));
    assert_eq!(download.target, "htdemucs.safetensors");
    assert_eq!(download.partial, "htdemucs.safetensors.part");
    assert_eq!(download.total_bytes, 84_000_000);
    assert!(matches!(download.state, DownloadState::CheckTarget));
}

#[test]
fn present_weights_end_the_download() {
    let download = start().step(DownloadEvent::Found { exists: true });
    assert!(matches!(download.state, DownloadState::Done { result: Ok(()) }));
}

#[test]
fn whole_download_succeeds() {
    let ear = Ear::default();
    let mut download = connected(Some("1000")).step(DownloadEvent::Succeeded);
    for count in [600, 400] {
        download = download.step(DownloadEvent::Received { count });
        assert!(matches!(download.state, DownloadState::Write { count: n } if n == count));
        download = download.step(DownloadEvent::Succeeded).report(&ear);
        assert!(matches!(download.state, DownloadState::Read));
    }
    download = download.step(DownloadEvent::Received { count: 0 });
    assert!(matches!(download.state, DownloadState::Sync));
    download = download.step(DownloadEvent::Succeeded);
    assert!(matches!(download.state, DownloadState::Rename));
    download = download.step(DownloadEvent::Succeeded);
    assert!(matches!(download.state, DownloadState::Done { result: Ok(()) }));
    assert_eq!(download.downloaded_bytes, 1_000);
    let seen = ear.seen.lock().unwrap();
    assert_eq!(seen.len(), 2);
    assert_eq!(seen[0].downloaded_bytes, 600);
    assert_eq!(seen[0].total_bytes, 1_000);
    assert_eq!(seen[0].fraction.clamped(), (600, 1_000));
    assert_eq!(seen[1].fraction.clamped(), (1_000, 1_000));
}

#[test]
fn size_comes_from_the_server_or_the_catalog() {
    assert_eq!(connected(Some("1000")).total_bytes, 1_000);
    assert_eq!(connected(Some("unknown")).total_bytes, 84_000_000);
    assert_eq!(connected(None).total_bytes, 84_000_000);
}

#[test]
fn fraction_survives_a_wrong_size() {
    let mut download = connected(Some("0"))
        .step(DownloadEvent::Succeeded)
        .step(DownloadEvent::Received { count: 5 })
        .step(DownloadEvent::Succeeded);
    assert_eq!(download.progress().total_bytes, 0);
    assert_eq!(download.progress().fraction.clamped(), (1, 1));
    download.total_bytes = 4;
    assert_eq!(download.progress().fraction.clamped(), (4, 4));
}

#[test]
fn early_failures_leave_nothing_to_remove() {
    let directory = start().step(DownloadEvent::Found { exists: false }).step(failed("denied"));
    assert_eq!(message(directory), "i/o error: denied");
    let server = start()
        .step(DownloadEvent::Found { exists: false })
        .step(DownloadEvent::Succeeded)
        .step(failed("timeout"));
    assert_eq!(message(server), "download failed: timeout");
}

#[test]
fn later_failures_remove_the_partial_file() {
    let reading = || connected(None).step(DownloadEvent::Succeeded);
    let syncing = || reading().step(DownloadEvent::Received { count: 0 });
    let failures = [
        connected(None).step(failed("full")),
        reading().step(failed("full")),
        reading().step(DownloadEvent::Received { count: 1 }).step(failed("full")),
        syncing().step(failed("full")),
        syncing().step(DownloadEvent::Succeeded).step(failed("full")),
    ];
    for download in failures {
        assert!(matches!(download.state, DownloadState::RemovePartial { .. }));
        assert_eq!(message(download.step(failed("gone"))), "i/o error: full");
    }
}

#[test]
fn refusing_listener_cancels_the_download() {
    let ear = Ear {
        refuse: true,
        ..Default::default()
    };
    let download = connected(None)
        .step(DownloadEvent::Succeeded)
        .step(DownloadEvent::Received { count: 1 })
        .step(DownloadEvent::Succeeded)
        .report(&ear);
    assert!(matches!(
        download.state,
        DownloadState::RemovePartial {
            error: FfiDemucsError::Cancelled
        }
    ));
    assert_eq!(message(download.step(DownloadEvent::Succeeded)), "operation cancelled");
}

#[test]
fn stray_events_change_nothing() {
    let ear = Ear::default();
    let download = start()
        .step(DownloadEvent::Received { count: 9 })
        .step(DownloadEvent::Succeeded)
        .report(&ear);
    assert!(matches!(download.state, DownloadState::CheckTarget));
    assert!(ear.seen.lock().unwrap().is_empty());
    let over = download
        .step(DownloadEvent::Found { exists: true })
        .step(failed("late"));
    assert!(matches!(over.state, DownloadState::Done { result: Ok(()) }));
}

#[test]
fn each_file_has_one_lock() {
    let mut locks = DownloadLocks::new();
    assert_eq!(download_lock(&mut locks, "a"), 0);
    assert_eq!(download_lock(&mut locks, "b"), 1);
    assert_eq!(download_lock(&mut locks, "a"), 0);
    assert_eq!(download_lock(&mut locks, "c"), 2);
    assert_eq!(download_lock(&mut locks, "b"), 1);
}

#[test]
fn poisoned_lock_still_opens() {
    let mutex = Mutex::new(7);
    assert_eq!(*lock(mutex.lock()), 7);
    let poisoned = Err(PoisonError::new(mutex.lock().unwrap()));
    assert_eq!(*lock(poisoned), 7);
}

#[test]
fn fine_tuned_selections_share_one_lock() {
    let catalog = catalog();
    let mut locks = DownloadLocks::new();
    let mut number = |model: FfiDemucsModel| {
        download_lock(&mut locks, &model.info(&catalog).filename)
    };
    let drums = number(FfiDemucsModel::FineTuned {
        stems: vec![FfiStemKind::Drums],
    });
    assert_ne!(number(FfiDemucsModel::FourStem), drums);
    let vocals = number(FfiDemucsModel::FineTuned {
        stems: vec![FfiStemKind::Vocals, FfiStemKind::Bass],
    });
    assert_eq!(vocals, drums);
}

#[test]
fn download_stays_with_its_files() {
    let download = connected(Some("1000")).step(failed("full")).step(failed("gone"));
    assert_eq!(download.dir, configured(&[]));
    assert_eq!(download.target, "htdemucs.safetensors");
    assert_eq!(download.partial, "htdemucs.safetensors.part");
}
