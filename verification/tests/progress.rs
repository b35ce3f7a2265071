//! Progress of separations, in the fractions a listener sees.

use demucs_ffi::fraction::Fraction;
use demucs_ffi::progress::{
    FfiSeparationListener, FfiSeparationProgress, ForwardEvent, ProgressBridge,
};
use std::sync::{Arc, Mutex};

fn value(fraction: Fraction) -> f64 {
    let done = fraction.whole as f64 + fraction.part as f64 / fraction.parts as f64;
    (done / fraction.of as f64).clamp(0.0, 1.0)
}

#[derive(Clone, Default)]
struct Recorder {
    seen: Arc<Mutex<Vec<FfiSeparationProgress>>>,
    cancel_after: Option<usize>,
}

impl FfiSeparationListener for Recorder {
    fn on_progress(&self, progress: FfiSeparationProgress) -> bool {
        let mut seen = self.seen.lock().unwrap();
        seen.push(progress);
        self.cancel_after.map_or(true, |n| seen.len() < n)
    }
}

fn bridge(recorder: &Recorder, total_chunks: usize) -> ProgressBridge<Recorder> {
    ProgressBridge {
        listener: recorder.clone(),
        chunk: 0,
        total_chunks,
        cancelled: false,
    }
}

#[test]
fn progress_bridge_is_monotonic_and_reaches_one() {
    let recorder = Recorder::default();
    let mut bridge = bridge(&recorder, 2);
    for chunk in 0..2 {
        bridge.on_event(ForwardEvent::ChunkStarted {
            index: chunk,
            total: 2,
        });
        for stem in 0..4 {
            bridge.on_event(ForwardEvent::StemDone {
                index: stem,
                total: 4,
            });
        }
        bridge.on_event(ForwardEvent::ChunkDone {
            index: chunk,
            total: 2,
        });
    }
    let fractions: Vec<f64> = recorder
        .seen
        .lock()
        .unwrap()
        .iter()
        .map(|progress| value(progress.fraction))
        .collect();
    assert!(fractions.windows(2).all(|w| w[0] <= w[1]), "{fractions:?}");
    assert_eq!(fractions.last().copied(), Some(1.0));
    assert!(!bridge.is_cancelled());
}

#[test]
fn progress_bridge_cancels_when_listener_returns_false() {
    let recorder = Recorder {
        cancel_after: Some(1),
        ..Default::default()
    };
    let mut bridge = bridge(&recorder, 1);
    bridge.on_event(ForwardEvent::StemDone { index: 0, total: 4 });
    assert!(bridge.is_cancelled());
}

#[test]
fn cancellation_outlives_later_agreement() {
    let mut bridge = bridge(&Recorder::default(), 1);
    bridge.heard(false);
    bridge.heard(true);
    assert!(bridge.is_cancelled());
}

#[test]
fn stems_count_as_shares_of_their_chunk() {
    let mut bridge = bridge(&Recorder::default(), 4);
    assert_eq!(
        bridge.advance(ForwardEvent::ChunkStarted { index: 1, total: 4 }),
        None
    );
    let progress = bridge
        .advance(ForwardEvent::StemDone { index: 0, total: 4 })
        .unwrap();
    assert_eq!(progress.fraction.clamped(), (5, 16));
    assert_eq!(value(progress.fraction), 0.3125);
    assert_eq!(progress.chunk_index, 1);
    assert_eq!(progress.total_chunks, 4);
    let progress = bridge
        .advance(ForwardEvent::ChunkDone { index: 1, total: 4 })
        .unwrap();
    assert_eq!(progress.fraction.clamped(), (2, 4));
}

#[test]
fn other_events_say_nothing() {
    let recorder = Recorder::default();
    let mut bridge = bridge(&recorder, 3);
    bridge.on_event(ForwardEvent::Other);
    bridge.on_event(ForwardEvent::ChunkStarted { index: 0, total: 3 });
    assert!(recorder.seen.lock().unwrap().is_empty());
}

#[test]
fn zero_totals_count_as_one() {
    let mut bridge = bridge(&Recorder::default(), 0);
    let progress = bridge
        .advance(ForwardEvent::StemDone { index: 0, total: 0 })
        .unwrap();
    assert_eq!(progress.total_chunks, 1);
    assert_eq!(progress.fraction.clamped(), (1, 1));
}

#[test]
fn fractions_stop_at_one() {
    let mut bridge = bridge(&Recorder::default(), 1);
    let progress = bridge
        .advance(ForwardEvent::ChunkDone { index: 6, total: 2 })
        .unwrap();
    assert_eq!(progress.fraction.clamped(), (2, 2));
    assert_eq!(value(progress.fraction), 1.0);
    let huge = Fraction {
        whole: u64::MAX,
        part: u64::MAX,
        parts: u64::MAX,
        of: u64::MAX,
    };
    let (done, of) = huge.clamped();
    assert_eq!(done, of);
}
