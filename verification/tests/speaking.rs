use vox_media::speaking::SpeakingEdge;
use vox_media::speaking::SpeakingTable;

const LOUD: [i16; 960] = [1639; 960];
const QUIET: [i16; 960] = [0; 960];

#[test]
fn speech_for_half_a_second_then_silence() {
    // Frames of 20 ms: level 0.05 for 500 ms, then silence.
    let mut table = SpeakingTable::new();
    let mut events = Vec::new();
    for frame in 0..60u64 {
        let now = frame * 20;
        let pcm: &[i16] = if now < 500 { &LOUD } else { &QUIET };
        if let Some(edge) = table.update(3, pcm, now) {
            events.push((now, edge));
        }
    }
    // The last loud frame came at 480 ms; the stop follows 200 ms later.
    assert_eq!(events, vec![(0, SpeakingEdge::Start), (680, SpeakingEdge::Stop)]);
    assert!(!table.is_speaking(3));
}

#[test]
fn short_burst_gives_one_start_and_one_stop() {
    let mut table = SpeakingTable::new();
    let mut events = Vec::new();
    for (now, loud) in [(0u64, true), (20, true), (40, true), (60, false), (100, false), (239, false), (240, false), (260, false), (1000, false)] {
        if let Some(edge) = table.update(1, if loud { &LOUD } else { &QUIET }, now) {
            events.push((now, edge));
        }
    }
    assert_eq!(events, vec![(0, SpeakingEdge::Start), (240, SpeakingEdge::Stop)]);
}

#[test]
fn pause_shorter_than_holdoff_does_not_stop() {
    let mut table = SpeakingTable::new();
    assert_eq!(table.update(1, &LOUD, 0), Some(SpeakingEdge::Start));
    assert_eq!(table.update(1, &QUIET, 100), None);
    assert_eq!(table.update(1, &QUIET, 199), None);
    assert_eq!(table.update(1, &LOUD, 210), None);
    assert_eq!(table.update(1, &QUIET, 400), None);
    assert!(table.is_speaking(1));
    assert_eq!(table.update(1, &QUIET, 410), Some(SpeakingEdge::Stop));
    assert_eq!(table.update(1, &QUIET, 5000), None);
    assert_eq!(table.update(1, &LOUD, 5020), Some(SpeakingEdge::Start));
}

#[test]
fn users_are_tracked_apart() {
    let mut table = SpeakingTable::new();
    assert_eq!(table.update(1, &LOUD, 0), Some(SpeakingEdge::Start));
    assert_eq!(table.update(2, &QUIET, 0), None);
    assert_eq!(table.update(2, &LOUD, 10), Some(SpeakingEdge::Start));
    assert_eq!(table.update(1, &QUIET, 300), Some(SpeakingEdge::Stop));
    assert!(table.is_speaking(2));
    assert!(!table.is_speaking(1));
    assert!(!table.is_speaking(3));
}

#[test]
fn empty_buffers_change_nothing() {
    let mut table = SpeakingTable::new();
    assert_eq!(table.update(1, &[], 0), None);
    assert_eq!(table.update(1, &LOUD, 0), Some(SpeakingEdge::Start));
    assert_eq!(table.update(1, &[], 10_000), None);
    assert!(table.is_speaking(1));
}

#[test]
fn quiet_newcomer_never_stops() {
    let mut table = SpeakingTable::new();
    assert_eq!(table.update(1, &QUIET, 0), None);
    assert_eq!(table.update(1, &QUIET, 1000), None);
    assert!(!table.is_speaking(1));
}

#[test]
fn threshold_is_one_hundredth_of_full_scale() {
    let mut table = SpeakingTable::new();
    assert_eq!(table.update(1, &[327; 960], 0), None);
    assert_eq!(table.update(1, &[328; 960], 20), Some(SpeakingEdge::Start));
}

#[test]
fn silencing_stops_a_speaker_once() {
    let mut table = SpeakingTable::new();
    assert!(!table.silence(1));
    assert_eq!(table.update(1, &LOUD, 0), Some(SpeakingEdge::Start));
    assert!(table.silence(1));
    assert!(!table.is_speaking(1));
    assert!(!table.silence(1));
    assert_eq!(table.update(1, &QUIET, 1000), None);
}
