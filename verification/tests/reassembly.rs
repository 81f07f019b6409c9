use std::time::Duration;
use vox_media::fragment::fragment_frame;
use vox_media::fragment::fragment_video;
use vox_media::header::MediaHeader;
use vox_media::reassembly::VideoReassembler;

fn video_header(user_id: u32, timestamp: u32, sequence: u32, flags: u8) -> MediaHeader {
    MediaHeader {
        version: 1,
        media_type: 1,
        codec_id: 2,
        flags,
        room_id: 1,
        user_id,
        sequence,
        timestamp,
        spatial_id: 0,
        temporal_id: 0,
        dtx: false,
    }
}

#[test]
fn single_fragment_frame_completes_at_once() {
    let mut r = VideoReassembler::new();
    let frame = r.add_fragment_at(&video_header(7, 100, 0, 0xC0), b"hello", 0).unwrap();
    assert_eq!(frame.user_id, 7);
    assert_eq!(frame.timestamp, 100);
    assert!(frame.is_keyframe);
    assert_eq!(frame.data, b"hello");
    assert_eq!(r.pending_frames(), 0);
}

#[test]
fn fragments_in_order_are_joined() {
    let mut r = VideoReassembler::new();
    assert!(r.add_fragment_at(&video_header(7, 1, 10, 0x80), b"ab", 0).is_none());
    assert!(r.add_fragment_at(&video_header(7, 1, 11, 0x00), b"cd", 1).is_none());
    assert_eq!(r.pending_frames(), 1);
    let frame = r.add_fragment_at(&video_header(7, 1, 12, 0x40), b"ef", 2).unwrap();
    assert_eq!(frame.data, b"abcdef");
    assert!(frame.is_keyframe);
    assert_eq!(r.pending_frames(), 0);
}

#[test]
fn fragments_out_of_order_are_sorted_by_sequence() {
    let mut r = VideoReassembler::new();
    assert!(r.add_fragment_at(&video_header(7, 1, 11, 0x00), b"cd", 0).is_none());
    assert!(r.add_fragment_at(&video_header(7, 1, 10, 0x00), b"ab", 0).is_none());
    let frame = r.add_fragment_at(&video_header(7, 1, 12, 0x40), b"ef", 0).unwrap();
    assert_eq!(frame.data, b"abcdef");
    assert!(!frame.is_keyframe);
}

#[test]
fn keyframe_flag_is_latched_from_any_fragment() {
    let mut r = VideoReassembler::new();
    assert!(r.add_fragment_at(&video_header(7, 1, 11, 0x00), b"b", 0).is_none());
    assert!(r.add_fragment_at(&video_header(7, 1, 10, 0x80), b"a", 0).is_none());
    let frame = r.add_fragment_at(&video_header(7, 1, 12, 0x40), b"c", 0).unwrap();
    assert!(frame.is_keyframe);
    assert_eq!(frame.data, b"abc");
}

#[test]
fn frames_of_different_users_and_timestamps_do_not_mix() {
    let mut r = VideoReassembler::new();
    assert!(r.add_fragment_at(&video_header(1, 5, 0, 0x00), b"A", 0).is_none());
    assert!(r.add_fragment_at(&video_header(2, 5, 0, 0x00), b"B", 0).is_none());
    assert!(r.add_fragment_at(&video_header(1, 6, 0, 0x00), b"C", 0).is_none());
    assert_eq!(r.pending_frames(), 3);
    assert_eq!(r.add_fragment_at(&video_header(2, 5, 1, 0x40), b"b", 0).unwrap().data, b"Bb");
    assert_eq!(r.add_fragment_at(&video_header(1, 6, 1, 0x40), b"c", 0).unwrap().data, b"Cc");
    assert_eq!(r.add_fragment_at(&video_header(1, 5, 1, 0x40), b"a", 0).unwrap().data, b"Aa");
    assert_eq!(r.pending_frames(), 0);
}

#[test]
fn early_end_of_frame_releases_a_truncated_frame() {
    let mut r = VideoReassembler::new();
    assert!(r.add_fragment_at(&video_header(7, 1, 10, 0x80), b"ab", 0).is_none());
    let frame = r.add_fragment_at(&video_header(7, 1, 12, 0x40), b"ef", 0).unwrap();
    assert_eq!(frame.data, b"abef");
    // The late fragment starts a collection of its own.
    assert!(r.add_fragment_at(&video_header(7, 1, 11, 0x00), b"cd", 0).is_none());
    assert_eq!(r.pending_frames(), 1);
}

#[test]
fn equal_sequence_numbers_keep_their_order_of_arrival() {
    let mut r = VideoReassembler::new();
    assert!(r.add_fragment_at(&video_header(7, 1, 5, 0x00), b"x", 0).is_none());
    assert!(r.add_fragment_at(&video_header(7, 1, 5, 0x00), b"y", 0).is_none());
    assert!(r.add_fragment_at(&video_header(7, 1, 4, 0x00), b"w", 0).is_none());
    let frame = r.add_fragment_at(&video_header(7, 1, 5, 0x40), b"z", 0).unwrap();
    assert_eq!(frame.data, b"wxyz");
}

#[test]
fn stale_partials_are_evicted_after_two_seconds() {
    let mut r = VideoReassembler::new();
    assert!(r.add_fragment_at(&video_header(1, 1, 0, 0x00), b"old", 1000).is_none());
    assert!(r.add_fragment_at(&video_header(2, 1, 0, 0x00), b"new", 2500).is_none());
    r.evict_stale_at(2999, 2000);
    assert_eq!(r.pending_frames(), 2);
    r.evict_stale_at(3000, 2000);
    assert_eq!(r.pending_frames(), 1);
    // The evicted frame is gone: its end fragment comes out alone.
    assert_eq!(r.add_fragment_at(&video_header(1, 1, 1, 0x40), b"!", 3000).unwrap().data, b"!");
    assert_eq!(r.add_fragment_at(&video_header(2, 1, 1, 0x40), b"!", 3000).unwrap().data, b"new!");
}

#[test]
fn a_fragment_refreshes_the_age_of_its_frame() {
    let mut r = VideoReassembler::new();
    assert!(r.add_fragment_at(&video_header(1, 1, 0, 0x00), b"a", 0).is_none());
    assert!(r.add_fragment_at(&video_header(1, 1, 1, 0x00), b"b", 1500).is_none());
    r.evict_stale_at(3000, 2000);
    assert_eq!(r.pending_frames(), 1);
    r.evict_stale_at(3500, 2000);
    assert_eq!(r.pending_frames(), 0);
}

#[test]
fn eviction_with_zero_max_age_drops_everything() {
    let mut r = VideoReassembler::new();
    assert!(r.add_fragment_at(&video_header(1, 1, 0, 0x00), b"a", 10).is_none());
    r.evict_stale_at(5, 0);
    assert_eq!(r.pending_frames(), 0);
}

#[test]
fn clocked_calls_behave_like_timed_ones() {
    let mut r = VideoReassembler::new();
    assert!(r.add_fragment(&video_header(7, 1, 10, 0x00), b"ab").is_none());
    r.evict_stale(Duration::from_secs(2));
    assert_eq!(r.pending_frames(), 1);
    let frame = r.add_fragment(&video_header(7, 1, 11, 0x40), b"cd").unwrap();
    assert_eq!(frame.data, b"abcd");
    assert!(r.add_fragment(&video_header(7, 2, 12, 0x00), b"ef").is_none());
    r.evict_stale(Duration::from_secs(0));
    assert_eq!(r.pending_frames(), 0);
}

fn deliver(order: &[usize], data: &[u8], max: usize, keyframe: bool) -> (usize, Option<(bool, Vec<u8>)>) {
    let mut seq = 1000u32;
    let frames = fragment_frame(9, 4, &mut seq, 55, keyframe, data, max);
    let mut r = VideoReassembler::new();
    let mut released = 0;
    let mut last = None;
    for (step, &i) in order.iter().enumerate() {
        let payload = frames[i].payload.to_vec();
        if let Some(frame) = r.add_fragment_at(&frames[i].header, &payload, step as u64) {
            released += 1;
            last = Some((frame.is_keyframe, frame.data));
        }
    }
    (released, last)
}

#[test]
fn any_order_with_the_end_last_rebuilds_the_frame() {
    let data: Vec<u8> = (0..23u8).collect();
    for order in [[0, 1, 2, 3, 4], [3, 1, 0, 2, 4], [2, 3, 1, 0, 4], [1, 0, 3, 2, 4]] {
        for keyframe in [true, false] {
            let (released, last) = deliver(&order, &data, 5, keyframe);
            assert_eq!(released, 1);
            assert_eq!(last, Some((keyframe, data.clone())));
        }
    }
}

#[test]
fn forty_kilobyte_keyframe_reassembles_to_one_frame() {
    let data: Vec<u8> = (0..40 * 1024u32).map(|i| (i * 7 % 256) as u8).collect();
    let mut seq = 0u32;
    let frames = fragment_video(1, 2, &mut seq, 9, true, &data);
    let mut r = VideoReassembler::new();
    let mut out = Vec::new();
    for f in frames.iter().rev().skip(1).rev() {
        assert!(r.add_fragment_at(&f.header, &f.payload, 0).is_none());
    }
    let last = frames.last().unwrap();
    if let Some(frame) = r.add_fragment_at(&last.header, &last.payload, 0) {
        out.push(frame);
    }
    assert_eq!(out.len(), 1);
    assert!(out[0].is_keyframe);
    assert_eq!(out[0].user_id, 2);
    assert_eq!(out[0].timestamp, 9);
    assert_eq!(out[0].data, data);
}
