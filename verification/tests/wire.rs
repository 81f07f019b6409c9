use bytes::Bytes;
use vox_media::fragment::fragment_frame;
use vox_media::fragment::fragment_video;
use vox_media::fragment::MAX_FRAGMENT_PAYLOAD;
use vox_media::frame::InFrame;
use vox_media::frame::OutFrame;
use vox_media::header::MediaHeader;
use vox_media::header::CODEC_AV1;
use vox_media::header::CODEC_OPUS;
use vox_media::header::FLAG_END_OF_FRAME;
use vox_media::header::FLAG_HAS_DEP_DESC;
use vox_media::header::FLAG_KEYFRAME;
use vox_media::header::HEADER_SIZE;
use vox_media::header::MEDIA_TYPE_AUDIO;
use vox_media::header::MEDIA_TYPE_VIDEO;

fn sample_header() -> MediaHeader {
    MediaHeader {
        version: 1,
        media_type: 1,
        codec_id: 2,
        flags: 0xC0,
        room_id: 0x11223344,
        user_id: 0x55667788,
        sequence: 0x0A0B0C0D,
        timestamp: 0x01020304,
        spatial_id: 2,
        temporal_id: 5,
        dtx: true,
    }
}

#[test]
fn header_encodes_to_documented_bytes() {
    let bytes = sample_header().encode();
    assert_eq!(
        bytes,
        [
            0x01, 0x01, 0x02, 0xC0, 0x11, 0x22, 0x33, 0x44, 0x55, 0x66, 0x77, 0x88, 0x0A, 0x0B,
            0x0C, 0x0D, 0x01, 0x02, 0x03, 0x04, 0x25, 0x80
        ]
    );
}

#[test]
fn header_round_trips() {
    let h = sample_header();
    assert_eq!(MediaHeader::parse(&h.encode()), Some(h));
    let plain = MediaHeader {
        version: 1,
        media_type: 0,
        codec_id: 1,
        flags: 0x40,
        room_id: 0,
        user_id: u32::MAX,
        sequence: 1,
        timestamp: 960,
        spatial_id: 15,
        temporal_id: 0,
        dtx: false,
    };
    assert_eq!(MediaHeader::parse(&plain.encode()), Some(plain));
}

#[test]
fn header_parse_rejects_short_input() {
    assert_eq!(MediaHeader::parse(&[]), None);
    assert_eq!(MediaHeader::parse(&[0u8; 21]), None);
    assert!(MediaHeader::parse(&[0u8; 22]).is_some());
}

#[test]
fn header_parse_ignores_trailing_bytes_and_low_dtx_bits() {
    let mut data = sample_header().encode().to_vec();
    data[21] = 0x7F;
    data.extend_from_slice(&[9, 9, 9]);
    let h = MediaHeader::parse(&data).unwrap();
    assert!(!h.dtx);
    assert_eq!(h.spatial_id, 2);
    assert_eq!(h.temporal_id, 5);
    data[21] = 0xFF;
    assert!(MediaHeader::parse(&data).unwrap().dtx);
}

#[test]
fn header_encode_masks_layer_ids() {
    let mut h = sample_header();
    h.spatial_id = 0x12;
    h.temporal_id = 0x35;
    assert_eq!(h.encode()[20], 0x25);
}

#[test]
fn header_flag_getters() {
    let mut h = sample_header();
    assert!(h.is_keyframe());
    assert!(h.is_end_of_frame());
    assert!(!h.has_dep_desc());
    h.flags = FLAG_HAS_DEP_DESC;
    assert!(!h.is_keyframe());
    assert!(!h.is_end_of_frame());
    assert!(h.has_dep_desc());
}

#[test]
fn audio_frame_defaults() {
    let f = OutFrame::audio(7, 9, CODEC_OPUS, 3, 2880, Bytes::from_static(b"abc"));
    assert_eq!(f.header.version, 1);
    assert_eq!(f.header.media_type, MEDIA_TYPE_AUDIO);
    assert_eq!(f.header.codec_id, CODEC_OPUS);
    assert_eq!(f.header.flags, FLAG_END_OF_FRAME);
    assert_eq!(f.header.room_id, 7);
    assert_eq!(f.header.user_id, 9);
    assert_eq!(f.header.sequence, 3);
    assert_eq!(f.header.timestamp, 2880);
    assert!(!f.header.dtx);
    assert_eq!(&f.payload[..], b"abc");
}

#[test]
fn video_frame_flags() {
    let f = OutFrame::video(1, 2, 3, 4, true, true, Bytes::new());
    assert_eq!(f.header.flags, 0xC0);
    assert_eq!(f.header.media_type, MEDIA_TYPE_VIDEO);
    assert_eq!(f.header.codec_id, CODEC_AV1);
    assert_eq!(OutFrame::video(1, 2, 3, 4, true, false, Bytes::new()).header.flags, 0x80);
    assert_eq!(OutFrame::video(1, 2, 3, 4, false, true, Bytes::new()).header.flags, 0x40);
    assert_eq!(OutFrame::video(1, 2, 3, 4, false, false, Bytes::new()).header.flags, 0x00);
}

#[test]
fn frame_encode_is_header_then_payload() {
    let f = OutFrame::audio(7, 9, CODEC_OPUS, 3, 2880, Bytes::from_static(b"payload"));
    let datagram = f.encode();
    assert_eq!(datagram.len(), HEADER_SIZE + 7);
    assert_eq!(datagram[0], 1);
    assert_eq!(&datagram[..HEADER_SIZE], &f.header.encode()[..]);
    assert_eq!(&datagram[HEADER_SIZE..], b"payload");
}

#[test]
fn frame_decode_splits_header_and_payload() {
    let f = OutFrame::video(7, 9, 11, 13, true, false, Bytes::from_static(b"xyz"));
    let back = InFrame::decode(f.encode()).unwrap();
    assert_eq!(back.header, f.header);
    assert_eq!(&back.payload[..], b"xyz");
    assert!(InFrame::decode(Bytes::from_static(&[0u8; 21])).is_none());
    let bare = InFrame::decode(Bytes::from_static(&[0u8; 22])).unwrap();
    assert!(bare.payload.is_empty());
}

#[test]
fn fragmentation_of_3600_byte_keyframe() {
    let data: Vec<u8> = (0..3600u32).map(|i| (i % 251) as u8).collect();
    let mut seq = 100u32;
    let frames = fragment_video(1, 2, &mut seq, 77, true, &data);
    assert_eq!(seq, 104);
    let sizes: Vec<usize> = frames.iter().map(|f| f.payload.len()).collect();
    assert_eq!(sizes, vec![1178, 1178, 1178, 66]);
    let flags: Vec<u8> = frames.iter().map(|f| f.header.flags).collect();
    assert_eq!(flags, vec![0x80, 0x00, 0x00, 0x40]);
    let seqs: Vec<u32> = frames.iter().map(|f| f.header.sequence).collect();
    assert_eq!(seqs, vec![100, 101, 102, 103]);
    assert!(frames.iter().all(|f| f.header.timestamp == 77));
    let joined: Vec<u8> = frames.iter().flat_map(|f| f.payload.to_vec()).collect();
    assert_eq!(joined, data);
}

#[test]
fn fragmentation_of_delta_frame_has_no_keyframe_flag() {
    let data = vec![5u8; 2000];
    let mut seq = 0u32;
    let frames = fragment_video(1, 2, &mut seq, 1, false, &data);
    let flags: Vec<u8> = frames.iter().map(|f| f.header.flags).collect();
    assert_eq!(flags, vec![0x00, 0x40]);
}

#[test]
fn fragmentation_of_empty_payload_is_one_empty_fragment() {
    let mut seq = 5u32;
    let frames = fragment_video(1, 2, &mut seq, 1, true, &[]);
    assert_eq!(frames.len(), 1);
    assert_eq!(frames[0].header.flags, FLAG_KEYFRAME | FLAG_END_OF_FRAME);
    assert!(frames[0].payload.is_empty());
    assert_eq!(seq, 6);
}

#[test]
fn fragmentation_at_exact_multiples() {
    let mut seq = 0u32;
    let one = fragment_video(1, 2, &mut seq, 1, false, &vec![0u8; MAX_FRAGMENT_PAYLOAD]);
    assert_eq!(one.len(), 1);
    let two = fragment_video(1, 2, &mut seq, 1, false, &vec![0u8; MAX_FRAGMENT_PAYLOAD + 1]);
    assert_eq!(two.len(), 2);
    assert_eq!(two[1].payload.len(), 1);
    assert_eq!(seq, 3);
}

#[test]
fn fragmentation_sequence_wraps() {
    let mut seq = u32::MAX;
    let frames = fragment_frame(1, 2, &mut seq, 1, false, &[1, 2, 3, 4, 5], 2);
    let seqs: Vec<u32> = frames.iter().map(|f| f.header.sequence).collect();
    assert_eq!(seqs, vec![u32::MAX, 0, 1]);
    assert_eq!(seq, 2);
    let sizes: Vec<usize> = frames.iter().map(|f| f.payload.len()).collect();
    assert_eq!(sizes, vec![2, 2, 1]);
}

#[test]
fn forty_kilobyte_keyframe_fragments() {
    let data = vec![0xABu8; 40 * 1024];
    let mut seq = 0u32;
    let frames = fragment_video(3, 4, &mut seq, 0, true, &data);
    assert_eq!(frames.len(), 35);
    assert_eq!(seq, 35);
    assert!(frames.iter().all(|f| f.encode().len() <= 1200));
}
