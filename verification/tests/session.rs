use bytes::Bytes;
use vox_media::event::MediaEvent;
use vox_media::frame::OutFrame;
use vox_media::header::CODEC_OPUS;
use vox_media::idle::DecoderTable;
use vox_media::reconnect::backoff_delay;
use vox_media::reconnect::next_reconnect_step;
use vox_media::reconnect::ReconnectStep;
use vox_media::session::Inbound;
use vox_media::session::Session;
use vox_media::session::SpeakingEvent;
use vox_media::session::VideoConfig;
use vox_media::session::VideoSwitch;
use vox_media::supervisor::encode_failure;
use vox_media::supervisor::speaking_report;
use vox_media::supervisor::ConnectParams;
use vox_media::supervisor::Directive;
use vox_media::supervisor::Input;
use vox_media::supervisor::MediaCommand;
use vox_media::supervisor::Pending;
use vox_media::supervisor::Supervisor;
use vox_media::video::CameraConfig;

type TestSession = Session<&'static str, &'static str>;
type TestSupervisor = Supervisor<&'static str, &'static str>;

fn params(room_id: u32, user_id: u32) -> ConnectParams {
    ConnectParams {
        url: "quic://sfu.example:4433".to_string(),
        token: "token".to_string(),
        room_id,
        user_id,
        cert_der: None,
        idle_timeout_secs: 30,
        datagram_buffer_size: 65535,
    }
}

fn connected(room_id: u32, user_id: u32) -> TestSupervisor {
    let mut sup = TestSupervisor::new();
    let out = sup.handle(Input::Command(MediaCommand::Connect(params(room_id, user_id))));
    assert_eq!(out.directive, Directive::Establish { delay_secs: 0 });
    assert!(out.events.is_empty());
    let out = sup.handle(Input::Established);
    assert_eq!(out.events, vec![MediaEvent::Connected]);
    assert_eq!(out.directive, Directive::Idle);
    sup
}

#[test]
fn backoff_delays_double_up_to_thirty_seconds() {
    let delays: Vec<u64> = (1..=8).map(backoff_delay).collect();
    assert_eq!(delays, vec![1, 2, 4, 8, 16, 30, 30, 30]);
    assert_eq!(backoff_delay(u32::MAX), 30);
}

#[test]
fn reconnect_steps_end_after_five_attempts() {
    assert_eq!(next_reconnect_step(0), ReconnectStep::Attempt { attempt: 1, delay_secs: 1 });
    assert_eq!(next_reconnect_step(4), ReconnectStep::Attempt { attempt: 5, delay_secs: 16 });
    assert_eq!(next_reconnect_step(5), ReconnectStep::GiveUp);
    assert_eq!(next_reconnect_step(u32::MAX), ReconnectStep::GiveUp);
}

#[test]
fn fresh_session_has_documented_defaults() {
    let s = TestSession::new(11, 22);
    assert_eq!(s.room_id(), 11);
    assert_eq!(s.user_id(), 22);
    assert_eq!(s.sequence(), 0);
    assert_eq!(s.timestamp(), 0);
    assert!(!s.is_muted());
    assert!(!s.is_deafened());
    assert!(!s.is_video_enabled());
    assert_eq!(s.video_config(), VideoConfig { width: 640, height: 480, fps: 30, bitrate_kbps: 500 });
    assert_eq!(VideoConfig::default(), s.video_config());
    assert_eq!(s.user_volume(5), None);
}

#[test]
fn audio_frames_advance_sequence_and_timestamp() {
    let mut s = TestSession::new(11, 22);
    let f: OutFrame = s.next_audio_frame(Bytes::from_static(b"opus"), false);
    assert_eq!(f.header.sequence, 0);
    assert_eq!(f.header.timestamp, 0);
    assert_eq!(f.header.room_id, 11);
    assert_eq!(f.header.user_id, 22);
    assert_eq!(f.header.codec_id, CODEC_OPUS);
    assert_eq!(f.header.flags, 0x40);
    assert!(!f.header.dtx);
    let f = s.next_audio_frame(Bytes::from_static(b""), true);
    assert_eq!(f.header.sequence, 1);
    assert_eq!(f.header.timestamp, 960);
    assert!(f.header.dtx);
    assert_eq!(f.encode()[0], 1);
    assert_eq!(f.encode()[21], 0x80);
    assert_eq!(s.sequence(), 2);
    assert_eq!(s.timestamp(), 1920);
}

#[test]
fn captured_audio_is_processed_and_reported() {
    let mut s = TestSession::new(1, 9);
    s.set_input_volume(2000);
    s.set_noise_gate(50);
    let mut pcm = vec![1000i16; 960];
    let out = s.on_captured(&mut pcm, 0);
    assert!(out.send);
    assert_eq!(out.event, Some(SpeakingEvent::Start(9)));
    assert_eq!(pcm, vec![2000i16; 960]);
    let mut quiet = vec![100i16; 960];
    let out = s.on_captured(&mut quiet, 100);
    assert!(out.send);
    assert_eq!(out.event, None);
    assert_eq!(quiet, vec![0i16; 960]);
    let mut quiet = vec![0i16; 960];
    let out = s.on_captured(&mut quiet, 200);
    assert_eq!(out.event, Some(SpeakingEvent::Stop(9)));
}

#[test]
fn muting_drops_audio_and_stops_speaking_once() {
    let mut s = TestSession::new(1, 9);
    let mut pcm = vec![1000i16; 960];
    assert_eq!(s.on_captured(&mut pcm, 0).event, Some(SpeakingEvent::Start(9)));
    s.set_mute(true);
    assert!(s.is_muted());
    let mut pcm = vec![1000i16; 960];
    let out = s.on_captured(&mut pcm, 20);
    assert!(!out.send);
    assert_eq!(out.event, Some(SpeakingEvent::Stop(9)));
    assert_eq!(pcm, vec![1000i16; 960]);
    let out = s.on_captured(&mut pcm, 40);
    assert!(!out.send);
    assert_eq!(out.event, None);
    s.set_mute(false);
    assert_eq!(s.on_captured(&mut pcm, 60).event, Some(SpeakingEvent::Start(9)));
}

#[test]
fn datagrams_are_dispatched_by_media_type() {
    let mut s = TestSession::new(1, 9);
    assert!(matches!(s.on_datagram(Bytes::from_static(&[1, 0, 1]), 0), Inbound::Ignored));
    let audio = OutFrame::audio(1, 5, CODEC_OPUS, 3, 2880, Bytes::from_static(b"pcm")).encode();
    match s.on_datagram(audio.clone(), 0) {
        Inbound::Audio(frame) => {
            assert_eq!(frame.header.user_id, 5);
            assert_eq!(&frame.payload[..], b"pcm");
        }
        _ => panic!("expected audio"),
    }
    s.set_deaf(true);
    assert!(matches!(s.on_datagram(audio, 0), Inbound::Ignored));
    let first = OutFrame::video(1, 5, 0, 7, true, false, Bytes::from_static(b"ab")).encode();
    let last = OutFrame::video(1, 5, 1, 7, false, true, Bytes::from_static(b"cd")).encode();
    assert!(matches!(s.on_datagram(first, 0), Inbound::Collecting));
    match s.on_datagram(last, 1) {
        Inbound::Video(frame) => {
            assert_eq!(frame.user_id, 5);
            assert_eq!(frame.timestamp, 7);
            assert!(frame.is_keyframe);
            assert_eq!(frame.data, b"abcd");
        }
        _ => panic!("expected video"),
    }
    let mut screen = OutFrame::video(1, 5, 2, 8, false, true, Bytes::new());
    screen.header.media_type = 2;
    assert!(matches!(s.on_datagram(screen.encode(), 2), Inbound::Ignored));
}

#[test]
fn decoded_audio_is_scaled_by_user_and_output_gain() {
    let mut s = TestSession::new(1, 9);
    let mut pcm = vec![1000i16, -1000, 0];
    assert_eq!(s.on_decoded_audio(5, &mut pcm, 0), Some(SpeakingEvent::Start(5)));
    assert_eq!(pcm, vec![1000, -1000, 0]);
    s.set_output_volume(500);
    s.set_user_volume(5, 3000);
    assert_eq!(s.user_volume(5), Some(3000));
    let mut pcm = vec![1000i16, -1000, 1];
    assert_eq!(s.on_decoded_audio(5, &mut pcm, 20), None);
    assert_eq!(pcm, vec![1500, -1500, 1]);
    let mut other = vec![1000i16, -1000, 1];
    assert_eq!(s.on_decoded_audio(6, &mut other, 20), Some(SpeakingEvent::Start(6)));
    assert_eq!(other, vec![500, -500, 0]);
    s.set_user_volume(5, 1000);
    assert_eq!(s.user_volume(5), None);
    s.set_user_volume(6, 2000);
    let mut unity = vec![i16::MIN];
    s.on_decoded_audio(6, &mut unity, 40);
    assert_eq!(unity, vec![i16::MIN]);
    s.set_output_volume(0);
    let mut silent = vec![1234i16];
    s.on_decoded_audio(6, &mut silent, 60);
    assert_eq!(silent, vec![0]);
}

#[test]
fn decoders_are_dropped_after_ten_idle_seconds_and_made_anew() {
    let mut s = TestSession::new(1, 9);
    assert_eq!(s.take_audio_decoder(5), None);
    s.return_audio_decoder(5, "first", 1000);
    s.return_audio_decoder(6, "other", 9000);
    s.return_video_decoder(5, "video", 1000);
    s.cleanup(10_999);
    assert_eq!(s.take_audio_decoder(5), Some("first"));
    s.return_audio_decoder(5, "first", 1000);
    s.cleanup(11_000);
    assert_eq!(s.take_audio_decoder(5), None);
    assert_eq!(s.take_video_decoder(5), None);
    s.return_audio_decoder(5, "second", 11_000);
    assert_eq!(s.take_audio_decoder(6), Some("other"));
    s.cleanup(20_999);
    assert_eq!(s.take_audio_decoder(5), Some("second"));
}

#[test]
fn decoder_table_counts_evictions() {
    let mut t: DecoderTable<u8> = DecoderTable::new();
    t.checkin(1, 10, 0);
    t.checkin(2, 20, 5000);
    t.checkin(3, 30, 9999);
    assert!(t.contains(2));
    assert_eq!(t.evict_idle(10_000), 1);
    assert!(!t.contains(1));
    assert_eq!(t.evict_idle(15_000), 1);
    assert_eq!(t.len(), 1);
    assert_eq!(t.checkout(3), Some(30));
    assert_eq!(t.checkout(3), None);
    assert_eq!(t.len(), 0);
}

#[test]
fn cleanup_evicts_stale_partial_frames() {
    let mut s = TestSession::new(1, 9);
    let first = OutFrame::video(1, 5, 0, 7, false, false, Bytes::from_static(b"ab")).encode();
    let last = OutFrame::video(1, 5, 1, 7, false, true, Bytes::from_static(b"cd")).encode();
    assert!(matches!(s.on_datagram(first, 1000), Inbound::Collecting));
    s.cleanup(3000);
    match s.on_datagram(last, 3000) {
        Inbound::Video(frame) => assert_eq!(frame.data, b"cd"),
        _ => panic!("expected video"),
    }
}

#[test]
fn video_switch_and_packets() {
    let mut s = TestSession::new(3, 4);
    assert_eq!(s.set_video(false), VideoSwitch::Unchanged);
    s.set_video_config(VideoConfig { width: 1280, height: 720, fps: 15, bitrate_kbps: 900 });
    assert_eq!(
        s.set_video(true),
        VideoSwitch::Start {
            camera: CameraConfig { width: 1280, height: 720, fps: 15 },
            encoder: VideoConfig { width: 1280, height: 720, fps: 15, bitrate_kbps: 900 },
        }
    );
    assert!(!s.is_video_enabled());
    s.video_started();
    assert!(s.is_video_enabled());
    assert_eq!(s.set_video(true), VideoSwitch::Unchanged);
    let frames = s.next_video_packet(true, &[7u8; 3000]);
    assert_eq!(frames.len(), 3);
    assert_eq!(frames[0].header.flags, 0x80);
    assert_eq!(frames[2].header.flags, 0x40);
    assert!(frames.iter().all(|f| f.header.timestamp == 0 && f.header.room_id == 3 && f.header.user_id == 4));
    assert_eq!(s.video_sequence(), 3);
    assert_eq!(s.video_timestamp(), 1);
    let frames = s.next_video_packet(false, &[]);
    assert_eq!(frames.len(), 1);
    assert_eq!(frames[0].header.sequence, 3);
    assert_eq!(frames[0].header.timestamp, 1);
    assert_eq!(s.video_timestamp(), 2);
    assert_eq!(s.set_video(false), VideoSwitch::Stop);
    assert!(!s.is_video_enabled());
    s.video_started();
    assert_eq!(s.video_sequence(), 0);
    assert_eq!(s.video_timestamp(), 0);
}

#[test]
fn commands_without_a_session_are_ignored() {
    let mut sup = TestSupervisor::new();
    for cmd in [
        MediaCommand::Disconnect,
        MediaCommand::SetMute(true),
        MediaCommand::SetDeaf(true),
        MediaCommand::SetVideo(true),
        MediaCommand::SetInputVolume(5),
        MediaCommand::SetUserVolume { user_id: 1, volume: 5 },
    ] {
        let out = sup.handle(Input::Command(cmd));
        assert!(out.events.is_empty());
        assert_eq!(out.directive, Directive::Idle);
    }
    assert!(!sup.is_connected());
    let out = sup.handle(Input::ReadFailed("x".to_string()));
    assert!(out.events.is_empty());
}

#[test]
fn connect_success_and_failure() {
    let mut sup = TestSupervisor::new();
    sup.handle(Input::Command(MediaCommand::Connect(params(1, 2))));
    assert_eq!(sup.establish_params(), Some(&params(1, 2)));
    let out = sup.handle(Input::EstablishFailed("no route".to_string()));
    assert_eq!(out.events, vec![MediaEvent::ConnectFailed("no route".to_string())]);
    assert_eq!(out.directive, Directive::Idle);
    assert!(!sup.is_connected());
    assert_eq!(sup.last_connect_params, None);
    assert_eq!(sup.establish_params(), None);
    let sup = connected(1, 2);
    assert!(sup.is_connected());
    assert_eq!(sup.last_connect_params, Some(params(1, 2)));
    assert_eq!(sup.session.as_ref().unwrap().room_id(), 1);
    assert_eq!(sup.session.as_ref().unwrap().user_id(), 2);
}

#[test]
fn connect_while_connected_tears_down_first() {
    let mut sup = connected(1, 2);
    let out = sup.handle(Input::Command(MediaCommand::Connect(params(3, 4))));
    assert_eq!(out.directive, Directive::Establish { delay_secs: 0 });
    assert!(!sup.is_connected());
    let out = sup.handle(Input::EstablishFailed("refused".to_string()));
    assert_eq!(out.events, vec![MediaEvent::ConnectFailed("refused".to_string())]);
    // The parameters of the last successful connection stay.
    assert_eq!(sup.last_connect_params, Some(params(1, 2)));
    sup.handle(Input::Command(MediaCommand::Connect(params(3, 4))));
    sup.handle(Input::Established);
    assert_eq!(sup.session.as_ref().unwrap().room_id(), 3);
    assert_eq!(sup.last_connect_params, Some(params(3, 4)));
}

#[test]
fn disconnect_ends_the_session_and_forgets_the_parameters() {
    let mut sup = connected(1, 2);
    let out = sup.handle(Input::Command(MediaCommand::Disconnect));
    assert_eq!(out.events, vec![MediaEvent::Disconnected("user requested".to_string())]);
    assert_eq!(out.directive, Directive::Close);
    assert!(!sup.is_connected());
    assert_eq!(sup.last_connect_params, None);
    let out = sup.handle(Input::Command(MediaCommand::Disconnect));
    assert!(out.events.is_empty());
}

#[test]
fn settings_reach_the_session() {
    let mut sup = connected(1, 2);
    sup.handle(Input::Command(MediaCommand::SetMute(true)));
    sup.handle(Input::Command(MediaCommand::SetDeaf(true)));
    sup.handle(Input::Command(MediaCommand::SetUserVolume { user_id: 7, volume: 250 }));
    sup.handle(Input::Command(MediaCommand::SetVideoConfig(VideoConfig {
        width: 320,
        height: 240,
        fps: 10,
        bitrate_kbps: 100,
    })));
    let s = sup.session.as_ref().unwrap();
    assert!(s.is_muted());
    assert!(s.is_deafened());
    assert_eq!(s.user_volume(7), Some(250));
    assert_eq!(s.video_config().width, 320);
    sup.handle(Input::Command(MediaCommand::SetUserVolume { user_id: 7, volume: 1000 }));
    assert_eq!(sup.session.as_ref().unwrap().user_volume(7), None);
}

#[test]
fn video_commands_and_results() {
    let mut sup = connected(1, 2);
    let out = sup.handle(Input::Command(MediaCommand::SetVideo(true)));
    assert_eq!(
        out.directive,
        Directive::StartVideo {
            camera: CameraConfig { width: 640, height: 480, fps: 30 },
            encoder: VideoConfig { width: 640, height: 480, fps: 30, bitrate_kbps: 500 },
        }
    );
    let out = sup.handle(Input::CameraFailed("busy".to_string()));
    assert_eq!(out.events, vec![MediaEvent::VideoError("Camera start failed: busy".to_string())]);
    assert_eq!(out.directive, Directive::Idle);
    assert!(!sup.session.as_ref().unwrap().is_video_enabled());
    sup.handle(Input::Command(MediaCommand::SetVideo(true)));
    let out = sup.handle(Input::EncoderFailed("bad size".to_string()));
    assert_eq!(
        out.events,
        vec![MediaEvent::VideoError("AV1 encoder init failed: bad size".to_string())]
    );
    assert_eq!(out.directive, Directive::StopVideo);
    sup.handle(Input::Command(MediaCommand::SetVideo(true)));
    let out = sup.handle(Input::VideoStarted);
    assert!(out.events.is_empty());
    assert!(sup.session.as_ref().unwrap().is_video_enabled());
    let out = sup.handle(Input::Command(MediaCommand::SetVideo(true)));
    assert_eq!(out.directive, Directive::Idle);
    let out = sup.handle(Input::Command(MediaCommand::SetVideo(false)));
    assert_eq!(out.directive, Directive::StopVideo);
    assert_eq!(
        encode_failure("frame too large"),
        MediaEvent::VideoError("AV1 encode: frame too large".to_string())
    );
}

#[test]
fn read_error_without_parameters_disconnects() {
    let mut sup = TestSupervisor::new();
    sup.session = Some(Session::new(1, 2));
    let out = sup.handle(Input::ReadFailed("connection lost".to_string()));
    assert_eq!(out.events, vec![MediaEvent::Disconnected("connection lost".to_string())]);
    assert_eq!(out.directive, Directive::Close);
    assert!(!sup.is_connected());
}

#[test]
fn three_failed_reconnects_then_success() {
    let mut sup = connected(1, 2);
    let mut events = Vec::new();
    let mut delays = Vec::new();
    let mut out = sup.handle(Input::ReadFailed("timed out".to_string()));
    assert!(!sup.is_connected());
    let mut failures_left = 3;
    loop {
        events.extend(out.events);
        match out.directive {
            Directive::Establish { delay_secs } => {
                delays.push(delay_secs);
                assert_eq!(sup.establish_params(), Some(&params(1, 2)));
                out = if failures_left > 0 {
                    failures_left -= 1;
                    sup.handle(Input::EstablishFailed("still down".to_string()))
                } else {
                    sup.handle(Input::Established)
                };
            }
            _ => break,
        }
    }
    assert_eq!(
        events,
        vec![
            MediaEvent::Reconnecting { attempt: 1, delay_secs: 1 },
            MediaEvent::Reconnecting { attempt: 2, delay_secs: 2 },
            MediaEvent::Reconnecting { attempt: 3, delay_secs: 4 },
            MediaEvent::Reconnecting { attempt: 4, delay_secs: 8 },
            MediaEvent::Connected,
        ]
    );
    assert_eq!(delays, vec![1, 2, 4, 8]);
    assert!(sup.is_connected());
    assert_eq!(sup.pending, Pending::Nothing);
    assert_eq!(sup.last_connect_params, Some(params(1, 2)));
    assert_eq!(sup.session.as_ref().unwrap().sequence(), 0);
}

#[test]
fn five_failed_reconnects_give_up() {
    let mut sup = connected(1, 2);
    let mut events = Vec::new();
    let mut out = sup.handle(Input::ReadFailed("timed out".to_string()));
    let mut attempts = 0;
    loop {
        events.extend(out.events);
        match out.directive {
            Directive::Establish { .. } => {
                attempts += 1;
                out = sup.handle(Input::EstablishFailed("down".to_string()));
            }
            other => {
                assert_eq!(other, Directive::Close);
                break;
            }
        }
    }
    assert_eq!(attempts, 5);
    assert_eq!(events.len(), 6);
    assert_eq!(events[4], MediaEvent::Reconnecting { attempt: 5, delay_secs: 16 });
    assert_eq!(
        events[5],
        MediaEvent::Disconnected("Reconnection failed after 5 attempts".to_string())
    );
    assert!(!sup.is_connected());
    assert_eq!(sup.last_connect_params, None);
    assert_eq!(sup.pending, Pending::Nothing);
}

#[test]
fn commands_wait_while_a_result_is_awaited() {
    let mut sup = connected(1, 2);
    sup.handle(Input::ReadFailed("x".to_string()));
    let out = sup.handle(Input::Command(MediaCommand::Disconnect));
    assert!(out.events.is_empty());
    assert_eq!(out.directive, Directive::Idle);
    assert_eq!(sup.pending, Pending::Reconnecting { failed: 0 });
}

#[test]
fn speaking_events_are_reported() {
    assert_eq!(speaking_report(SpeakingEvent::Start(7)), MediaEvent::SpeakingStart(7));
    assert_eq!(speaking_report(SpeakingEvent::Stop(7)), MediaEvent::SpeakingStop(7));
}
