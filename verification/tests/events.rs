use vox_media::camera::CameraStopHandle;
use vox_media::event::MediaEvent;
use vox_media::queue::local_preview;
use vox_media::queue::push_video_frame;
use vox_media::queue::VideoFrameOutput;
use vox_media::queue::VideoFrameQueue;
use vox_media::text::prefixed;
use vox_media::text::push_decimal;
use vox_media::text::push_decimal_digits;

fn pair(kind: &str, detail: &str) -> (String, String) {
    (kind.to_string(), detail.to_string())
}

#[test]
fn events_as_type_and_detail() {
    assert_eq!(MediaEvent::Connected.to_tuple(), pair("connected", ""));
    assert_eq!(MediaEvent::Disconnected("bye".to_string()).to_tuple(), pair("disconnected", "bye"));
    assert_eq!(
        MediaEvent::ConnectFailed("no".to_string()).to_tuple(),
        pair("connect_failed", "no")
    );
    assert_eq!(
        MediaEvent::Reconnecting { attempt: 3, delay_secs: 4 }.to_tuple(),
        pair("reconnecting", "attempt=3,delay=4")
    );
    assert_eq!(
        MediaEvent::Reconnecting { attempt: u32::MAX, delay_secs: u64::MAX }.to_tuple(),
        pair("reconnecting", "attempt=4294967295,delay=18446744073709551615")
    );
    assert_eq!(MediaEvent::AudioError("a".to_string()).to_tuple(), pair("audio_error", "a"));
    assert_eq!(MediaEvent::VideoError("v".to_string()).to_tuple(), pair("video_error", "v"));
    assert_eq!(MediaEvent::SpeakingStart(0).to_tuple(), pair("speaking_start", "0"));
    assert_eq!(MediaEvent::SpeakingStop(1207).to_tuple(), pair("speaking_stop", "1207"));
}

#[test]
fn decimal_text() {
    for n in [0u64, 7, 10, 99, 100, 1234567890, u64::MAX] {
        let mut s = "n=".to_string();
        push_decimal(&mut s, n);
        assert_eq!(s, format!("n={n}"));
        let mut v = vec![b'#'];
        push_decimal_digits(&mut v, n);
        assert_eq!(v, format!("#{n}").into_bytes());
    }
    assert_eq!(prefixed("a: ", "b"), "a: b");
    assert_eq!(prefixed("", ""), "");
}

fn picture(user_id: u32) -> VideoFrameOutput {
    VideoFrameOutput { user_id, width: 2, height: 1, rgba: vec![0; 8] }
}

#[test]
fn video_queue_keeps_the_newest_eight() {
    let mut q = VideoFrameQueue::new();
    assert!(q.pop().is_none());
    for user in 0..8 {
        q.push(picture(user));
    }
    assert_eq!(q.len(), 8);
    push_video_frame(&mut q, picture(8));
    push_video_frame(&mut q, picture(9));
    assert_eq!(q.len(), 8);
    let users: Vec<u32> = std::iter::from_fn(|| q.pop()).map(|f| f.user_id).collect();
    assert_eq!(users, vec![2, 3, 4, 5, 6, 7, 8, 9]);
    assert_eq!(q.len(), 0);
}

#[test]
fn local_preview_is_user_zero() {
    let frame = local_preview(4, 2, vec![9; 32]);
    assert_eq!(frame, VideoFrameOutput { user_id: 0, width: 4, height: 2, rgba: vec![9; 32] });
}

#[test]
fn video_queue_is_first_in_first_out() {
    let mut q = VideoFrameQueue::new();
    q.push(picture(0));
    q.push(picture(5));
    assert_eq!(q.pop(), Some(picture(0)));
    q.push(picture(6));
    assert_eq!(q.pop(), Some(picture(5)));
    assert_eq!(q.pop(), Some(picture(6)));
    assert_eq!(q.pop(), None);
}

#[test]
fn stop_handle_raises_the_flag() {
    let (handle, flag) = CameraStopHandle::new();
    assert!(!flag.is_raised());
    handle.stop();
    assert!(flag.is_raised());
    let (handle, flag) = CameraStopHandle::new();
    assert!(!flag.is_raised());
    drop(handle);
    assert!(flag.is_raised());
}
