use vox_media::capture::CapturePipeline;
use vox_media::level::amplify;
use vox_media::level::apply_input_processing;
use vox_media::level::is_quieter_than;
use vox_media::level::measure_energy;
use vox_media::level::scale_sample;
use vox_media::mix::downmix_to_mono;
use vox_media::mix::upmix_from_mono;
use vox_media::negotiate::choose_device;
use vox_media::negotiate::negotiate_config;
use vox_media::negotiate::ConfigRange;
use vox_media::negotiate::NegotiateError;
use vox_media::negotiate::NegotiatedConfig;
use vox_media::playback::PlaybackBuffer;
use vox_media::resample::LinearResampler;
use vox_media::resample::PlaybackResampler;

fn range(min: u32, max: u32, channels: u16) -> ConfigRange {
    ConfigRange { min_sample_rate: min, max_sample_rate: max, channels }
}

fn chosen(range: usize, rate: u32, channels: u16, resample: bool) -> Result<NegotiatedConfig, NegotiateError> {
    Ok(NegotiatedConfig {
        range,
        device_rate: rate,
        device_channels: channels,
        needs_resample: resample,
    })
}

#[test]
fn negotiate_fails_without_configurations() {
    assert_eq!(negotiate_config(&[]), Err(NegotiateError::NoConfigurations));
    assert_eq!(
        NegotiateError::NoConfigurations.message(),
        "Device reports no supported configurations"
    );
}

#[test]
fn negotiate_prefers_exact_48k_mono() {
    let ranges = [range(44100, 96000, 2), range(8000, 48000, 1), range(48000, 48000, 1)];
    assert_eq!(negotiate_config(&ranges), chosen(1, 48000, 1, false));
}

#[test]
fn negotiate_takes_48k_with_other_channels() {
    let ranges = [range(8000, 16000, 1), range(44100, 48000, 2), range(48000, 96000, 6)];
    assert_eq!(negotiate_config(&ranges), chosen(1, 48000, 2, false));
}

#[test]
fn negotiate_falls_back_to_preferred_rates_mono_first() {
    let ranges = [range(44100, 44100, 2), range(44100, 44100, 1), range(16000, 16000, 1)];
    assert_eq!(negotiate_config(&ranges), chosen(1, 44100, 1, true));
    let ranges = [range(96000, 192000, 2), range(44100, 44100, 1)];
    assert_eq!(negotiate_config(&ranges), chosen(0, 96000, 2, true));
    let ranges = [range(8000, 8000, 2), range(16000, 16000, 4)];
    assert_eq!(negotiate_config(&ranges), chosen(1, 16000, 4, true));
    let ranges = [range(24000, 24000, 2), range(44100, 44100, 2)];
    assert_eq!(negotiate_config(&ranges), chosen(1, 44100, 2, true));
}

#[test]
fn negotiate_last_resort_caps_the_first_range() {
    let ranges = [range(30000, 40000, 2), range(32000, 32000, 1)];
    assert_eq!(negotiate_config(&ranges), chosen(0, 40000, 2, true));
    let ranges = [range(11025, 22050, 2), range(32000, 32000, 1)];
    assert_eq!(negotiate_config(&ranges), chosen(0, 16000, 2, true));
    let ranges = [range(176400, 192000, 2)];
    assert_eq!(negotiate_config(&ranges), chosen(0, 176400, 2, true));
    let ranges = [range(88200, 88200, 1)];
    assert_eq!(negotiate_config(&ranges), chosen(0, 88200, 1, true));
}

#[test]
fn device_is_chosen_by_name_or_default() {
    let names = vec!["Built-in".to_string(), "USB Mic".to_string(), "USB Mic".to_string()];
    assert_eq!(choose_device(&names, Some(&"USB Mic".to_string())), Some(1));
    assert_eq!(choose_device(&names, Some(&"Built-in".to_string())), Some(0));
    assert_eq!(choose_device(&names, Some(&"Missing".to_string())), None);
    assert_eq!(choose_device(&names, None), None);
    assert_eq!(choose_device(&[], Some(&"x".to_string())), None);
}

#[test]
fn resampler_at_equal_rates_delays_by_one_sample() {
    let mut r = LinearResampler::new(48000, 48000);
    assert_eq!(r.process(&[10, 20, 30]), vec![0, 10, 20]);
    assert_eq!(r.process(&[40]), vec![30]);
    assert_eq!(r.process(&[]), Vec::<i16>::new());
}

#[test]
fn resampler_doubles_the_rate_by_interpolation() {
    let mut r = LinearResampler::new(24000, 48000);
    assert_eq!(r.process(&[100, 200]), vec![0, 50, 100, 150]);
    assert_eq!(r.process(&[-200]), vec![200, 0]);
}

#[test]
fn resampler_halves_the_rate() {
    let mut r = LinearResampler::new(96000, 48000);
    assert_eq!(r.process(&[1, 2, 3, 4]), vec![0, 2]);
    assert_eq!(r.process(&[5, 6, 7]), vec![4, 6]);
}

#[test]
fn resampler_rounds_towards_zero_and_clamps() {
    let mut r = LinearResampler::new(16000, 48000);
    // Steps of a third: 0, 3.33, 6.67, then 10, 6.67, 3.33 down to 0.
    assert_eq!(r.process(&[10, 0]), vec![0, 3, 6, 10, 6, 3]);
    let mut r = LinearResampler::new(16000, 48000);
    assert_eq!(r.process(&[-10, 0]), vec![0, -3, -6, -10, -6, -3]);
    let mut r = LinearResampler::new(48000, 48000);
    assert_eq!(r.process(&[i16::MIN, 0]), vec![0, -32767]);
}

#[test]
fn resampler_output_length_stays_within_one_sample() {
    for (from, to) in [(44100u32, 48000u32), (48000, 44100), (8000, 48000), (96000, 48000), (48000, 16000)] {
        let mut r = LinearResampler::new(from, to);
        let mut total_in: u64 = 0;
        let mut total_out: u64 = 0;
        for call in 0..50u64 {
            let len = 1 + (call * 37) % 441;
            let input = vec![1000i16; len as usize];
            let out = r.process(&input);
            let ideal_low = (len * to as u64) / from as u64;
            assert!(out.len() as u64 + 1 >= ideal_low + 1 - 1);
            assert!((out.len() as i64 * from as i64 - len as i64 * to as i64).abs() < from as i64);
            total_in += len;
            total_out += out.len() as u64;
        }
        assert!((total_out as i64 * from as i64 - total_in as i64 * to as i64).abs() < from as i64);
    }
}

#[test]
fn resampling_in_parts_equals_resampling_at_once() {
    let input: Vec<i16> = (0..1000).map(|i| ((i * 37) % 2000 - 1000) as i16).collect();
    let mut whole = LinearResampler::new(44100, 48000);
    let at_once = whole.process(&input);
    let mut parts = LinearResampler::new(44100, 48000);
    let mut in_parts = parts.process(&input[..333]);
    in_parts.extend(parts.process(&input[333..334]));
    in_parts.extend(parts.process(&input[334..]));
    assert_eq!(at_once, in_parts);
    assert_eq!(at_once.len(), 1089);
}

#[test]
fn playback_resampler_starts_from_48k() {
    let mut r = PlaybackResampler::new(24000);
    assert_eq!(r.process(&[1, 2, 3, 4]), vec![0, 2]);
    let mut r = PlaybackResampler::new(96000);
    assert_eq!(r.process(&[100]), vec![0, 50]);
}

#[test]
fn downmix_takes_the_mean_of_each_frame() {
    assert_eq!(downmix_to_mono(&[100, 200, -3, -4, 1, 2], 2), vec![150, -3, 1]);
    assert_eq!(downmix_to_mono(&[1, 2, 3, 4, 5, 6, 7], 3), vec![2, 5]);
    assert_eq!(downmix_to_mono(&[5, -5], 1), vec![5, -5]);
    assert_eq!(downmix_to_mono(&[i16::MIN, i16::MIN, i16::MAX, i16::MAX], 2), vec![i16::MIN, i16::MAX]);
    assert_eq!(downmix_to_mono(&[], 2), Vec::<i16>::new());
}

#[test]
fn upmix_repeats_each_sample() {
    assert_eq!(upmix_from_mono(&[1, -2], 3), vec![1, 1, 1, -2, -2, -2]);
    assert_eq!(upmix_from_mono(&[7], 1), vec![7]);
    assert_eq!(upmix_from_mono(&[7, 8], 0), Vec::<i16>::new());
}

#[test]
fn upmix_then_downmix_is_the_identity() {
    let mono: Vec<i16> = vec![0, 1, -1, 12345, -12345, i16::MAX, i16::MIN];
    for channels in [1u16, 2, 3, 6, 8] {
        assert_eq!(downmix_to_mono(&upmix_from_mono(&mono, channels), channels), mono);
    }
}

#[test]
fn energy_is_the_sum_of_squares() {
    assert_eq!(measure_energy(&[]), 0);
    assert_eq!(measure_energy(&[3, -4]), 25);
    assert_eq!(measure_energy(&[i16::MIN, i16::MAX]), 1073741824 + 1073676289);
}

#[test]
fn level_threshold_is_exact() {
    // 0.01 of full scale is 327.67.
    assert!(is_quieter_than(&[327; 960], 100));
    assert!(!is_quieter_than(&[328; 960], 100));
    assert!(!is_quieter_than(&[-328; 960], 100));
    assert!(!is_quieter_than(&[], 100));
    assert!(!is_quieter_than(&[0; 10], 0));
    assert!(is_quieter_than(&[0; 10], 1));
    // One loud sample among silence: rms = 32767 / sqrt(n).
    let mut burst = vec![0i16; 10000];
    burst[0] = 32767;
    assert!(!is_quieter_than(&burst, 100));
    assert!(is_quieter_than(&burst, 101));
}

#[test]
fn gain_scales_truncates_and_clamps() {
    assert_eq!(scale_sample(1000, 1500, 1000), 1500);
    assert_eq!(scale_sample(-1000, 1500, 1000), -1500);
    assert_eq!(scale_sample(3, 500, 1000), 1);
    assert_eq!(scale_sample(-3, 500, 1000), -1);
    assert_eq!(scale_sample(30000, 2000, 1000), 32767);
    assert_eq!(scale_sample(-30000, 2000, 1000), -32767);
    assert_eq!(scale_sample(i16::MIN, 1000, 1000), -32767);
    assert_eq!(scale_sample(12345, 0, 1000), 0);
    let mut pcm = vec![100, -100, i16::MIN];
    amplify(&mut pcm, 1000, 1000);
    assert_eq!(pcm, vec![100, -100, i16::MIN]);
    amplify(&mut pcm, 250, 1000);
    assert_eq!(pcm, vec![25, -25, -8192]);
}

#[test]
fn input_processing_gates_then_scales() {
    let mut quiet = vec![100i16; 960];
    apply_input_processing(&mut quiet, 2000, 50);
    assert_eq!(quiet, vec![0i16; 960]);
    let mut loud = vec![1000i16; 960];
    apply_input_processing(&mut loud, 2000, 50);
    assert_eq!(loud, vec![2000i16; 960]);
    let mut ungated = vec![100i16; 960];
    apply_input_processing(&mut ungated, 1000, 0);
    assert_eq!(ungated, vec![100i16; 960]);
    let mut muted_by_gain = vec![100i16; 4];
    apply_input_processing(&mut muted_by_gain, 0, 0);
    assert_eq!(muted_by_gain, vec![0i16; 4]);
    let mut empty: Vec<i16> = Vec::new();
    apply_input_processing(&mut empty, 2000, 50);
    assert!(empty.is_empty());
}

#[test]
fn capture_cuts_frames_and_keeps_the_rest() {
    let mut p = CapturePipeline::new(48000, 1, false, 4);
    assert_eq!(p.process(&[1, 2, 3]), Vec::<Vec<i16>>::new());
    assert_eq!(p.process(&[4, 5, 6, 7, 8, 9]), vec![vec![1, 2, 3, 4], vec![5, 6, 7, 8]]);
    assert_eq!(p.process(&[10, 11, 12]), vec![vec![9, 10, 11, 12]]);
    assert_eq!(p.process(&[]), Vec::<Vec<i16>>::new());
}

#[test]
fn capture_downmixes_and_resamples() {
    let mut p = CapturePipeline::new(48000, 2, false, 2);
    assert_eq!(p.process(&[10, 20, 30, 50, 7, 9]), vec![vec![15, 40]]);
    assert_eq!(p.process(&[1, 1]), vec![vec![8, 1]]);
    let mut p = CapturePipeline::new(24000, 1, true, 4);
    assert_eq!(p.process(&[100, 200]), vec![vec![0, 50, 100, 150]]);
    let mut p = CapturePipeline::new(24000, 2, true, 4);
    assert_eq!(p.process(&[90, 110, 190, 210]), vec![vec![0, 50, 100, 150]]);
}

#[test]
fn capture_frames_of_960_samples() {
    let mut p = CapturePipeline::new(48000, 1, false, 960);
    let mut frames = 0;
    for _ in 0..10 {
        for f in p.process(&[5i16; 512]) {
            assert_eq!(f.len(), 960);
            frames += 1;
        }
    }
    assert_eq!(frames, 5);
}

#[test]
fn playback_hands_out_samples_then_silence() {
    let mut p = PlaybackBuffer::new(48000, 1, false);
    p.feed(&[1, 2, 3]);
    p.feed(&[4]);
    assert_eq!(p.len(), 4);
    let r = p.render(3);
    assert_eq!(r.samples, vec![1, 2, 3]);
    assert_eq!(r.dropped, 0);
    let r = p.render(3);
    assert_eq!(r.samples, vec![4, 0, 0]);
    assert_eq!(p.len(), 0);
    assert_eq!(p.render(2).samples, vec![0, 0]);
    assert_eq!(p.render(0).samples, Vec::<i16>::new());
}

#[test]
fn playback_upmixes_and_resamples() {
    let mut p = PlaybackBuffer::new(48000, 2, false);
    p.feed(&[1, -2]);
    assert_eq!(p.render(4).samples, vec![1, 1, -2, -2]);
    let mut p = PlaybackBuffer::new(96000, 2, true);
    p.feed(&[100]);
    assert_eq!(p.render(4).samples, vec![0, 0, 50, 50]);
    let mut p = PlaybackBuffer::new(24000, 1, true);
    p.feed(&[1, 2, 3, 4]);
    assert_eq!(p.render(3).samples, vec![0, 2, 0]);
}

#[test]
fn playback_drops_oldest_above_two_seconds() {
    // Two seconds of a 4 Hz mono device are eight samples.
    let mut p = PlaybackBuffer::new(4, 1, false);
    p.feed(&[1, 2, 3, 4, 5, 6, 7, 8]);
    let r = p.render(1);
    assert_eq!(r.dropped, 0);
    assert_eq!(r.samples, vec![1]);
    p.feed(&[9, 10, 11, 12]);
    assert_eq!(p.len(), 11);
    let r = p.render(2);
    assert_eq!(r.dropped, 3);
    assert_eq!(r.samples, vec![5, 6]);
    assert_eq!(p.len(), 6);
}
