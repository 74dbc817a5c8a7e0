use dnxhd_transcoder::encode::{
    encode_args, format_rate, measure_args, normalization_filter, probe_args, push_arg,
    select_audio_codec, select_pix_fmt, FrameRate, JobConfig,
};
use dnxhd_transcoder::loudness::LoudnessParams;

fn words(items: &[&str]) -> Vec<Vec<u8>> {
    items.iter().map(|s| s.as_bytes().to_vec()).collect()
}

fn plain_config() -> JobConfig {
    JobConfig {
        files: words(&["/in/a.mp4"]),
        output_dir: Some(b"/out".to_vec()),
        profile: b"dnxhr_hq".to_vec(),
        container: b"mov".to_vec(),
        audio_bits: 16,
        audio_channels: 2,
        frame_rate: FrameRate::Preserve,
        timecode: None,
        normalize: false,
    }
}

fn measured() -> LoudnessParams {
    LoudnessParams {
        integrated: b"-18.4".to_vec(),
        range: b"6.3".to_vec(),
        true_peak: b"-1.25".to_vec(),
        threshold: b"-28.71".to_vec(),
    }
}

#[test]
fn pixel_format_follows_the_profile() {
    assert_eq!(select_pix_fmt(b"dnxhr_hqx"), b"yuv422p10le");
    assert_eq!(select_pix_fmt(b"dnxhr_444"), b"yuv444p10le");
    assert_eq!(select_pix_fmt(b"dnxhr_hq"), b"yuv422p");
    assert_eq!(select_pix_fmt(b"dnxhr_sq"), b"yuv422p");
    assert_eq!(select_pix_fmt(b"dnxhr_lb"), b"yuv422p");
    assert_eq!(select_pix_fmt(b""), b"yuv422p");
    assert_eq!(select_pix_fmt(b"dnxhr_hqx "), b"yuv422p");
    assert_eq!(select_pix_fmt(b"DNXHR_HQX"), b"yuv422p");
}

#[test]
fn audio_codec_follows_the_sample_depth() {
    assert_eq!(select_audio_codec(24), b"pcm_s24le");
    assert_eq!(select_audio_codec(16), b"pcm_s16le");
    assert_eq!(select_audio_codec(0), b"pcm_s16le");
    assert_eq!(select_audio_codec(32), b"pcm_s16le");
    assert_eq!(select_audio_codec(u32::MAX), b"pcm_s16le");
}

#[test]
fn frame_rate_is_written_with_three_decimal_places() {
    assert_eq!(format_rate(25_000), b"25.000".to_vec());
    assert_eq!(format_rate(23_976), b"23.976".to_vec());
    assert_eq!(format_rate(29_970), b"29.970".to_vec());
    assert_eq!(format_rate(120_000), b"120.000".to_vec());
    assert_eq!(format_rate(5), b"0.005".to_vec());
    assert_eq!(format_rate(0), b"0.000".to_vec());
    assert_eq!(format_rate(1_050), b"1.050".to_vec());
    assert_eq!(format_rate(u32::MAX), b"4294967.295".to_vec());
}

#[test]
fn plain_encode_pass() {
    let args = encode_args(&plain_config(), b"/in/a.mp4", b"/out/transcoded/a.mov", None);
    assert_eq!(
        args,
        words(&[
            "-y",
            "-i",
            "/in/a.mp4",
            "-c:v",
            "dnxhd",
            "-profile:v",
            "dnxhr_hq",
            "-pix_fmt",
            "yuv422p",
            "-c:a",
            "pcm_s16le",
            "-ac",
            "2",
            "-progress",
            "pipe:1",
            "-nostats",
            "/out/transcoded/a.mov",
        ])
    );
}

#[test]
fn encode_pass_with_fixed_rate_and_timecode() {
    let mut cfg = plain_config();
    cfg.profile = b"dnxhr_444".to_vec();
    cfg.audio_bits = 24;
    cfg.audio_channels = 8;
    cfg.frame_rate = FrameRate::Fixed(23_976);
    cfg.timecode = Some(b"01:00:00:00".to_vec());
    let args = encode_args(&cfg, b"in.mov", b"out.mxf", None);
    assert_eq!(
        args,
        words(&[
            "-y",
            "-i",
            "in.mov",
            "-c:v",
            "dnxhd",
            "-profile:v",
            "dnxhr_444",
            "-pix_fmt",
            "yuv444p10le",
            "-c:a",
            "pcm_s24le",
            "-ac",
            "8",
            "-r",
            "23.976",
            "-timecode",
            "01:00:00:00",
            "-progress",
            "pipe:1",
            "-nostats",
            "out.mxf",
        ])
    );
}

#[test]
fn encode_pass_with_normalization() {
    let m = measured();
    let args = encode_args(&plain_config(), b"a.mp4", b"a.mov", Some(&m));
    assert_eq!(
        args,
        words(&[
            "-y",
            "-i",
            "a.mp4",
            "-c:v",
            "dnxhd",
            "-profile:v",
            "dnxhr_hq",
            "-pix_fmt",
            "yuv422p",
            "-c:a",
            "pcm_s16le",
            "-ac",
            "2",
            "-af",
            "loudnorm=I=-23:TP=-2:LRA=7:measured_I=-18.4:measured_LRA=6.3:measured_TP=-1.25:measured_thresh=-28.71:print_format=summary",
            "-progress",
            "pipe:1",
            "-nostats",
            "a.mov",
        ])
    );
}

#[test]
fn the_output_is_always_overwritten_and_comes_last() {
    let mut cfg = plain_config();
    cfg.frame_rate = FrameRate::Fixed(50_000);
    for m in [None, Some(&measured())] {
        let args = encode_args(&cfg, b"a.mp4", b"b.mov", m);
        assert_eq!(args[0], b"-y".to_vec());
        assert_eq!(args[args.len() - 1], b"b.mov".to_vec());
    }
}

#[test]
fn normalization_filter_carries_the_measurements() {
    assert_eq!(
        normalization_filter(&measured()),
        b"loudnorm=I=-23:TP=-2:LRA=7:measured_I=-18.4:measured_LRA=6.3:measured_TP=-1.25:measured_thresh=-28.71:print_format=summary".to_vec()
    );
}

#[test]
fn measurement_pass_writes_no_file() {
    assert_eq!(
        measure_args(b"/in/a.mp4"),
        words(&[
            "-hide_banner",
            "-i",
            "/in/a.mp4",
            "-af",
            "loudnorm=I=-23:TP=-2:LRA=7:print_format=json",
            "-f",
            "null",
            "-",
        ])
    );
}

#[test]
fn duration_query_asks_for_a_bare_number() {
    assert_eq!(
        probe_args(b"/in/a.mp4"),
        words(&[
            "-v",
            "error",
            "-show_entries",
            "format=duration",
            "-of",
            "default=nw=1:nk=1",
            "/in/a.mp4",
        ])
    );
}

#[test]
fn arguments_are_added_at_the_end() {
    let mut args = words(&["-y"]);
    push_arg(&mut args, b"-i");
    assert_eq!(args, words(&["-y", "-i"]));
}
