//! The encoder's command lines: the final encode pass, the loudness
//! measurement pass and the duration query.

use crate::loudness::{LoudnessParams, LoudnessValues};
use crate::text::{append_bytes, bytes_eq, decimal_digits, push_decimal, to_owned_bytes};
use vstd::prelude::*;
use vstd::string::StringSliceAdditionalSpecFns;

verus! {

/// How the output's frame rate is chosen.
#[derive(Clone, Copy, Debug, PartialEq, Eq, Structural)]
pub enum FrameRate {
    /// Keep the input's frame rate.
    Preserve,
    /// A fixed rate, in thousandths of a frame per second.
    Fixed(u32),
}

/// One batch: the inputs and how each is to be encoded.
#[derive(Clone, Debug, PartialEq, Eq)]
pub struct JobConfig {
    /// The input files, in the order in which they are run.
    pub files: Vec<Vec<u8>>,
    /// Where the outputs go; beside the first input where it is not given.
    pub output_dir: Option<Vec<u8>>,
    /// Encoding profile.
    pub profile: Vec<u8>,
    /// Container, by its file extension.
    pub container: Vec<u8>,
    /// Audio sample depth in bits.
    pub audio_bits: u32,
    /// Number of audio channels.
    pub audio_channels: u32,
    /// Frame rate of the output.
    pub frame_rate: FrameRate,
    /// Start timecode, as `HH:MM:SS:FF`, where one is set.
    pub timecode: Option<Vec<u8>>,
    /// Whether loudness is measured first and then normalized.
    pub normalize: bool,
}

/// Pixel format for a profile: 10-bit 4:2:2 for `dnxhr_hqx`, 10-bit 4:4:4 for
/// `dnxhr_444`, 8-bit 4:2:2 for every other.
pub open spec fn pix_fmt_of(profile: Seq<u8>) -> Seq<u8> {
    if profile == "dnxhr_hqx".spec_bytes() {
        "yuv422p10le".spec_bytes()
    } else if profile == "dnxhr_444".spec_bytes() {
        "yuv444p10le".spec_bytes()
    } else {
        "yuv422p".spec_bytes()
    }
}

/// Chooses the pixel format for a profile.
pub fn select_pix_fmt(profile: &[u8]) -> (r: &'static [u8])
    ensures
        r@ == pix_fmt_of(profile@),
{
    if bytes_eq(profile, "dnxhr_hqx".as_bytes()) {
        "yuv422p10le".as_bytes()
    } else if bytes_eq(profile, "dnxhr_444".as_bytes()) {
        "yuv444p10le".as_bytes()
    } else {
        "yuv422p".as_bytes()
    }
}

/// Audio codec for a sample depth: 24-bit little-endian PCM for 24 bits,
/// 16-bit little-endian PCM for every other depth.
pub open spec fn audio_codec_of(bits: u32) -> Seq<u8> {
    if bits == 24 {
        "pcm_s24le".spec_bytes()
    } else {
        "pcm_s16le".spec_bytes()
    }
}

/// Chooses the audio codec for a sample depth.
pub fn select_audio_codec(bits: u32) -> (r: &'static [u8])
    ensures
        r@ == audio_codec_of(bits),
{
    if bits == 24 {
        "pcm_s24le".as_bytes()
    } else {
        "pcm_s16le".as_bytes()
    }
}

/// A frame rate given in thousandths, written with three decimal places.
pub open spec fn rate_text(thousandths: u32) -> Seq<u8> {
    let t = thousandths as nat;
    decimal_digits(t / 1000) + seq![
        46u8,
        (48 + (t / 100) % 10) as u8,
        (48 + (t / 10) % 10) as u8,
        (48 + t % 10) as u8,
    ]
}

/// Writes a frame rate with three decimal places.
pub fn format_rate(thousandths: u32) -> (r: Vec<u8>)
    ensures
        r@ == rate_text(thousandths),
{
    let mut out: Vec<u8> = Vec::new();
    push_decimal(&mut out, (thousandths / 1000) as u64);
    out.push(46);
    out.push(48 + ((thousandths / 100) % 10) as u8);
    out.push(48 + ((thousandths / 10) % 10) as u8);
    out.push(48 + (thousandths % 10) as u8);
    proof {
        assert(out@ =~= rate_text(thousandths));
    }
    out
}

/// The audio filter that applies normalization with the given measurements.
pub open spec fn filter_text(m: LoudnessValues) -> Seq<u8> {
    "loudnorm=I=-23:TP=-2:LRA=7:measured_I=".spec_bytes() + m.integrated
        + ":measured_LRA=".spec_bytes() + m.range + ":measured_TP=".spec_bytes() + m.true_peak
        + ":measured_thresh=".spec_bytes() + m.threshold + ":print_format=summary".spec_bytes()
}

/// Writes the audio filter that applies normalization with the given
/// measurements.
pub fn normalization_filter(m: &LoudnessParams) -> (r: Vec<u8>)
    ensures
        r@ == filter_text(m@),
{
    let mut out: Vec<u8> = Vec::new();
    append_bytes(&mut out, "loudnorm=I=-23:TP=-2:LRA=7:measured_I=".as_bytes());
    append_bytes(&mut out, m.integrated.as_slice());
    append_bytes(&mut out, ":measured_LRA=".as_bytes());
    append_bytes(&mut out, m.range.as_slice());
    append_bytes(&mut out, ":measured_TP=".as_bytes());
    append_bytes(&mut out, m.true_peak.as_slice());
    append_bytes(&mut out, ":measured_thresh=".as_bytes());
    append_bytes(&mut out, m.threshold.as_slice());
    append_bytes(&mut out, ":print_format=summary".as_bytes());
    proof {
        assert(out@ =~= filter_text(m@));
    }
    out
}

/// Puts a copy of `s` behind the arguments in `out`.
pub fn push_arg(out: &mut Vec<Vec<u8>>, s: &[u8])
    ensures
        final(out).deep_view() == old(out).deep_view().push(s@),
{
    let v = to_owned_bytes(s);
    proof {
        assert(v.deep_view() =~= s@);
    }
    out.push(v);
    proof {
        assert(out.deep_view() =~= old(out).deep_view().push(s@));
    }
}

/// The frame-rate arguments: none where the input's rate is kept.
pub open spec fn rate_args(rate: FrameRate) -> Seq<Seq<u8>> {
    match rate {
        FrameRate::Preserve => seq![],
        FrameRate::Fixed(t) => seq!["-r".spec_bytes(), rate_text(t)],
    }
}

/// The timecode arguments: none where no timecode is set.
pub open spec fn timecode_args(timecode: Option<Seq<u8>>) -> Seq<Seq<u8>> {
    match timecode {
        None => seq![],
        Some(t) => seq!["-timecode".spec_bytes(), t],
    }
}

/// The filter arguments: none where there are no measurements to apply.
pub open spec fn filter_args(loudness: Option<LoudnessValues>) -> Seq<Seq<u8>> {
    match loudness {
        None => seq![],
        Some(m) => seq!["-af".spec_bytes(), filter_text(m)],
    }
}

/// The timecode of a configuration as a plain value.
pub open spec fn timecode_of(cfg: JobConfig) -> Option<Seq<u8>> {
    match cfg.timecode {
        None => None,
        Some(t) => Some(t@),
    }
}

/// The arguments of the encode pass. The output is overwritten where it
/// exists, progress is written to standard output in machine-readable form,
/// and the output path comes last.
pub open spec fn encode_args_of(
    cfg: JobConfig,
    input: Seq<u8>,
    output: Seq<u8>,
    loudness: Option<LoudnessValues>,
) -> Seq<Seq<u8>> {
    seq![
        "-y".spec_bytes(),
        "-i".spec_bytes(),
        input,
        "-c:v".spec_bytes(),
        "dnxhd".spec_bytes(),
        "-profile:v".spec_bytes(),
        cfg.profile@,
        "-pix_fmt".spec_bytes(),
        pix_fmt_of(cfg.profile@),
        "-c:a".spec_bytes(),
        audio_codec_of(cfg.audio_bits),
        "-ac".spec_bytes(),
        decimal_digits(cfg.audio_channels as nat),
    ] + rate_args(cfg.frame_rate) + timecode_args(timecode_of(cfg)) + filter_args(loudness) + seq![
        "-progress".spec_bytes(),
        "pipe:1".spec_bytes(),
        "-nostats".spec_bytes(),
        output,
    ]
}

/// The loudness measurements as plain values, where there are any.
pub open spec fn loudness_view(loudness: Option<&LoudnessParams>) -> Option<LoudnessValues> {
    match loudness {
        None => None,
        Some(m) => Some(m@),
    }
}

/// Builds the arguments of the encode pass for one input.
pub fn encode_args(
    cfg: &JobConfig,
    input: &[u8],
    output: &[u8],
    loudness: Option<&LoudnessParams>,
) -> (r: Vec<Vec<u8>>)
    ensures
        r.deep_view() == encode_args_of(*cfg, input@, output@, loudness_view(loudness)),
{
    let mut out: Vec<Vec<u8>> = Vec::new();
    proof {
        assert(out.deep_view() =~= Seq::<Seq<u8>>::empty());
    }
    push_arg(&mut out, "-y".as_bytes());
    push_arg(&mut out, "-i".as_bytes());
    push_arg(&mut out, input);
    push_arg(&mut out, "-c:v".as_bytes());
    push_arg(&mut out, "dnxhd".as_bytes());
    push_arg(&mut out, "-profile:v".as_bytes());
    push_arg(&mut out, cfg.profile.as_slice());
    push_arg(&mut out, "-pix_fmt".as_bytes());
    push_arg(&mut out, select_pix_fmt(cfg.profile.as_slice()));
    push_arg(&mut out, "-c:a".as_bytes());
    push_arg(&mut out, select_audio_codec(cfg.audio_bits));
    push_arg(&mut out, "-ac".as_bytes());
    let mut channels: Vec<u8> = Vec::new();
    push_decimal(&mut channels, cfg.audio_channels as u64);
    proof {
        assert(channels@ =~= decimal_digits(cfg.audio_channels as nat));
    }
    push_arg(&mut out, channels.as_slice());
    let ghost head = out.deep_view();
    match cfg.frame_rate {
        FrameRate::Preserve => {},
        FrameRate::Fixed(t) => {
            push_arg(&mut out, "-r".as_bytes());
            let rate = format_rate(t);
            push_arg(&mut out, rate.as_slice());
        },
    }
    proof {
        assert(out.deep_view() =~= head + rate_args(cfg.frame_rate));
    }
    let ghost with_rate = out.deep_view();
    match &cfg.timecode {
        None => {},
        Some(t) => {
            push_arg(&mut out, "-timecode".as_bytes());
            push_arg(&mut out, t.as_slice());
        },
    }
    proof {
        assert(out.deep_view() =~= with_rate + timecode_args(timecode_of(*cfg)));
    }
    let ghost with_timecode = out.deep_view();
    match loudness {
        None => {},
        Some(m) => {
            push_arg(&mut out, "-af".as_bytes());
            let filter = normalization_filter(m);
            push_arg(&mut out, filter.as_slice());
        },
    }
    proof {
        assert(out.deep_view() =~= with_timecode + filter_args(loudness_view(loudness)));
    }
    push_arg(&mut out, "-progress".as_bytes());
    push_arg(&mut out, "pipe:1".as_bytes());
    push_arg(&mut out, "-nostats".as_bytes());
    push_arg(&mut out, output);
    proof {
        assert(out.deep_view() =~= encode_args_of(
            *cfg,
            input@,
            output@,
            loudness_view(loudness),
        ));
    }
    out
}

/// The arguments of the measurement pass: analysis only, no output file, the
/// summary printed in machine-readable form.
pub open spec fn measure_args_of(input: Seq<u8>) -> Seq<Seq<u8>> {
    seq![
        "-hide_banner".spec_bytes(),
        "-i".spec_bytes(),
        input,
        "-af".spec_bytes(),
        "loudnorm=I=-23:TP=-2:LRA=7:print_format=json".spec_bytes(),
        "-f".spec_bytes(),
        "null".spec_bytes(),
        "-".spec_bytes(),
    ]
}

/// Builds the arguments of the measurement pass for one input.
pub fn measure_args(input: &[u8]) -> (r: Vec<Vec<u8>>)
    ensures
        r.deep_view() == measure_args_of(input@),
{
    let mut out: Vec<Vec<u8>> = Vec::new();
    proof {
        assert(out.deep_view() =~= Seq::<Seq<u8>>::empty());
    }
    push_arg(&mut out, "-hide_banner".as_bytes());
    push_arg(&mut out, "-i".as_bytes());
    push_arg(&mut out, input);
    push_arg(&mut out, "-af".as_bytes());
    push_arg(&mut out, "loudnorm=I=-23:TP=-2:LRA=7:print_format=json".as_bytes());
    push_arg(&mut out, "-f".as_bytes());
    push_arg(&mut out, "null".as_bytes());
    push_arg(&mut out, "-".as_bytes());
    proof {
        assert(out.deep_view() =~= measure_args_of(input@));
    }
    out
}

/// The arguments of the duration query: only the container's duration, as a
/// bare decimal number.
pub open spec fn probe_args_of(input: Seq<u8>) -> Seq<Seq<u8>> {
    seq![
        "-v".spec_bytes(),
        "error".spec_bytes(),
        "-show_entries".spec_bytes(),
        "format=duration".spec_bytes(),
        "-of".spec_bytes(),
        "default=nw=1:nk=1".spec_bytes(),
        input,
    ]
}

/// Builds the arguments of the duration query for one input.
pub fn probe_args(input: &[u8]) -> (r: Vec<Vec<u8>>)
    ensures
        r.deep_view() == probe_args_of(input@),
{
    let mut out: Vec<Vec<u8>> = Vec::new();
    proof {
        assert(out.deep_view() =~= Seq::<Seq<u8>>::empty());
    }
    push_arg(&mut out, "-v".as_bytes());
    push_arg(&mut out, "error".as_bytes());
    push_arg(&mut out, "-show_entries".as_bytes());
    push_arg(&mut out, "format=duration".as_bytes());
    push_arg(&mut out, "-of".as_bytes());
    push_arg(&mut out, "default=nw=1:nk=1".as_bytes());
    push_arg(&mut out, input);
    proof {
        assert(out.deep_view() =~= probe_args_of(input@));
    }
    out
}

/// Whatever the settings, the encode pass is told first to write over an
/// existing output, and is given the output path last.
pub proof fn lemma_encode_pass_overwrites(
    cfg: JobConfig,
    input: Seq<u8>,
    output: Seq<u8>,
    loudness: Option<LoudnessValues>,
)
    ensures
        encode_args_of(cfg, input, output, loudness).first() == "-y".spec_bytes(),
        encode_args_of(cfg, input, output, loudness).last() == output,
{
}

/// The normalization filter is among the arguments of the encode pass
/// exactly where there are measurements to apply.
pub proof fn lemma_filter_only_with_measurements(
    cfg: JobConfig,
    input: Seq<u8>,
    output: Seq<u8>,
    loudness: Option<LoudnessValues>,
)
    ensures
        encode_args_of(cfg, input, output, loudness).len() == encode_args_of(
            cfg,
            input,
            output,
            None,
        ).len() + (if loudness is Some {
            2int
        } else {
            0int
        }),
        loudness matches Some(m) ==> encode_args_of(cfg, input, output, loudness).contains(
            filter_text(m),
        ),
{
    if let Some(m) = loudness {
        let args = encode_args_of(cfg, input, output, loudness);
        let at = 13 + rate_args(cfg.frame_rate).len() + timecode_args(timecode_of(cfg)).len() + 1;
        assert(args[at as int] == filter_text(m));
    }
}

} // verus!
