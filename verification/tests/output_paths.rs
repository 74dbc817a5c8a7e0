use dnxhd_transcoder::encode::{FrameRate, JobConfig};
use dnxhd_transcoder::paths::{batch_dir, file_stem, join, output_path, parent};
use dnxhd_transcoder::resolve::{bundled_path, resolve_binary, sibling_path, tool_name, Tool};
use dnxhd_transcoder::runner::{output_dir, plan_jobs};

fn config(files: &[&str], out: Option<&str>, container: &str) -> JobConfig {
    JobConfig {
        files: files.iter().map(|s| s.as_bytes().to_vec()).collect(),
        output_dir: out.map(|s| s.as_bytes().to_vec()),
        profile: b"dnxhr_hq".to_vec(),
        container: container.as_bytes().to_vec(),
        audio_bits: 16,
        audio_channels: 2,
        frame_rate: FrameRate::Preserve,
        timecode: None,
        normalize: false,
    }
}

#[test]
fn stem_is_the_file_name_without_its_extension() {
    assert_eq!(file_stem(b"/a/b/clip.mp4"), b"clip".to_vec());
    assert_eq!(file_stem(b"clip.mp4"), b"clip".to_vec());
    assert_eq!(file_stem(b"clip"), b"clip".to_vec());
    assert_eq!(file_stem(b"/a.b/clip"), b"clip".to_vec());
    assert_eq!(file_stem(b"archive.tar.gz"), b"archive.tar".to_vec());
    assert_eq!(file_stem(b"/a/.hidden"), b".hidden".to_vec());
    assert_eq!(file_stem(b"/a/.hidden.mov"), b".hidden".to_vec());
    assert_eq!(file_stem(b"name."), b"name".to_vec());
}

#[test]
fn a_path_without_a_file_name_gets_the_stem_output() {
    assert_eq!(file_stem(b""), b"output".to_vec());
    assert_eq!(file_stem(b"/a/b/"), b"output".to_vec());
    assert_eq!(file_stem(b"/"), b"output".to_vec());
}

#[test]
fn parent_is_what_stands_before_the_last_separator() {
    assert_eq!(parent(b"/a/b/clip.mp4"), b"/a/b".to_vec());
    assert_eq!(parent(b"/clip.mp4"), b"/".to_vec());
    assert_eq!(parent(b"clip.mp4"), b".".to_vec());
    assert_eq!(parent(b"a/clip.mp4"), b"a".to_vec());
    assert_eq!(parent(b""), b".".to_vec());
}

#[test]
fn joining_puts_one_separator_between() {
    assert_eq!(join(b"/out", b"transcoded"), b"/out/transcoded".to_vec());
    assert_eq!(join(b"/out/", b"transcoded"), b"/out/transcoded".to_vec());
    assert_eq!(join(b"/", b"transcoded"), b"/transcoded".to_vec());
    assert_eq!(join(b"", b"transcoded"), b"transcoded".to_vec());
    assert_eq!(join(b".", b"x"), b"./x".to_vec());
}

#[test]
fn the_configured_container_is_the_extension() {
    assert_eq!(output_path(b"/out/transcoded", b"/in/a.mp4", b"mov"), b"/out/transcoded/a.mov".to_vec());
    assert_eq!(output_path(b"/out/transcoded", b"/in/a.mp4", b"mxf"), b"/out/transcoded/a.mxf".to_vec());
    assert_eq!(output_path(b"/out/transcoded", b"/in/a.mp4", b"mkv"), b"/out/transcoded/a.mkv".to_vec());
    assert_eq!(output_path(b"/out/transcoded", b"/in/a.mp4", b"MXF"), b"/out/transcoded/a.MXF".to_vec());
    let jobs = plan_jobs(&config(&["/in/a.mp4"], Some("/out"), "mkv"));
    assert_eq!(jobs.len(), 1);
    assert_eq!(jobs[0].output, b"/out/transcoded/a.mkv".to_vec());
}

#[test]
fn paths_are_read_literally() {
    assert_eq!(file_stem(b"/in/dir/"), b"output".to_vec());
    assert_eq!(file_stem(b"/a/.."), b".".to_vec());
    assert_eq!(parent(b"/in/dir/"), b"/in/dir".to_vec());
    assert_eq!(parent(b"a.mp4"), b".".to_vec());
}

#[test]
fn outputs_go_to_a_folder_named_transcoded() {
    assert_eq!(batch_dir(Some(&b"/out"[..]), b"/in/a.mp4"), b"/out/transcoded".to_vec());
    assert_eq!(batch_dir(None, b"/in/a.mp4"), b"/in/transcoded".to_vec());
    assert_eq!(batch_dir(None, b"a.mp4"), b"./transcoded".to_vec());
    assert_eq!(
        output_path(b"/out/transcoded", b"/in/a.mp4", b"mxf"),
        b"/out/transcoded/a.mxf".to_vec()
    );
}

#[test]
fn two_inputs_give_two_jobs_with_their_output_paths() {
    let cfg = config(&["/media/in/first.mp4", "/media/other/second.MOV"], Some("/out"), "mov");
    let jobs = plan_jobs(&cfg);
    assert_eq!(jobs.len(), 2);
    assert_eq!(jobs[0].index, 0);
    assert_eq!(jobs[0].input, b"/media/in/first.mp4".to_vec());
    assert_eq!(jobs[0].output, b"/out/transcoded/first.mov".to_vec());
    assert_eq!(jobs[1].index, 1);
    assert_eq!(jobs[1].input, b"/media/other/second.MOV".to_vec());
    assert_eq!(jobs[1].output, b"/out/transcoded/second.mov".to_vec());
    assert_eq!(output_dir(&cfg), Some(b"/out/transcoded".to_vec()));
}

#[test]
fn without_a_chosen_folder_outputs_go_beside_the_first_input() {
    let cfg = config(&["/media/in/first.mp4", "/media/other/second.mov"], None, "mxf");
    let jobs = plan_jobs(&cfg);
    assert_eq!(jobs[0].output, b"/media/in/transcoded/first.mxf".to_vec());
    assert_eq!(jobs[1].output, b"/media/in/transcoded/second.mxf".to_vec());
    assert_eq!(output_dir(&cfg), Some(b"/media/in/transcoded".to_vec()));
}

#[test]
fn a_batch_without_inputs_has_no_jobs() {
    let cfg = config(&[], Some("/out"), "mov");
    assert_eq!(plan_jobs(&cfg), Vec::new());
    assert_eq!(output_dir(&cfg), None);
}

#[test]
fn the_same_configuration_gives_the_same_paths_again() {
    let cfg = config(&["/in/a.mp4", "/in/b.mp4", "/in/a.mov"], None, "mov");
    let first = plan_jobs(&cfg);
    let second = plan_jobs(&cfg.clone());
    assert_eq!(first, second);
    assert_eq!(first[0].output, first[2].output);
}

#[test]
fn tools_are_looked_for_in_a_fixed_order() {
    assert_eq!(tool_name(Tool::Encoder), b"ffmpeg");
    assert_eq!(tool_name(Tool::Prober), b"ffprobe");
    assert_eq!(bundled_path(Tool::Encoder), b"/app/bin/ffmpeg".to_vec());
    assert_eq!(bundled_path(Tool::Prober), b"/app/bin/ffprobe".to_vec());
    assert_eq!(sibling_path(b"/opt/tool/bin/app", Tool::Prober), b"/opt/tool/bin/ffprobe".to_vec());
    let program = Some(&b"/opt/tool/bin/app"[..]);
    assert_eq!(resolve_binary(Tool::Encoder, true, program, true), b"/app/bin/ffmpeg".to_vec());
    assert_eq!(resolve_binary(Tool::Encoder, true, None, false), b"/app/bin/ffmpeg".to_vec());
    assert_eq!(
        resolve_binary(Tool::Encoder, false, program, true),
        b"/opt/tool/bin/ffmpeg".to_vec()
    );
    assert_eq!(resolve_binary(Tool::Encoder, false, program, false), b"ffmpeg".to_vec());
    assert_eq!(resolve_binary(Tool::Prober, false, None, true), b"ffprobe".to_vec());
    assert_eq!(resolve_binary(Tool::Prober, false, None, false), b"ffprobe".to_vec());
}
