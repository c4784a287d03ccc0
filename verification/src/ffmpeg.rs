//! The ffmpeg command lines the recorder runs, and the decision taken each
//! time a running recording is polled.

use vstd::prelude::*;
use crate::config::CameraConfig;
use crate::recorder::CLIP_SECONDS;
use crate::text::{concat3, owned};
use crate::cleanup::names_of;

verus! {

/// Options every capture starts with: overwrite the output, no banner,
/// errors only.
pub open spec fn quiet_args() -> Seq<Seq<char>> {
    seq!["-y"@, "-hide_banner"@, "-loglevel"@, "error"@]
}

/// The options that open a camera.
pub open spec fn spec_input_args(c: CameraConfig) -> Seq<Seq<char>> {
    seq![
        "-f"@,
        c.input_format@,
        "-framerate"@,
        c.fps@,
        "-video_size"@,
        c.size@,
        "-i"@,
        c.device@,
    ]
}

/// The arguments of a camera check (the image path follows them).
pub open spec fn spec_init_args(c: CameraConfig) -> Seq<Seq<char>> {
    quiet_args() + spec_input_args(c) + seq!["-frames:v"@, "1"@]
}

/// The arguments of a clip recording into `video_path`.
pub open spec fn spec_record_args(c: CameraConfig, video_path: Seq<char>) -> Seq<Seq<char>> {
    quiet_args() + spec_input_args(c) + seq!["-t"@, CLIP_SECONDS@, "-pix_fmt"@, "yuv420p"@, video_path]
}

/// The arguments of a thumbnail grab from `video_path` into `thumb_path`.
pub open spec fn spec_thumbnail_args(video_path: Seq<char>, thumb_path: Seq<char>) -> Seq<Seq<char>> {
    quiet_args() + seq!["-sseof"@, "-0.1"@, "-i"@, video_path, "-frames:v"@, "1"@, thumb_path]
}

fn quiet_args_vec() -> (r: Vec<String>)
    ensures
        names_of(r@) == quiet_args(),
{
    let r = vec![owned("-y"), owned("-hide_banner"), owned("-loglevel"), owned("error")];
    assert(names_of(r@) =~= quiet_args());
    r
}

fn append_strings(r: &mut Vec<String>, more: Vec<String>)
    ensures
        names_of(final(r)@) == names_of(old(r)@) + names_of(more@),
{
    let ghost start = r@;
    let mut i: usize = 0;
    while i < more.len()
        invariant
            i <= more.len(),
            r@ == start + more@.take(i as int),
        decreases more.len() - i,
    {
        r.push(more[i].clone());
        assert(more@.take(i as int).push(more@[i as int]) =~= more@.take(i + 1));
        i = i + 1;
    }
    assert(more@.take(i as int) =~= more@);
    assert(names_of(r@) =~= names_of(start) + names_of(more@));
}

/// The arguments that make ffmpeg read from the camera of `config`.
pub fn camera_input_args(config: &CameraConfig) -> (r: Vec<String>)
    ensures
        names_of(r@) == spec_input_args(*config),
{
    let r = vec![
        owned("-f"),
        owned(config.input_format.as_str()),
        owned("-framerate"),
        owned(config.fps.as_str()),
        owned("-video_size"),
        owned(config.size.as_str()),
        owned("-i"),
        owned(config.device.as_str()),
    ];
    assert(names_of(r@) =~= spec_input_args(*config));
    r
}

/// `dashcam_<role>_camera_init.jpg`, the image a camera check writes into
/// the temporary directory.
pub fn init_image_name(config: &CameraConfig) -> (r: String)
    ensures
        r@ == "dashcam_"@ + config.role@ + "_camera_init.jpg"@,
{
    concat3("dashcam_", config.role.as_str(), "_camera_init.jpg")
}

/// The arguments of a camera check, which grabs one frame; the image path
/// follows them.
pub fn init_capture_args(config: &CameraConfig) -> (r: Vec<String>)
    ensures
        names_of(r@) == spec_init_args(*config),
{
    let mut r = quiet_args_vec();
    append_strings(&mut r, camera_input_args(config));
    let tail = vec![owned("-frames:v"), owned("1")];
    assert(names_of(tail@) =~= seq!["-frames:v"@, "1"@]);
    append_strings(&mut r, tail);
    r
}

/// The arguments that record one clip of `CLIP_SECONDS` seconds from the
/// camera of `config` into `video_path`.
pub fn record_args(config: &CameraConfig, video_path: &str) -> (r: Vec<String>)
    ensures
        names_of(r@) == spec_record_args(*config, video_path@),
{
    let mut r = quiet_args_vec();
    append_strings(&mut r, camera_input_args(config));
    let tail = vec![owned("-t"), owned(CLIP_SECONDS), owned("-pix_fmt"), owned("yuv420p"), owned(video_path)];
    assert(names_of(tail@) =~= seq!["-t"@, CLIP_SECONDS@, "-pix_fmt"@, "yuv420p"@, video_path@]);
    append_strings(&mut r, tail);
    r
}

/// The arguments that write the last frame of `video_path` to
/// `thumb_path`.
pub fn thumbnail_args(video_path: &str, thumb_path: &str) -> (r: Vec<String>)
    ensures
        names_of(r@) == spec_thumbnail_args(video_path@, thumb_path@),
{
    let mut r = quiet_args_vec();
    let tail = vec![
        owned("-sseof"),
        owned("-0.1"),
        owned("-i"),
        owned(video_path),
        owned("-frames:v"),
        owned("1"),
        owned(thumb_path),
    ];
    assert(names_of(tail@) =~= seq!["-sseof"@, "-0.1"@, "-i"@, video_path@, "-frames:v"@, "1"@, thumb_path@]);
    append_strings(&mut r, tail);
    r
}

/// What the recorder sees when it polls a running recording.
#[derive(Clone, Copy, Debug, PartialEq, Eq, Structural)]
pub enum RecordingStatus {
    /// Recording was asked to stop.
    StopRequested,
    /// ffmpeg is still running.
    Running,
    /// ffmpeg exited; `true` when it reported success.
    Exited(bool),
}

/// What the recorder does next.
#[derive(Clone, Copy, Debug, PartialEq, Eq, Structural)]
pub enum RecordingStep {
    /// Kill ffmpeg, wait for it and end the clip without error.
    KillAndFinish,
    /// The clip is complete.
    Finished,
    /// The clip failed; report an error.
    Failed,
    /// Sleep briefly and poll again.
    PollAgain,
}

/// The decision taken on one poll of a running recording: a stop request
/// wins; otherwise a successful exit ends the clip, a failed exit is an
/// error, and a running ffmpeg is polled again.
pub fn recording_step(status: RecordingStatus) -> (step: RecordingStep)
    ensures
        step == match status {
            RecordingStatus::StopRequested => RecordingStep::KillAndFinish,
            RecordingStatus::Running => RecordingStep::PollAgain,
            RecordingStatus::Exited(true) => RecordingStep::Finished,
            RecordingStatus::Exited(false) => RecordingStep::Failed,
        },
{
    match status {
        RecordingStatus::StopRequested => RecordingStep::KillAndFinish,
        RecordingStatus::Running => RecordingStep::PollAgain,
        RecordingStatus::Exited(success) => {
            if success {
                RecordingStep::Finished
            } else {
                RecordingStep::Failed
            }
        },
    }
}

// ---------------------------------------------------------------------------
// Laws of the command lines
// ---------------------------------------------------------------------------

/// ffmpeg opens the configured camera: the input format follows `-f`, the
/// frame rate `-framerate`, the frame size `-video_size` and the device
/// `-i`.
pub proof fn input_args_follow_config(c: CameraConfig, args: Seq<Seq<char>>)
    requires
        args == spec_input_args(c),
    ensures
        args.len() == 8,
        args[0] == "-f"@ && args[1] == c.input_format@,
        args[2] == "-framerate"@ && args[3] == c.fps@,
        args[4] == "-video_size"@ && args[5] == c.size@,
        args[6] == "-i"@ && args[7] == c.device@,
{
}

/// A clip recording opens the configured camera after the quiet options,
/// records for `5` seconds in `yuv420p`, and writes to the given path, the
/// last argument.
pub proof fn record_args_follow_config(c: CameraConfig, video_path: Seq<char>, args: Seq<Seq<char>>)
    requires
        args == spec_record_args(c, video_path),
    ensures
        args.len() == 17,
        args[0] == "-y"@ && args[1] == "-hide_banner"@ && args[2] == "-loglevel"@ && args[3]
            == "error"@,
        args[4] == "-f"@ && args[5] == c.input_format@,
        args[6] == "-framerate"@ && args[7] == c.fps@,
        args[8] == "-video_size"@ && args[9] == c.size@,
        args[10] == "-i"@ && args[11] == c.device@,
        args[12] == "-t"@ && args[13] == "5"@,
        args[14] == "-pix_fmt"@ && args[15] == "yuv420p"@,
        args[16] == video_path,
{
}

/// A camera check opens the configured camera after the quiet options and
/// grabs one frame.
pub proof fn init_args_follow_config(c: CameraConfig, args: Seq<Seq<char>>)
    requires
        args == spec_init_args(c),
    ensures
        args.len() == 14,
        args[0] == "-y"@ && args[1] == "-hide_banner"@ && args[2] == "-loglevel"@ && args[3]
            == "error"@,
        args[4] == "-f"@ && args[5] == c.input_format@,
        args[6] == "-framerate"@ && args[7] == c.fps@,
        args[8] == "-video_size"@ && args[9] == c.size@,
        args[10] == "-i"@ && args[11] == c.device@,
        args[12] == "-frames:v"@ && args[13] == "1"@,
{
}

/// A thumbnail is the frame 0.1 s before the end of the clip read after
/// `-i`, written to the thumbnail path, the last argument.
pub proof fn thumbnail_args_follow_paths(video_path: Seq<char>, thumb_path: Seq<char>, args: Seq<Seq<char>>)
    requires
        args == spec_thumbnail_args(video_path, thumb_path),
    ensures
        args.len() == 11,
        args[0] == "-y"@ && args[1] == "-hide_banner"@ && args[2] == "-loglevel"@ && args[3]
            == "error"@,
        args[4] == "-sseof"@ && args[5] == "-0.1"@,
        args[6] == "-i"@ && args[7] == video_path,
        args[8] == "-frames:v"@ && args[9] == "1"@,
        args[10] == thumb_path,
{
}

} // verus!
