use lib::config::{camera_config, Environment, Platform};
use lib::ffmpeg::{
    camera_input_args, init_capture_args, init_image_name, record_args, recording_step,
    thumbnail_args, RecordingStatus, RecordingStep,
};

fn config() -> lib::config::CameraConfig {
    let e = Environment { vars: vec![] };
    camera_config("front", "フロント", "/dev/video0", &["FRONT_DEVICE"], &e, Platform::Other)
}

#[test]
fn input_args() {
    assert_eq!(
        camera_input_args(&config()),
        vec!["-f", "v4l2", "-framerate", "30", "-video_size", "640x480", "-i", "/dev/video0"]
    );
}

#[test]
fn init_args_and_image() {
    let c = config();
    assert_eq!(init_image_name(&c), "dashcam_front_camera_init.jpg");
    assert_eq!(
        init_capture_args(&c),
        vec![
            "-y", "-hide_banner", "-loglevel", "error", "-f", "v4l2", "-framerate", "30",
            "-video_size", "640x480", "-i", "/dev/video0", "-frames:v", "1"
        ]
    );
}

#[test]
fn record_clip_args() {
    assert_eq!(
        record_args(&config(), "videos/front/continuous/v.mp4"),
        vec![
            "-y", "-hide_banner", "-loglevel", "error", "-f", "v4l2", "-framerate", "30",
            "-video_size", "640x480", "-i", "/dev/video0", "-t", "5", "-pix_fmt", "yuv420p",
            "videos/front/continuous/v.mp4"
        ]
    );
}

#[test]
fn thumbnail_command_args() {
    assert_eq!(
        thumbnail_args("v.mp4", "t.jpg"),
        vec![
            "-y", "-hide_banner", "-loglevel", "error", "-sseof", "-0.1", "-i", "v.mp4",
            "-frames:v", "1", "t.jpg"
        ]
    );
}

#[test]
fn recording_steps() {
    assert_eq!(recording_step(RecordingStatus::StopRequested), RecordingStep::KillAndFinish);
    assert_eq!(recording_step(RecordingStatus::Running), RecordingStep::PollAgain);
    assert_eq!(recording_step(RecordingStatus::Exited(true)), RecordingStep::Finished);
    assert_eq!(recording_step(RecordingStatus::Exited(false)), RecordingStep::Failed);
}
