use lib::config::{
    camera_base_dir, camera_config, camera_dirs, continuous_dir, default_front_device,
    default_input_format, default_rear_device, env_value, lookup_var, media_dir, target_dir,
    thumb_name_for, video_name, CameraConfig, Environment, Platform,
};

fn env(pairs: &[(&str, &str)]) -> Environment {
    Environment { vars: pairs.iter().map(|(k, v)| (k.to_string(), v.to_string())).collect() }
}

fn front(e: &Environment) -> CameraConfig {
    camera_config("front", "フロント", "/dev/video0", &["FRONT_DEVICE", "DASHCAM_DEVICE"], e, Platform::Other)
}

fn rear(e: &Environment) -> CameraConfig {
    camera_config("rear", "リア", "/dev/video1", &["REAR_DEVICE"], e, Platform::Other)
}

#[test]
fn env_value_takes_first_set_name() {
    let e = env(&[("B", "second"), ("A", "first")]);
    assert_eq!(env_value(&e, &["A", "B"], "dflt"), "first");
    assert_eq!(env_value(&e, &["C", "B"], "dflt"), "second");
}

#[test]
fn env_value_skips_blank_values() {
    let e = env(&[("A", " \t\n"), ("B", "\u{3000}"), ("C", " x ")]);
    assert_eq!(env_value(&e, &["A", "B"], "dflt"), "dflt");
    assert_eq!(env_value(&e, &["A", "C"], "dflt"), " x ");
}

#[test]
fn env_value_falls_back_to_default() {
    let e = env(&[]);
    assert_eq!(env_value(&e, &["A"], "dflt"), "dflt");
    assert_eq!(env_value(&e, &[], ""), "");
}

#[test]
fn lookup_var_finds_first_entry() {
    let e = env(&[("A", "1"), ("A", "2")]);
    assert_eq!(lookup_var(&e, "A"), Some("1".to_string()));
    assert_eq!(lookup_var(&e, "a"), None);
}

#[test]
fn platform_defaults() {
    assert_eq!(default_input_format(Platform::MacOs), "avfoundation");
    assert_eq!(default_input_format(Platform::Other), "v4l2");
    assert_eq!(default_front_device(Platform::MacOs), "1");
    assert_eq!(default_front_device(Platform::Other), "/dev/video0");
    assert_eq!(default_rear_device(Platform::MacOs), "0");
    assert_eq!(default_rear_device(Platform::Other), "/dev/video1");
}

#[test]
fn camera_config_defaults() {
    let e = env(&[]);
    let c = front(&e);
    assert_eq!(c.role, "front");
    assert_eq!(c.label, "フロント");
    assert_eq!(c.input_format, "v4l2");
    assert_eq!(c.device, "/dev/video0");
    assert_eq!(c.fps, "30");
    assert_eq!(c.size, "640x480");
    let m = camera_config("rear", "リア", "0", &["REAR_DEVICE"], &e, Platform::MacOs);
    assert_eq!(m.input_format, "avfoundation");
    assert_eq!(m.device, "0");
}

#[test]
fn camera_config_prefers_camera_variables() {
    let e = env(&[
        ("FRONT_FPS", "15"),
        ("DASHCAM_FPS", "25"),
        ("DASHCAM_SIZE", "1280x720"),
        ("REAR_INPUT_FORMAT", "avfoundation"),
        ("DASHCAM_DEVICE", "/dev/video5"),
        ("REAR_DEVICE", "/dev/video7"),
    ]);
    let f = front(&e);
    assert_eq!(f.fps, "15");
    assert_eq!(f.size, "1280x720");
    assert_eq!(f.input_format, "v4l2");
    assert_eq!(f.device, "/dev/video5");
    let r = rear(&e);
    assert_eq!(r.fps, "25");
    assert_eq!(r.input_format, "avfoundation");
    assert_eq!(r.device, "/dev/video7");
}

#[test]
fn camera_config_upper_cases_role_for_names() {
    let e = env(&[("SIDE_SIZE", "320x240"), ("side_SIZE", "1x1")]);
    let c = camera_config("side", "横", "d", &[], &e, Platform::Other);
    assert_eq!(c.size, "320x240");
    assert_eq!(c.device, "d");
}

#[test]
fn media_dir_choices() {
    assert_eq!(media_dir(&env(&[])), "videos");
    assert_eq!(media_dir(&env(&[("VIDEO_VIEWER_DIR", "/srv/v")])), "/srv/v");
    assert_eq!(
        media_dir(&env(&[("VIDEO_VIEWER_DIR", "/srv/v"), ("DASHCAM_MEDIA_DIR", "/home/pi/videos")])),
        "/home/pi/videos"
    );
    assert_eq!(media_dir(&env(&[("DASHCAM_MEDIA_DIR", "  "), ("VIDEO_VIEWER_DIR", "w")])), "w");
}

#[test]
fn layout_matches_viewer_folders() {
    let e = env(&[]);
    let f = front(&e);
    let r = rear(&e);
    assert_eq!(camera_base_dir(&f, &e), "videos/front");
    assert_eq!(continuous_dir(&f, &e), "videos/front/continuous");
    assert_eq!(continuous_dir(&r, &e), "videos/rear/continuous");
    assert_eq!(
        camera_dirs(&r, &e),
        vec!["videos/rear/continuous", "videos/rear/event", "videos/rear/manual"]
    );
    assert_eq!(
        target_dir(&f, "event", "ACCIDENT_20240101_120000", &e),
        "videos/front/event/ACCIDENT_20240101_120000"
    );
    assert_eq!(target_dir(&r, "manual", "MANUAL_x", &e), "videos/rear/manual/MANUAL_x");
}

#[test]
fn layout_under_absolute_media_dir() {
    let e = env(&[("DASHCAM_MEDIA_DIR", "/home/pi/videos/")]);
    let f = front(&e);
    assert_eq!(continuous_dir(&f, &e), "/home/pi/videos/front/continuous");
}

#[test]
fn video_and_thumb_names() {
    let e = env(&[]);
    let f = front(&e);
    let v = video_name(&f, "20240101_120000");
    assert_eq!(v, "front_video_20240101_120000.mp4");
    assert_eq!(thumb_name_for(&v), "front_thumb_20240101_120000.jpg");
}

#[test]
fn thumb_name_edge_cases() {
    assert_eq!(thumb_name_for("clip.avi"), "clip.avi.jpg");
    assert_eq!(thumb_name_for("x_video_y"), "x_video_y.jpg");
    assert_eq!(thumb_name_for("a_video_b_video_c.mp4"), "a_thumb_b_thumb_c.jpg");
    assert_eq!(thumb_name_for(".mp4"), ".jpg");
    assert_eq!(thumb_name_for("_video_video_.mp4"), "_thumb_video_.jpg");
    assert_eq!(thumb_name_for(""), ".jpg");
}
