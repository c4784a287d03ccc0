use lib::config::{camera_config, Environment, Platform};
use lib::recorder::PendingSave;
use lib::save::{event_id, save_plan, save_plan_with_prefix};

fn pending(target: &str) -> PendingSave {
    PendingSave {
        event_id: "ACCIDENT_20240101_120000".to_string(),
        label: "事故".to_string(),
        target: target.to_string(),
        clips: vec!["front_video_1.mp4".to_string(), "front_video_2.mp4".to_string()],
        after_count: 0,
    }
}

#[test]
fn event_ids() {
    assert_eq!(event_id("ACCIDENT", "20240101_120000"), "ACCIDENT_20240101_120000");
    assert_eq!(event_id("MANUAL", ""), "MANUAL_");
}

#[test]
fn save_plan_copies_clips_and_thumbs() {
    let e = Environment { vars: vec![] };
    let c = camera_config("front", "フロント", "/dev/video0", &[], &e, Platform::Other);
    let plan = save_plan(&c, &pending("event"), &e);
    assert_eq!(plan.output_dir, "videos/front/event/ACCIDENT_20240101_120000");
    assert_eq!(plan.copies.len(), 2);
    let first = &plan.copies[0];
    assert_eq!(first.src_video, "videos/front/continuous/front_video_1.mp4");
    assert_eq!(first.src_thumb, "videos/front/continuous/front_thumb_1.jpg");
    assert_eq!(first.dst_video, "videos/front/event/ACCIDENT_20240101_120000/EVENT_front_video_1.mp4");
    assert_eq!(first.dst_thumb, "videos/front/event/ACCIDENT_20240101_120000/EVENT_front_thumb_1.jpg");
    assert_eq!(plan.copies[1].dst_video, "videos/front/event/ACCIDENT_20240101_120000/EVENT_front_video_2.mp4");
}

#[test]
fn save_plan_upper_cases_unicode_target() {
    let e = Environment { vars: vec![] };
    let c = camera_config("rear", "リア", "/dev/video1", &[], &e, Platform::Other);
    let plan = save_plan(&c, &pending("straße"), &e);
    assert!(plan.copies[0].dst_video.ends_with("/STRASSE_front_video_1.mp4"));
}

#[test]
fn save_plan_with_given_prefix() {
    let e = Environment { vars: vec![("DASHCAM_MEDIA_DIR".to_string(), "/m".to_string())] };
    let c = camera_config("rear", "リア", "/dev/video1", &[], &e, Platform::Other);
    let plan = save_plan_with_prefix(&c, &pending("manual"), "X", &e);
    assert_eq!(plan.output_dir, "/m/rear/manual/ACCIDENT_20240101_120000");
    assert_eq!(plan.copies[1].dst_thumb, "/m/rear/manual/ACCIDENT_20240101_120000/X_front_thumb_2.jpg");
}
