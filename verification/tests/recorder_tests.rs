use lib::cleanup::{contains_name, files_to_remove, sort_names};
use lib::recorder::{PendingSave, RecorderState, AFTER_CLIPS, BEFORE_CLIPS, MAX_FILES_PER_CAMERA};

fn strings(v: &[&str]) -> Vec<String> {
    v.iter().map(|s| s.to_string()).collect()
}

#[test]
fn new_state_is_empty() {
    let s = RecorderState::new();
    assert!(s.recent_videos.is_empty());
    assert!(s.pending_saves.is_empty());
    let d = RecorderState::default();
    assert!(d.recent_videos.is_empty() && d.pending_saves.is_empty());
}

#[test]
fn recent_window_keeps_last_clip() {
    let mut s = RecorderState::new();
    for v in ["v1", "v2", "v3"] {
        let done = s.complete_clip(v.to_string());
        assert!(done.is_empty());
        assert!(s.recent_videos.len() <= BEFORE_CLIPS);
    }
    assert_eq!(s.recent_videos.iter().cloned().collect::<Vec<_>>(), vec!["v3"]);
}

#[test]
fn save_holds_clip_before_and_after() {
    let mut s = RecorderState::new();
    s.complete_clip("v1".to_string());
    s.add_pending_save("ACCIDENT_1", "事故", "event");
    assert_eq!(s.pending_saves.len(), 1);
    assert_eq!(s.pending_saves[0].clips, strings(&["v1"]));
    assert_eq!(s.pending_saves[0].after_count, AFTER_CLIPS);
    let done = s.complete_clip("v2".to_string());
    assert_eq!(done.len(), 1);
    assert_eq!(done[0].event_id, "ACCIDENT_1");
    assert_eq!(done[0].label, "事故");
    assert_eq!(done[0].target, "event");
    assert_eq!(done[0].clips, strings(&["v1", "v2"]));
    assert_eq!(done[0].after_count, 0);
    assert!(s.pending_saves.is_empty());
    assert_eq!(s.recent_videos.iter().cloned().collect::<Vec<_>>(), vec!["v2"]);
}

#[test]
fn save_before_any_clip_holds_only_next_clip() {
    let mut s = RecorderState::new();
    s.add_pending_save("MANUAL_1", "手動", "manual");
    let done = s.complete_clip("v1".to_string());
    assert_eq!(done.len(), 1);
    assert_eq!(done[0].clips, strings(&["v1"]));
}

#[test]
fn saves_complete_in_request_order() {
    let mut s = RecorderState::new();
    s.complete_clip("v1".to_string());
    s.add_pending_save("A", "l", "event");
    s.add_pending_save("B", "l", "manual");
    let done = s.complete_clip("v2".to_string());
    assert_eq!(done.iter().map(|p| p.event_id.clone()).collect::<Vec<_>>(), vec!["A", "B"]);
    assert_eq!(done[1].clips, strings(&["v1", "v2"]));
}

#[test]
fn longer_wait_keeps_save_pending() {
    let mut s = RecorderState::new();
    s.pending_saves.push(PendingSave {
        event_id: "X".to_string(),
        label: "l".to_string(),
        target: "event".to_string(),
        clips: vec![],
        after_count: 2,
    });
    s.pending_saves.push(PendingSave {
        event_id: "Y".to_string(),
        label: "l".to_string(),
        target: "event".to_string(),
        clips: vec![],
        after_count: 0,
    });
    let done = s.complete_clip("v1".to_string());
    assert_eq!(done.len(), 1);
    assert_eq!(done[0].event_id, "Y");
    assert_eq!(done[0].clips, strings(&["v1"]));
    assert_eq!(s.pending_saves.len(), 1);
    assert_eq!(s.pending_saves[0].after_count, 1);
    let done = s.complete_clip("v2".to_string());
    assert_eq!(done[0].clips, strings(&["v1", "v2"]));
}

#[test]
fn protected_files_lists_waiting_clips() {
    let mut s = RecorderState::new();
    s.complete_clip("v1".to_string());
    s.add_pending_save("A", "l", "event");
    s.complete_clip("v2".to_string());
    s.add_pending_save("B", "l", "event");
    s.add_pending_save("C", "l", "manual");
    assert_eq!(s.protected_files(), strings(&["v2", "v2"]));
}

#[test]
fn names_sort_by_code_point() {
    let v = strings(&["b", "a", "ab", "", "B", "é", "a"]);
    let sorted = sort_names(&v);
    let mut expected = v.clone();
    expected.sort();
    assert_eq!(sorted, expected);
    assert_eq!(sorted, strings(&["", "B", "a", "a", "ab", "b", "é"]));
}

#[test]
fn cleanup_keeps_newest_five() {
    let videos = strings(&[
        "front_video_7.mp4", "front_video_1.mp4", "front_video_3.mp4", "front_video_2.mp4",
        "front_video_6.mp4", "front_video_5.mp4", "front_video_4.mp4",
    ]);
    assert_eq!(MAX_FILES_PER_CAMERA, 5);
    assert_eq!(files_to_remove(&videos, &vec![]), strings(&["front_video_1.mp4", "front_video_2.mp4"]));
}

#[test]
fn cleanup_spares_protected_clips() {
    let videos = strings(&["v1", "v2", "v3", "v4", "v5", "v6", "v7"]);
    let protected = strings(&["v1", "v7"]);
    assert_eq!(files_to_remove(&videos, &protected), strings(&["v2"]));
}

#[test]
fn cleanup_of_small_folder_removes_nothing() {
    let videos = strings(&["v1", "v2", "v3", "v4", "v5"]);
    assert!(files_to_remove(&videos, &vec![]).is_empty());
    assert!(files_to_remove(&vec![], &vec![]).is_empty());
}

#[test]
fn contains_name_matches_whole_names() {
    let names = strings(&["a", "bc"]);
    assert!(contains_name(&names, "bc"));
    assert!(!contains_name(&names, "b"));
}
