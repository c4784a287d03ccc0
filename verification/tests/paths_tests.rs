use lib::paths::{has_mp4_extension, join_path};

#[test]
fn join_adds_separator() {
    assert_eq!(join_path("videos", "front"), "videos/front");
    assert_eq!(join_path("videos/", "front"), "videos/front");
    assert_eq!(join_path("", "front"), "front");
    assert_eq!(join_path("videos", ""), "videos/");
}

#[test]
fn join_with_absolute_part_replaces() {
    assert_eq!(join_path("videos", "/abs/x"), "/abs/x");
}

#[test]
fn join_agrees_with_std_path() {
    let cases = [("videos", "front"), ("videos/", "front"), ("", "front"), ("a", "/b"), ("a", ""), ("/", "x")];
    for (base, part) in cases {
        let expected = std::path::Path::new(base).join(part);
        assert_eq!(join_path(base, part), expected.to_str().unwrap());
    }
}

#[test]
fn mp4_extension() {
    assert!(has_mp4_extension("front_video_1.mp4"));
    assert!(has_mp4_extension("a.mp4"));
    assert!(has_mp4_extension("..mp4"));
    assert!(!has_mp4_extension(".mp4"));
    assert!(!has_mp4_extension("a.MP4"));
    assert!(!has_mp4_extension("a.mp4.jpg"));
    assert!(!has_mp4_extension("mp4"));
    assert!(!has_mp4_extension("front_thumb_1.jpg"));
}

#[test]
fn mp4_extension_agrees_with_std_path() {
    for name in ["a.mp4", ".mp4", "..mp4", "a.b.mp4", "amp4", "a.mp4.", "x.mp3"] {
        let std_says = std::path::Path::new(name).extension().and_then(|e| e.to_str()) == Some("mp4");
        assert_eq!(has_mp4_extension(name), std_says, "{name}");
    }
}
