//! Camera configuration read from the environment, the directory layout
//! under the media directory, and the names of recorded files.

use vstd::prelude::*;
use crate::paths::{is_mp4_name, join_path, path_join};
use crate::text::{
    ascii_upper, ascii_uppercase, blank, chars_eq, chars_of, concat2, concat3, ends_with, is_blank,
    owned, push_chars, push_str, replace_all, replace_chars, slice_chars, str_eq,
    lemma_replace_all_at_start, lemma_replace_all_keeps_prefix, lemma_replace_all_no_match,
    lemma_replace_all_last,
};

verus! {

/// Default media directory, the folder the web viewer reads by default.
pub const DEFAULT_MEDIA_DIR: &'static str = "videos";

/// The operating system family, which decides the capture defaults.
#[derive(Clone, Copy, Debug, PartialEq, Eq, Structural)]
pub enum Platform {
    MacOs,
    Other,
}

/// A snapshot of the process environment: variable names with their values.
#[derive(Clone, Debug)]
pub struct Environment {
    pub vars: Vec<(String, String)>,
}

/// Settings of one camera.
#[derive(Clone, Debug)]
pub struct CameraConfig {
    pub role: String,
    pub label: String,
    pub input_format: String,
    pub device: String,
    pub fps: String,
    pub size: String,
}

// ---------------------------------------------------------------------------
// Environment lookups
// ---------------------------------------------------------------------------

/// The value of the first variable called `name`, if any.
pub open spec fn lookup(vars: Seq<(String, String)>, name: Seq<char>) -> Option<Seq<char>>
    decreases vars.len(),
{
    if vars.len() == 0 {
        None
    } else if vars[0].0@ == name {
        Some(vars[0].1@)
    } else {
        lookup(vars.drop_first(), name)
    }
}

/// The value of the first of `names` that is set to something other than
/// whitespace, or `default` when there is none.
pub open spec fn env_choice(vars: Seq<(String, String)>, names: Seq<Seq<char>>, default: Seq<char>) -> Seq<char>
    decreases names.len(),
{
    if names.len() == 0 {
        default
    } else {
        match lookup(vars, names[0]) {
            Some(v) if !is_blank(v) => v,
            _ => env_choice(vars, names.drop_first(), default),
        }
    }
}

pub open spec fn str_views(names: Seq<&str>) -> Seq<Seq<char>> {
    names.map_values(|n: &str| n@)
}

/// The value of the variable `name` in `env`.
pub fn lookup_var(env: &Environment, name: &str) -> (r: Option<String>)
    ensures
        match r {
            Some(v) => lookup(env.vars@, name@) == Some(v@),
            None => lookup(env.vars@, name@) is None,
        },
{
    let mut i: usize = 0;
    assert(env.vars@.skip(0) =~= env.vars@);
    while i < env.vars.len()
        invariant
            i <= env.vars.len(),
            lookup(env.vars@, name@) == lookup(env.vars@.skip(i as int), name@),
        decreases env.vars.len() - i,
    {
        proof {
            let rest = env.vars@.skip(i as int);
            assert(rest.drop_first() =~= env.vars@.skip(i + 1));
            assert(rest[0] == env.vars@[i as int]);
        }
        if str_eq(env.vars[i].0.as_str(), name) {
            return Some(owned(env.vars[i].1.as_str()));
        }
        i = i + 1;
    }
    None
}

/// The value of the first of `names` that is set and not blank in `env`,
/// or `default`.
pub fn env_value(env: &Environment, names: &[&str], default: &str) -> (r: String)
    ensures
        r@ == env_choice(env.vars@, str_views(names@), default@),
{
    let mut i: usize = 0;
    assert(str_views(names@).skip(0) =~= str_views(names@));
    while i < names.len()
        invariant
            i <= names.len(),
            env_choice(env.vars@, str_views(names@), default@) == env_choice(
                env.vars@,
                str_views(names@).skip(i as int),
                default@,
            ),
        decreases names.len() - i,
    {
        let ghost rest = str_views(names@).skip(i as int);
        assert(rest[0] == names@[i as int]@);
        assert(rest.drop_first() =~= str_views(names@).skip(i + 1));
        match lookup_var(env, names[i]) {
            Some(value) => {
                if !blank(value.as_str()) {
                    return value;
                }
            },
            None => {},
        }
        i = i + 1;
    }
    owned(default)
}

// ---------------------------------------------------------------------------
// Defaults
// ---------------------------------------------------------------------------

pub open spec fn spec_default_input_format(platform: Platform) -> Seq<char> {
    match platform {
        Platform::MacOs => "avfoundation"@,
        Platform::Other => "v4l2"@,
    }
}

/// The ffmpeg input format for cameras on `platform`.
pub fn default_input_format(platform: Platform) -> (r: &'static str)
    ensures
        r@ == spec_default_input_format(platform),
{
    match platform {
        Platform::MacOs => "avfoundation",
        Platform::Other => "v4l2",
    }
}

pub open spec fn spec_default_front_device(platform: Platform) -> Seq<char> {
    match platform {
        Platform::MacOs => "1"@,
        Platform::Other => "/dev/video0"@,
    }
}

/// The front camera's device on `platform`.
pub fn default_front_device(platform: Platform) -> (r: &'static str)
    ensures
        r@ == spec_default_front_device(platform),
{
    match platform {
        Platform::MacOs => "1",
        Platform::Other => "/dev/video0",
    }
}

pub open spec fn spec_default_rear_device(platform: Platform) -> Seq<char> {
    match platform {
        Platform::MacOs => "0"@,
        Platform::Other => "/dev/video1"@,
    }
}

/// The rear camera's device on `platform`.
pub fn default_rear_device(platform: Platform) -> (r: &'static str)
    ensures
        r@ == spec_default_rear_device(platform),
{
    match platform {
        Platform::MacOs => "0",
        Platform::Other => "/dev/video1",
    }
}

// ---------------------------------------------------------------------------
// Camera settings
// ---------------------------------------------------------------------------

/// The names, in order of preference, of the variables that set one camera
/// setting: the camera's own (`FRONT_FPS`) before the shared one
/// (`DASHCAM_FPS`).
pub open spec fn setting_names(role: Seq<char>, suffix: Seq<char>, shared: Seq<char>) -> Seq<Seq<char>> {
    seq![ascii_upper(role) + suffix, shared]
}

/// The configuration that `camera_config` builds.
pub open spec fn spec_camera_config(
    vars: Seq<(String, String)>,
    platform: Platform,
    role: Seq<char>,
    label: Seq<char>,
    default_device: Seq<char>,
    device_env: Seq<Seq<char>>,
    c: CameraConfig,
) -> bool {
    &&& c.role@ == role
    &&& c.label@ == label
    &&& c.input_format@ == env_choice(
        vars,
        setting_names(role, "_INPUT_FORMAT"@, "DASHCAM_INPUT_FORMAT"@),
        spec_default_input_format(platform),
    )
    &&& c.device@ == env_choice(vars, device_env, default_device)
    &&& c.fps@ == env_choice(vars, setting_names(role, "_FPS"@, "DASHCAM_FPS"@), "30"@)
    &&& c.size@ == env_choice(vars, setting_names(role, "_SIZE"@, "DASHCAM_SIZE"@), "640x480"@)
}

/// The value of a camera setting: the camera's own variable, then the
/// shared one, then `default`.
fn setting(env: &Environment, upper_role: &Vec<char>, suffix: &str, shared: &str, default: &str) -> (r: String)
    ensures
        r@ == env_choice(env.vars@, seq![upper_role@ + suffix@, shared@], default@),
{
    let mut own = String::new();
    push_chars(&mut own, upper_role);
    push_str(&mut own, suffix);
    let names: Vec<&str> = vec![own.as_str(), shared];
    assert(str_views(names@) =~= seq![upper_role@ + suffix@, shared@]);
    env_value(env, names.as_slice(), default)
}

/// The settings of the camera `role`, each read from the environment with
/// a fallback: the device from `device_env` (first set name wins) or
/// `default_device`, the input format from `<ROLE>_INPUT_FORMAT` or
/// `DASHCAM_INPUT_FORMAT` or the platform default, the frame rate from
/// `<ROLE>_FPS` or `DASHCAM_FPS` or `30`, the frame size from `<ROLE>_SIZE`
/// or `DASHCAM_SIZE` or `640x480`.
pub fn camera_config(
    role: &str,
    label: &str,
    default_device: &str,
    device_env: &[&str],
    env: &Environment,
    platform: Platform,
) -> (c: CameraConfig)
    ensures
        spec_camera_config(env.vars@, platform, role@, label@, default_device@, str_views(device_env@), c),
{
    let upper_role = ascii_uppercase(&chars_of(role));
    let input_format = setting(
        env,
        &upper_role,
        "_INPUT_FORMAT",
        "DASHCAM_INPUT_FORMAT",
        default_input_format(platform),
    );
    let device = env_value(env, device_env, default_device);
    let fps = setting(env, &upper_role, "_FPS", "DASHCAM_FPS", "30");
    let size = setting(env, &upper_role, "_SIZE", "DASHCAM_SIZE", "640x480");
    CameraConfig { role: owned(role), label: owned(label), input_format, device, fps, size }
}

// ---------------------------------------------------------------------------
// Directory layout
// ---------------------------------------------------------------------------

/// Where recordings go: `DASHCAM_MEDIA_DIR`, else `VIDEO_VIEWER_DIR`, else
/// `videos`.
pub open spec fn spec_media_dir(vars: Seq<(String, String)>) -> Seq<char> {
    env_choice(vars, seq!["DASHCAM_MEDIA_DIR"@, "VIDEO_VIEWER_DIR"@], DEFAULT_MEDIA_DIR@)
}

/// The media directory that `env` selects.
pub fn media_dir(env: &Environment) -> (r: String)
    ensures
        r@ == spec_media_dir(env.vars@),
{
    let names: Vec<&str> = vec!["DASHCAM_MEDIA_DIR", "VIDEO_VIEWER_DIR"];
    assert(str_views(names@) =~= seq!["DASHCAM_MEDIA_DIR"@, "VIDEO_VIEWER_DIR"@]);
    env_value(env, names.as_slice(), DEFAULT_MEDIA_DIR)
}

/// `<media>/<role>`
pub open spec fn spec_camera_base_dir(vars: Seq<(String, String)>, role: Seq<char>) -> Seq<char> {
    path_join(spec_media_dir(vars), role)
}

/// The directory that holds everything of one camera.
pub fn camera_base_dir(config: &CameraConfig, env: &Environment) -> (r: String)
    ensures
        r@ == spec_camera_base_dir(env.vars@, config.role@),
{
    let media = media_dir(env);
    join_path(media.as_str(), config.role.as_str())
}

/// `<media>/<role>/continuous`
pub open spec fn spec_continuous_dir(vars: Seq<(String, String)>, role: Seq<char>) -> Seq<char> {
    path_join(spec_camera_base_dir(vars, role), "continuous"@)
}

/// The directory of a camera's continuous recording.
pub fn continuous_dir(config: &CameraConfig, env: &Environment) -> (r: String)
    ensures
        r@ == spec_continuous_dir(env.vars@, config.role@),
{
    let base = camera_base_dir(config, env);
    join_path(base.as_str(), "continuous")
}

/// `<media>/<role>/<target>/<event_id>`
pub open spec fn spec_target_dir(
    vars: Seq<(String, String)>,
    role: Seq<char>,
    target: Seq<char>,
    event_id: Seq<char>,
) -> Seq<char> {
    path_join(path_join(spec_camera_base_dir(vars, role), target), event_id)
}

/// The directory that keeps the clips of one saved event.
pub fn target_dir(config: &CameraConfig, target: &str, event_id: &str, env: &Environment) -> (r: String)
    ensures
        r@ == spec_target_dir(env.vars@, config.role@, target@, event_id@),
{
    let base = camera_base_dir(config, env);
    let t = join_path(base.as_str(), target);
    join_path(t.as_str(), event_id)
}

/// The directories a camera needs before it records: its continuous,
/// event and manual folders.
pub open spec fn spec_camera_dirs(vars: Seq<(String, String)>, role: Seq<char>) -> Seq<Seq<char>> {
    seq![
        spec_continuous_dir(vars, role),
        path_join(spec_camera_base_dir(vars, role), "event"@),
        path_join(spec_camera_base_dir(vars, role), "manual"@),
    ]
}

/// The directories to create for a camera.
pub fn camera_dirs(config: &CameraConfig, env: &Environment) -> (r: Vec<String>)
    ensures
        r@.map_values(|d: String| d@) == spec_camera_dirs(env.vars@, config.role@),
{
    let base = camera_base_dir(config, env);
    let continuous = join_path(base.as_str(), "continuous");
    let event = join_path(base.as_str(), "event");
    let manual = join_path(base.as_str(), "manual");
    let r = vec![continuous, event, manual];
    assert(r@.map_values(|d: String| d@) =~= spec_camera_dirs(env.vars@, config.role@));
    r
}

// ---------------------------------------------------------------------------
// File names
// ---------------------------------------------------------------------------

/// `<role>_video_<timestamp>.mp4`
pub open spec fn spec_video_name(role: Seq<char>, timestamp: Seq<char>) -> Seq<char> {
    role + "_video_"@ + timestamp + ".mp4"@
}

/// The file name of the clip a camera starts at `timestamp`.
pub fn video_name(config: &CameraConfig, timestamp: &str) -> (r: String)
    ensures
        r@ == spec_video_name(config.role@, timestamp@),
{
    let mut r = concat3(config.role.as_str(), "_video_", timestamp);
    push_str(&mut r, ".mp4");
    r
}

/// The thumbnail name of a clip: every `_video_` becomes `_thumb_`, and a
/// final `.mp4` becomes `.jpg`; a name without `.mp4` at the end keeps its
/// original form and gets `.jpg` appended.
pub open spec fn spec_thumb_name(video: Seq<char>) -> Seq<char> {
    let replaced = replace_all(video, "_video_"@, "_thumb_"@);
    if ends_with(replaced, ".mp4"@) {
        replaced.take(replaced.len() - ".mp4"@.len()) + ".jpg"@
    } else {
        video + ".jpg"@
    }
}

/// The thumbnail file name that belongs to the clip `video_name`.
pub fn thumb_name_for(video_name: &str) -> (r: String)
    ensures
        r@ == spec_thumb_name(video_name@),
{
    let v = chars_of(video_name);
    let from = chars_of("_video_");
    let to = chars_of("_thumb_");
    let suffix = chars_of(".mp4");
    proof {
        reveal_strlit("_video_");
    }
    let replaced = replace_chars(&v, &from, &to);
    if suffix.len() <= replaced.len() {
        let tail = slice_chars(&replaced, replaced.len() - suffix.len(), replaced.len());
        assert(tail@ == replaced@.skip(replaced@.len() - suffix@.len()));
        if chars_eq(&tail, &suffix) {
            let base = slice_chars(&replaced, 0, replaced.len() - suffix.len());
            assert(base@ =~= replaced@.take(replaced@.len() - suffix@.len()));
            let mut r = String::new();
            push_chars(&mut r, &base);
            push_str(&mut r, ".jpg");
            return r;
        }
    }
    concat2(video_name, ".jpg")
}

// ---------------------------------------------------------------------------
// Laws of the naming scheme
// ---------------------------------------------------------------------------

/// Every clip name a camera gives is recognised as a clip (`*.mp4`) when
/// its folder is cleaned up.
pub proof fn video_names_are_clips(role: Seq<char>, timestamp: Seq<char>)
    ensures
        is_mp4_name(spec_video_name(role, timestamp)),
{
    reveal_strlit("_video_");
    reveal_strlit(".mp4");
    let v = spec_video_name(role, timestamp);
    assert(".mp4"@ =~= seq!['.', 'm', 'p', '4']);
    assert(v.skip(v.len() - 4) =~= ".mp4"@);
}

/// The thumbnail of a clip named by `video_name` is named alike, with
/// `_thumb_` for `_video_` and `.jpg` for `.mp4`, when the role holds no
/// `_` and the timestamp no `v` (as the `YYYYmmdd_HHMMSS` timestamps do).
pub proof fn thumb_name_follows_video_name(role: Seq<char>, timestamp: Seq<char>)
    requires
        forall|i: int| 0 <= i < role.len() ==> #[trigger] role[i] != '_',
        forall|i: int| 0 <= i < timestamp.len() ==> #[trigger] timestamp[i] != 'v',
    ensures
        spec_thumb_name(spec_video_name(role, timestamp)) == role + "_thumb_"@ + timestamp + ".jpg"@,
{
    reveal_strlit("_video_");
    reveal_strlit("_thumb_");
    reveal_strlit(".mp4");
    let p = "_video_"@;
    let r = "_thumb_"@;
    assert(p =~= seq!['_', 'v', 'i', 'd', 'e', 'o', '_']);
    assert(".mp4"@ =~= seq!['.', 'm', 'p', '4']);
    let rest = timestamp + ".mp4"@;
    let v = spec_video_name(role, timestamp);
    assert(v =~= role + (p + rest));
    lemma_replace_all_keeps_prefix(role, p + rest, p, r);
    lemma_replace_all_at_start(rest, p, r);
    assert forall|i: int| 1 <= i < rest.len() implies #[trigger] rest[i] != p[1] by {
        if i < timestamp.len() {
            assert(rest[i] == timestamp[i]);
        } else {
            assert(rest[i] == ".mp4"@[i - timestamp.len()]);
        }
    }
    lemma_replace_all_no_match(rest, p, r);
    let replaced = replace_all(v, p, r);
    assert(replaced =~= role + r + timestamp + ".mp4"@);
    assert(replaced.skip(replaced.len() - 4) =~= ".mp4"@);
    assert(replaced.take(replaced.len() - 4) =~= role + r + timestamp);
}

// ---------------------------------------------------------------------------
// Laws of the environment settings and the folder layout
// ---------------------------------------------------------------------------

/// The variable `name` is set to the non-blank value `v`.
pub open spec fn set_to(vars: Seq<(String, String)>, name: Seq<char>, v: Seq<char>) -> bool {
    lookup(vars, name) == Some(v) && !is_blank(v)
}

/// The variable `name` is unset or holds only whitespace.
pub open spec fn unset(vars: Seq<(String, String)>, name: Seq<char>) -> bool {
    match lookup(vars, name) {
        Some(v) => is_blank(v),
        None => true,
    }
}

/// A lookup finds the first entry with the name, and nothing when no entry
/// has it.
pub proof fn lookup_finds_first_entry(vars: Seq<(String, String)>, name: Seq<char>)
    ensures
        match lookup(vars, name) {
            Some(v) => exists|i: int|
                0 <= i < vars.len() && #[trigger] vars[i].0@ == name && vars[i].1@ == v && forall|
                    j: int,
                | 0 <= j < i ==> (#[trigger] vars[j]).0@ != name,
            None => forall|i: int| 0 <= i < vars.len() ==> (#[trigger] vars[i]).0@ != name,
        },
    decreases vars.len(),
{
    if vars.len() > 0 {
        let rest = vars.drop_first();
        lookup_finds_first_entry(rest, name);
        if vars[0].0@ == name {
            assert(vars[0].0@ == name && vars[0].1@ == vars[0].1@);
        } else {
            match lookup(vars, name) {
                Some(v) => {
                    let i = choose|i: int|
                        0 <= i < rest.len() && #[trigger] rest[i].0@ == name && rest[i].1@ == v
                            && forall|j: int| 0 <= j < i ==> (#[trigger] rest[j]).0@ != name;
                    assert(vars[i + 1] == rest[i]);
                    assert forall|j: int| 0 <= j < i + 1 implies (#[trigger] vars[j]).0@ != name by {
                        if j > 0 {
                            assert(vars[j] == rest[j - 1]);
                        }
                    }
                },
                None => {
                    assert forall|i: int| 0 <= i < vars.len() implies (#[trigger] vars[i]).0@
                        != name by {
                        if i > 0 {
                            assert(vars[i] == rest[i - 1]);
                        }
                    }
                },
            }
        }
    }
}

/// The first of the names that is set wins, whatever the later ones hold.
pub proof fn env_choice_takes_first_set(
    vars: Seq<(String, String)>,
    names: Seq<Seq<char>>,
    default: Seq<char>,
    k: int,
    v: Seq<char>,
)
    requires
        0 <= k < names.len(),
        set_to(vars, names[k], v),
        forall|j: int| 0 <= j < k ==> unset(vars, #[trigger] names[j]),
    ensures
        env_choice(vars, names, default) == v,
    decreases k,
{
    if k > 0 {
        assert(unset(vars, names[0]));
        let rest = names.drop_first();
        assert forall|j: int| 0 <= j < k - 1 implies unset(vars, #[trigger] rest[j]) by {
            assert(rest[j] == names[j + 1]);
        }
        env_choice_takes_first_set(vars, rest, default, k - 1, v);
    }
}

/// When none of the names is set, the default is taken.
pub proof fn env_choice_falls_back(vars: Seq<(String, String)>, names: Seq<Seq<char>>, default: Seq<char>)
    requires
        forall|j: int| 0 <= j < names.len() ==> unset(vars, #[trigger] names[j]),
    ensures
        env_choice(vars, names, default) == default,
    decreases names.len(),
{
    if names.len() > 0 {
        assert(unset(vars, names[0]));
        let rest = names.drop_first();
        assert forall|j: int| 0 <= j < rest.len() implies unset(vars, #[trigger] rest[j]) by {
            assert(rest[j] == names[j + 1]);
        }
        env_choice_falls_back(vars, rest, default);
    }
}

proof fn lemma_two_names(vars: Seq<(String, String)>, own: Seq<char>, shared: Seq<char>, default: Seq<char>, v: Seq<char>)
    ensures
        set_to(vars, own, v) ==> env_choice(vars, seq![own, shared], default) == v,
        unset(vars, own) && set_to(vars, shared, v) ==> env_choice(vars, seq![own, shared], default) == v,
        unset(vars, own) && unset(vars, shared) ==> env_choice(vars, seq![own, shared], default) == default,
{
    let names = seq![own, shared];
    if set_to(vars, own, v) {
        env_choice_takes_first_set(vars, names, default, 0, v);
    }
    if unset(vars, own) && set_to(vars, shared, v) {
        env_choice_takes_first_set(vars, names, default, 1, v);
    }
    if unset(vars, own) && unset(vars, shared) {
        env_choice_falls_back(vars, names, default);
    }
}

/// Where a camera's input format comes from: `<ROLE>_INPUT_FORMAT`, else
/// `DASHCAM_INPUT_FORMAT`, else `avfoundation` on macOS and `v4l2`
/// elsewhere.
pub proof fn input_format_source(
    vars: Seq<(String, String)>,
    platform: Platform,
    role: Seq<char>,
    label: Seq<char>,
    default_device: Seq<char>,
    device_env: Seq<Seq<char>>,
    c: CameraConfig,
    v: Seq<char>,
)
    requires
        spec_camera_config(vars, platform, role, label, default_device, device_env, c),
    ensures
        set_to(vars, ascii_upper(role) + "_INPUT_FORMAT"@, v) ==> c.input_format@ == v,
        unset(vars, ascii_upper(role) + "_INPUT_FORMAT"@) && set_to(vars, "DASHCAM_INPUT_FORMAT"@, v)
            ==> c.input_format@ == v,
        unset(vars, ascii_upper(role) + "_INPUT_FORMAT"@) && unset(vars, "DASHCAM_INPUT_FORMAT"@)
            ==> c.input_format@ == (if platform == Platform::MacOs {
            "avfoundation"@
        } else {
            "v4l2"@
        }),
{
    lemma_two_names(
        vars,
        ascii_upper(role) + "_INPUT_FORMAT"@,
        "DASHCAM_INPUT_FORMAT"@,
        spec_default_input_format(platform),
        v,
    );
}

/// Where a camera's frame rate comes from: `<ROLE>_FPS`, else
/// `DASHCAM_FPS`, else `30`.
pub proof fn fps_source(
    vars: Seq<(String, String)>,
    platform: Platform,
    role: Seq<char>,
    label: Seq<char>,
    default_device: Seq<char>,
    device_env: Seq<Seq<char>>,
    c: CameraConfig,
    v: Seq<char>,
)
    requires
        spec_camera_config(vars, platform, role, label, default_device, device_env, c),
    ensures
        set_to(vars, ascii_upper(role) + "_FPS"@, v) ==> c.fps@ == v,
        unset(vars, ascii_upper(role) + "_FPS"@) && set_to(vars, "DASHCAM_FPS"@, v) ==> c.fps@ == v,
        unset(vars, ascii_upper(role) + "_FPS"@) && unset(vars, "DASHCAM_FPS"@) ==> c.fps@ == "30"@,
{
    lemma_two_names(vars, ascii_upper(role) + "_FPS"@, "DASHCAM_FPS"@, "30"@, v);
}

/// Where a camera's frame size comes from: `<ROLE>_SIZE`, else
/// `DASHCAM_SIZE`, else `640x480`.
pub proof fn size_source(
    vars: Seq<(String, String)>,
    platform: Platform,
    role: Seq<char>,
    label: Seq<char>,
    default_device: Seq<char>,
    device_env: Seq<Seq<char>>,
    c: CameraConfig,
    v: Seq<char>,
)
    requires
        spec_camera_config(vars, platform, role, label, default_device, device_env, c),
    ensures
        set_to(vars, ascii_upper(role) + "_SIZE"@, v) ==> c.size@ == v,
        unset(vars, ascii_upper(role) + "_SIZE"@) && set_to(vars, "DASHCAM_SIZE"@, v) ==> c.size@ == v,
        unset(vars, ascii_upper(role) + "_SIZE"@) && unset(vars, "DASHCAM_SIZE"@) ==> c.size@
            == "640x480"@,
{
    lemma_two_names(vars, ascii_upper(role) + "_SIZE"@, "DASHCAM_SIZE"@, "640x480"@, v);
}

/// Where a camera's device comes from: the first of its device variables
/// that is set, else the given default; its role and label are the given
/// ones.
pub proof fn device_source(
    vars: Seq<(String, String)>,
    platform: Platform,
    role: Seq<char>,
    label: Seq<char>,
    default_device: Seq<char>,
    device_env: Seq<Seq<char>>,
    c: CameraConfig,
    k: int,
    v: Seq<char>,
)
    requires
        spec_camera_config(vars, platform, role, label, default_device, device_env, c),
    ensures
        c.role@ == role,
        c.label@ == label,
        0 <= k < device_env.len() && set_to(vars, device_env[k], v) && (forall|j: int|
            0 <= j < k ==> unset(vars, #[trigger] device_env[j])) ==> c.device@ == v,
        (forall|j: int| 0 <= j < device_env.len() ==> unset(vars, #[trigger] device_env[j]))
            ==> c.device@ == default_device,
{
    if 0 <= k < device_env.len() && set_to(vars, device_env[k], v) && (forall|j: int|
        0 <= j < k ==> unset(vars, #[trigger] device_env[j])) {
        env_choice_takes_first_set(vars, device_env, default_device, k, v);
    }
    if forall|j: int| 0 <= j < device_env.len() ==> unset(vars, #[trigger] device_env[j]) {
        env_choice_falls_back(vars, device_env, default_device);
    }
}

/// Where recordings go: `DASHCAM_MEDIA_DIR`, else `VIDEO_VIEWER_DIR`, else
/// `videos`.
pub proof fn media_dir_source(vars: Seq<(String, String)>, v: Seq<char>)
    ensures
        set_to(vars, "DASHCAM_MEDIA_DIR"@, v) ==> spec_media_dir(vars) == v,
        unset(vars, "DASHCAM_MEDIA_DIR"@) && set_to(vars, "VIDEO_VIEWER_DIR"@, v) ==> spec_media_dir(vars) == v,
        unset(vars, "DASHCAM_MEDIA_DIR"@) && unset(vars, "VIDEO_VIEWER_DIR"@) ==> spec_media_dir(vars)
            == "videos"@,
{
    lemma_two_names(vars, "DASHCAM_MEDIA_DIR"@, "VIDEO_VIEWER_DIR"@, DEFAULT_MEDIA_DIR@, v);
}

/// Every folder of a camera lies under the media directory:
/// `<media>/<role>`, its `continuous` folder, and the folder
/// `<target>/<event_id>` of a save.
pub proof fn layout_under_media_dir(
    vars: Seq<(String, String)>,
    role: Seq<char>,
    target: Seq<char>,
    event_id: Seq<char>,
)
    ensures
        spec_camera_base_dir(vars, role) == path_join(spec_media_dir(vars), role),
        spec_continuous_dir(vars, role) == path_join(
            path_join(spec_media_dir(vars), role),
            "continuous"@,
        ),
        spec_target_dir(vars, role, target, event_id) == path_join(
            path_join(path_join(spec_media_dir(vars), role), target),
            event_id,
        ),
{
}

/// The folders created for a camera are, in order, its continuous, event
/// and manual folders under `<media>/<role>`.
pub proof fn camera_dirs_layout(vars: Seq<(String, String)>, role: Seq<char>, dirs: Seq<Seq<char>>)
    requires
        dirs == spec_camera_dirs(vars, role),
    ensures
        dirs.len() == 3,
        dirs[0] == path_join(path_join(spec_media_dir(vars), role), "continuous"@),
        dirs[0] == spec_continuous_dir(vars, role),
        dirs[1] == path_join(path_join(spec_media_dir(vars), role), "event"@),
        dirs[2] == path_join(path_join(spec_media_dir(vars), role), "manual"@),
{
}

/// The capture defaults: on macOS `avfoundation` with devices `1` (front)
/// and `0` (rear); elsewhere `v4l2` with `/dev/video0` and `/dev/video1`.
pub proof fn platform_defaults(platform: Platform)
    ensures
        platform == Platform::MacOs ==> spec_default_input_format(platform) == "avfoundation"@
            && spec_default_front_device(platform) == "1"@ && spec_default_rear_device(platform)
            == "0"@,
        platform == Platform::Other ==> spec_default_input_format(platform) == "v4l2"@
            && spec_default_front_device(platform) == "/dev/video0"@ && spec_default_rear_device(
            platform,
        ) == "/dev/video1"@,
{
}

/// A clip name is the role, `_video_`, the timestamp and `.mp4`, in that
/// order.
pub proof fn video_name_parts(role: Seq<char>, timestamp: Seq<char>)
    ensures
        ({
            let v = spec_video_name(role, timestamp);
            &&& v.len() == role.len() + 7 + timestamp.len() + 4
            &&& v.take(role.len() as int) == role
            &&& v.subrange(role.len() as int, role.len() as int + 7) == seq!['_', 'v', 'i', 'd', 'e', 'o', '_']
            &&& v.subrange(role.len() as int + 7, role.len() as int + 7 + timestamp.len() as int) == timestamp
            &&& v.skip(v.len() - 4) == seq!['.', 'm', 'p', '4']
        }),
{
    reveal_strlit("_video_");
    reveal_strlit(".mp4");
    let v = spec_video_name(role, timestamp);
    assert("_video_"@ =~= seq!['_', 'v', 'i', 'd', 'e', 'o', '_']);
    assert(".mp4"@ =~= seq!['.', 'm', 'p', '4']);
    assert(v.take(role.len() as int) =~= role);
    assert(v.subrange(role.len() as int, role.len() as int + 7) =~= seq!['_', 'v', 'i', 'd', 'e', 'o', '_']);
    assert(v.subrange(role.len() as int + 7, role.len() as int + 7 + timestamp.len() as int) =~= timestamp);
    assert(v.skip(v.len() - 4) =~= seq!['.', 'm', 'p', '4']);
}

/// A name without `_` that does not end in `.mp4` gets `.jpg` appended for
/// its thumbnail.
pub proof fn thumb_name_of_other_names(name: Seq<char>)
    requires
        forall|i: int| 0 <= i < name.len() ==> #[trigger] name[i] != '_',
        !(name.len() >= 4 && name.skip(name.len() - 4) == seq!['.', 'm', 'p', '4']),
    ensures
        spec_thumb_name(name) == name + seq!['.', 'j', 'p', 'g'],
{
    reveal_strlit("_video_");
    reveal_strlit(".mp4");
    reveal_strlit(".jpg");
    assert("_video_"@ =~= seq!['_', 'v', 'i', 'd', 'e', 'o', '_']);
    assert(".mp4"@ =~= seq!['.', 'm', 'p', '4']);
    assert(".jpg"@ =~= seq!['.', 'j', 'p', 'g']);
    lemma_replace_all_keeps_prefix(name, Seq::empty(), "_video_"@, "_thumb_"@);
    assert(name + Seq::<char>::empty() =~= name);
    assert(replace_all(Seq::<char>::empty(), "_video_"@, "_thumb_"@) =~= Seq::<char>::empty());
}

/// A name that does not end in `4` (so not in `.mp4`) keeps its form and
/// gets `.jpg` appended for its thumbnail, whatever `_video_` it holds.
pub proof fn thumb_name_of_non_clip(name: Seq<char>)
    requires
        name.len() == 0 || name.last() != '4',
    ensures
        spec_thumb_name(name) == name + seq!['.', 'j', 'p', 'g'],
{
    reveal_strlit("_thumb_");
    reveal_strlit(".mp4");
    reveal_strlit(".jpg");
    assert("_thumb_"@ =~= seq!['_', 't', 'h', 'u', 'm', 'b', '_']);
    assert(".mp4"@ =~= seq!['.', 'm', 'p', '4']);
    assert(".jpg"@ =~= seq!['.', 'j', 'p', 'g']);
    let replaced = replace_all(name, "_video_"@, "_thumb_"@);
    if name.len() > 0 {
        lemma_replace_all_last(name, "_video_"@, "_thumb_"@);
        if ends_with(replaced, ".mp4"@) {
            assert(replaced.skip(replaced.len() - 4)[3] == replaced.last());
        }
    } else {
        assert(replaced.len() == 0);
    }
}

} // verus!
