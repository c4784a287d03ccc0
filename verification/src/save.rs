//! Where a completed save copies its clips: the event id it is filed
//! under, its folder, and the source and destination of every clip and
//! thumbnail.

use vstd::prelude::*;
use crate::config::{
    continuous_dir, spec_continuous_dir, spec_media_dir, spec_target_dir, spec_thumb_name, target_dir,
    thumb_name_for, CameraConfig, Environment,
};
use crate::paths::{join_path, path_join};
use crate::recorder::PendingSave;
use crate::text::concat3;

verus! {

/// What `str::to_uppercase` makes of a string: its Unicode uppercase form.
pub uninterp spec fn unicode_uppercase(s: Seq<char>) -> Seq<char>;

/// Trusted: calls `str::to_uppercase`, whose result depends on the string
/// alone; its Unicode case mapping is not written out here, only named.
#[verifier::external_body]
fn to_uppercase(s: &str) -> (r: String)
    ensures
        r@ == unicode_uppercase(s@),
{
    s.to_uppercase()
}

/// The id of an event requested at `stamp`: `<prefix>_<stamp>`.
pub fn event_id(prefix: &str, stamp: &str) -> (r: String)
    ensures
        r@ == prefix@ + "_"@ + stamp@,
{
    concat3(prefix, "_", stamp)
}

/// One clip of a save: where its video and thumbnail are and where they go.
#[derive(Debug)]
pub struct ClipCopy {
    pub src_video: String,
    pub src_thumb: String,
    pub dst_video: String,
    pub dst_thumb: String,
}

/// The folder of a completed save and the copies that fill it.
#[derive(Debug)]
pub struct SavePlan {
    pub output_dir: String,
    pub copies: Vec<ClipCopy>,
}

/// The copy of `clip` for a save whose target, upper-cased, is `upper`: from
/// the continuous folder into `out`, each file name prefixed with
/// `<upper>_`.
pub open spec fn copy_matches(
    c: ClipCopy,
    vars: Seq<(String, String)>,
    role: Seq<char>,
    out: Seq<char>,
    upper: Seq<char>,
    clip: Seq<char>,
) -> bool {
    let src = spec_continuous_dir(vars, role);
    &&& c.src_video@ == path_join(src, clip)
    &&& c.src_thumb@ == path_join(src, spec_thumb_name(clip))
    &&& c.dst_video@ == path_join(out, upper + "_"@ + clip)
    &&& c.dst_thumb@ == path_join(out, upper + "_"@ + spec_thumb_name(clip))
}

/// The plan of a save of `p` by the camera `role`, names prefixed by `upper`.
pub open spec fn plan_matches(
    plan: SavePlan,
    vars: Seq<(String, String)>,
    role: Seq<char>,
    p: PendingSave,
    upper: Seq<char>,
) -> bool {
    let out = spec_target_dir(vars, role, p.target@, p.event_id@);
    &&& plan.output_dir@ == out
    &&& plan.copies@.len() == p.clips@.len()
    &&& forall|i: int|
        0 <= i < p.clips@.len() ==> copy_matches(
            #[trigger] plan.copies@[i],
            vars,
            role,
            out,
            upper,
            p.clips@[i]@,
        )
}

/// The plan of a save whose target, upper-cased, is `upper`.
pub fn save_plan_with_prefix(
    config: &CameraConfig,
    pending: &PendingSave,
    upper: &str,
    env: &Environment,
) -> (plan: SavePlan)
    ensures
        plan_matches(plan, env.vars@, config.role@, *pending, upper@),
{
    let output_dir = target_dir(config, pending.target.as_str(), pending.event_id.as_str(), env);
    let src = continuous_dir(config, env);
    let mut copies: Vec<ClipCopy> = Vec::new();
    let mut i: usize = 0;
    while i < pending.clips.len()
        invariant
            i <= pending.clips.len(),
            output_dir@ == spec_target_dir(env.vars@, config.role@, pending.target@, pending.event_id@),
            src@ == spec_continuous_dir(env.vars@, config.role@),
            copies@.len() == i,
            forall|j: int|
                0 <= j < i ==> copy_matches(
                    #[trigger] copies@[j],
                    env.vars@,
                    config.role@,
                    output_dir@,
                    upper@,
                    pending.clips@[j]@,
                ),
        decreases pending.clips.len() - i,
    {
        let clip = pending.clips[i].as_str();
        let thumb = thumb_name_for(clip);
        let dst_video_name = concat3(upper, "_", clip);
        let dst_thumb_name = concat3(upper, "_", thumb.as_str());
        let copy = ClipCopy {
            src_video: join_path(src.as_str(), clip),
            src_thumb: join_path(src.as_str(), thumb.as_str()),
            dst_video: join_path(output_dir.as_str(), dst_video_name.as_str()),
            dst_thumb: join_path(output_dir.as_str(), dst_thumb_name.as_str()),
        };
        copies.push(copy);
        i = i + 1;
    }
    SavePlan { output_dir, copies }
}

/// The plan of a completed save `pending` of the camera `config`: its
/// folder `<media>/<role>/<target>/<event_id>`, and for every clip, in
/// order, the clip and its thumbnail copied from the continuous folder under
/// names prefixed by the upper-cased target.
pub fn save_plan(config: &CameraConfig, pending: &PendingSave, env: &Environment) -> (plan: SavePlan)
    ensures
        plan_matches(plan, env.vars@, config.role@, *pending, unicode_uppercase(pending.target@)),
{
    let upper = to_uppercase(pending.target.as_str());
    save_plan_with_prefix(config, pending, upper.as_str(), env)
}

/// A save's plan copies every one of its clips, in order: copy `i` reads
/// clip `i` and its thumbnail from `<media>/<role>/continuous` and writes
/// them, under the same names prefixed by `<upper>_`, into
/// `<media>/<role>/<target>/<event_id>`.
pub proof fn save_plan_copies_each_clip(
    plan: SavePlan,
    vars: Seq<(String, String)>,
    role: Seq<char>,
    p: PendingSave,
    upper: Seq<char>,
    i: int,
)
    requires
        plan_matches(plan, vars, role, p, upper),
        0 <= i < p.clips@.len(),
    ensures
        plan.copies@.len() == p.clips@.len(),
        plan.output_dir@ == path_join(
            path_join(path_join(spec_media_dir(vars), role), p.target@),
            p.event_id@,
        ),
        plan.copies@[i].src_video@ == path_join(
            path_join(path_join(spec_media_dir(vars), role), "continuous"@),
            p.clips@[i]@,
        ),
        plan.copies@[i].src_thumb@ == path_join(
            path_join(path_join(spec_media_dir(vars), role), "continuous"@),
            spec_thumb_name(p.clips@[i]@),
        ),
        plan.copies@[i].dst_video@ == path_join(plan.output_dir@, upper + "_"@ + p.clips@[i]@),
        plan.copies@[i].dst_thumb@ == path_join(
            plan.output_dir@,
            upper + "_"@ + spec_thumb_name(p.clips@[i]@),
        ),
{
    assert(copy_matches(
        plan.copies@[i],
        vars,
        role,
        spec_target_dir(vars, role, p.target@, p.event_id@),
        upper,
        p.clips@[i]@,
    ));
}

} // verus!
