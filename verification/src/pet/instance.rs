use vstd::prelude::*;

use crate::package::behavior::find_state;
use crate::package::loader::LoadedPackage;
use crate::package::manifest::animation_fps;
use super::animation::Animator;

verus! {

/// `frames` is a copy of `source`, frame by frame.
pub open spec fn copied_frames<F: Clone>(source: Seq<F>, frames: Seq<F>) -> bool {
    &&& frames.len() == source.len()
    &&& forall|i: int| 0 <= i < source.len() ==> cloned(source[i], #[trigger] frames[i])
}

/// Restarts `animator` on the animation of the state called `state_name`:
/// the animation named by the first state of that name, played at the rate
/// the manifest gives it. Where no state has the name, or the package holds
/// no frames under the animation's name, the animator is left as it is.
pub fn apply_current_state<F: Clone>(animator: &mut Animator<F>, package: &LoadedPackage<F>, state_name: &String)
    ensures
        match find_state(package.behavior.states@, state_name@) {
            None => *final(animator) == *old(animator),
            Some(def) => if package.animations.frames_by_name().contains_key(def.animation@) {
                &&& copied_frames(package.animations.frames_by_name()[def.animation@], final(animator).frames())
                &&& final(animator).fps() == animation_fps(package.manifest, def.animation@)
                &&& final(animator).index() == 0
                &&& final(animator).elapsed() == 0
                &&& !final(animator).looped()
            } else {
                *final(animator) == *old(animator)
            },
        },
{
    if let Some(def) = package.behavior.find_state(state_name) {
        if let Some(frames) = package.animations.get(&def.animation) {
            let fps = package.manifest.animation_fps(&def.animation);
            animator.reset(frames.clone(), fps);
        }
    }
}

} // verus!
