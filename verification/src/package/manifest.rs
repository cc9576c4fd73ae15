use vstd::prelude::*;

verus! {

/// Contents of a package's `manifest.toml`.
#[derive(Clone, Debug)]
pub struct Manifest {
    pub package: PackageInfo,
    pub sprite: SpriteInfo,
    pub animations: Vec<AnimationInfo>,
}

/// The `[package]` table: who made the pet.
#[derive(Clone, Debug)]
pub struct PackageInfo {
    pub name: String,
    pub version: String,
    pub author: String,
}

/// The `[sprite]` table: size of one frame in pixels and the default frame rate.
#[derive(Clone, Copy, Debug)]
pub struct SpriteInfo {
    pub width: u32,
    pub height: u32,
    pub fps: u32,
}

/// One `[[animations]]` entry: a sprite sheet of `frames` frames laid side by side.
#[derive(Clone, Debug)]
pub struct AnimationInfo {
    pub name: String,
    pub sheet: String,
    pub frames: usize,
    pub fps: Option<u32>,
}

/// `i` is the first index of `animations` whose animation is called `name`.
pub open spec fn is_first_animation_named(animations: Seq<AnimationInfo>, i: int, name: Seq<char>) -> bool {
    &&& 0 <= i < animations.len()
    &&& animations[i].name@ == name
    &&& forall|j: int| 0 <= j < i ==> animations[j].name@ != name
}

/// Frame rate of the animation called `name`: the `fps` of the first
/// `[[animations]]` entry of that name where it gives one, and the sprite's
/// default rate where that entry gives none or no entry has the name.
pub open spec fn animation_fps(m: Manifest, name: Seq<char>) -> u32 {
    if exists|i: int| is_first_animation_named(m.animations@, i, name) {
        let i = choose|i: int| is_first_animation_named(m.animations@, i, name);
        match m.animations@[i].fps {
            Some(f) => f,
            None => m.sprite.fps,
        }
    } else {
        m.sprite.fps
    }
}

/// An animation plays at the `fps` of the first entry of its name when that
/// entry gives one, whatever the sprite's default; otherwise, and when no
/// entry has the name, at the sprite's default.
pub proof fn lemma_animation_fps_override(m: Manifest, name: Seq<char>, i: int)
    ensures
        is_first_animation_named(m.animations@, i, name) && m.animations@[i].fps is Some
            ==> animation_fps(m, name) == m.animations@[i].fps->Some_0,
        is_first_animation_named(m.animations@, i, name) && m.animations@[i].fps is None
            ==> animation_fps(m, name) == m.sprite.fps,
        (forall|j: int| 0 <= j < m.animations@.len() ==> m.animations@[j].name@ != name)
            ==> animation_fps(m, name) == m.sprite.fps,
{
    if is_first_animation_named(m.animations@, i, name) {
        let c = choose|k: int| is_first_animation_named(m.animations@, k, name);
        assert(c == i);
    }
}

impl Manifest {
    /// Index of the first animation entry called `name`.
    pub fn animation_index(&self, name: &String) -> (res: Option<usize>)
        ensures
            match res {
                Some(i) => is_first_animation_named(self.animations@, i as int, name@),
                None => forall|j: int|
                    0 <= j < self.animations@.len() ==> self.animations@[j].name@ != name@,
            },
    {
        let mut i: usize = 0;
        while i < self.animations.len()
            invariant
                i <= self.animations@.len(),
                forall|j: int| 0 <= j < i ==> self.animations@[j].name@ != name@,
            decreases self.animations@.len() - i,
        {
            if self.animations[i].name == *name {
                return Some(i);
            }
            i = i + 1;
        }
        None
    }

    /// Frame rate to play the animation called `name` at.
    pub fn animation_fps(&self, name: &String) -> (res: u32)
        ensures
            res == animation_fps(*self, name@),
    {
        match self.animation_index(name) {
            Some(i) => {
                proof {
                    let c = choose|k: int| is_first_animation_named(self.animations@, k, name@);
                    assert(c == i);
                }
                match self.animations[i].fps {
                    Some(f) => f,
                    None => self.sprite.fps,
                }
            },
            None => self.sprite.fps,
        }
    }
}

} // verus!
