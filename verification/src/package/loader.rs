use vstd::prelude::*;

use super::behavior::BehaviorConfig;
use super::manifest::{AnimationInfo, Manifest};
use super::sprite::{load_sprite_sheet, sprite_sheet_outcome, Frame};

verus! {

/// The frames of each animation of a package, by animation name. Inserting
/// under a name already present replaces its frames.
pub struct AnimationSet<F> {
    entries: Vec<(String, Vec<F>)>,
}

/// `i` is the index of the entry for `name` in `entries`.
pub open spec fn entry_for<F>(entries: Seq<(String, Vec<F>)>, i: int, name: Seq<char>) -> bool {
    0 <= i < entries.len() && entries[i].0@ == name
}

/// Names in `entries` are pairwise distinct.
pub open spec fn distinct_names<F>(entries: Seq<(String, Vec<F>)>) -> bool {
    forall|i: int, j: int|
        0 <= i < entries.len() && 0 <= j < entries.len() && i != j ==> entries[i].0@ != entries[j].0@
}

/// The frames kept under each name in `entries`.
pub open spec fn frames_map<F>(entries: Seq<(String, Vec<F>)>) -> Map<Seq<char>, Seq<F>> {
    Map::new(
        |name: Seq<char>| exists|i: int| entry_for(entries, i, name),
        |name: Seq<char>| entries[choose|i: int| entry_for(entries, i, name)].1@,
    )
}

/// Replacing or adding the entry for `key` (and touching no other entry)
/// changes the map of frames by keeping `val` under `key`.
proof fn lemma_frames_map_insert<F>(
    old_entries: Seq<(String, Vec<F>)>,
    new_entries: Seq<(String, Vec<F>)>,
    key: Seq<char>,
    val: Seq<F>,
    at: int,
)
    requires
        distinct_names(old_entries),
        distinct_names(new_entries),
        entry_for(new_entries, at, key),
        new_entries[at].1@ == val,
        forall|n: Seq<char>, i: int| n != key ==> (entry_for(new_entries, i, n) <==> entry_for(old_entries, i, n)),
        forall|i: int| 0 <= i < old_entries.len() && old_entries[i].0@ != key ==> new_entries[i] == old_entries[i],
    ensures
        frames_map(new_entries) == frames_map(old_entries).insert(key, val),
{
    let m_new = frames_map(new_entries);
    let m_old = frames_map(old_entries).insert(key, val);
    assert forall|n: Seq<char>| m_new.contains_key(n) <==> m_old.contains_key(n) by {
        if n != key {
            if m_old.contains_key(n) {
                let i = choose|i: int| entry_for(old_entries, i, n);
                assert(entry_for(new_entries, i, n));
            }
        } else {
            assert(entry_for(new_entries, at, n));
        }
    }
    assert forall|n: Seq<char>| m_new.contains_key(n) implies m_new[n] == m_old[n] by {
        let c = choose|i: int| entry_for(new_entries, i, n);
        if n == key {
            assert(c == at);
        } else {
            let d = choose|i: int| entry_for(old_entries, i, n);
            assert(entry_for(old_entries, c, n));
            assert(c == d);
        }
    }
    assert(m_new =~= m_old);
}

impl<F> AnimationSet<F> {
    #[verifier::type_invariant]
    spec fn names_distinct(self) -> bool {
        distinct_names(self.entries@)
    }

    /// The frames kept under each name.
    pub closed spec fn frames_by_name(self) -> Map<Seq<char>, Seq<F>> {
        frames_map(self.entries@)
    }

    /// An empty set.
    pub fn new() -> (res: Self)
        ensures
            res.frames_by_name() == Map::<Seq<char>, Seq<F>>::empty(),
    {
        let res = AnimationSet { entries: Vec::new() };
        assert(res.frames_by_name() =~= Map::<Seq<char>, Seq<F>>::empty());
        res
    }

    /// Index of the entry for `name`.
    fn index_of(&self, name: &String) -> (res: Option<usize>)
        ensures
            match res {
                Some(i) => entry_for(self.entries@, i as int, name@),
                None => forall|j: int| !entry_for(self.entries@, j, name@),
            },
    {
        let mut i: usize = 0;
        while i < self.entries.len()
            invariant
                i <= self.entries@.len(),
                forall|j: int| 0 <= j < i ==> self.entries@[j].0@ != name@,
            decreases self.entries@.len() - i,
        {
            if self.entries[i].0 == *name {
                return Some(i);
            }
            i = i + 1;
        }
        None
    }

    /// Keeps `frames` under `name`, in place of any frames kept there before.
    pub fn insert(&mut self, name: String, frames: Vec<F>)
        ensures
            final(self).frames_by_name() == old(self).frames_by_name().insert(name@, frames@),
    {
        proof {
            use_type_invariant(&*self);
        }
        let ghost old_entries = self.entries@;
        let ghost key = name@;
        let ghost val = frames@;
        match self.index_of(&name) {
            Some(j) => {
                let mut entries: Vec<(String, Vec<F>)> = Vec::new();
                std::mem::swap(&mut entries, &mut self.entries);
                entries[j] = (name, frames);
                proof {
                    assert forall|n: Seq<char>, i: int| n != key implies
                        (entry_for(entries@, i, n) <==> entry_for(old_entries, i, n)) by {
                        if i == j {
                            assert(entries@[i].0@ == key);
                        }
                    }
                    assert(distinct_names(entries@));
                    lemma_frames_map_insert(old_entries, entries@, key, val, j as int);
                }
                self.entries = entries;
            },
            None => {
                let mut entries: Vec<(String, Vec<F>)> = Vec::new();
                std::mem::swap(&mut entries, &mut self.entries);
                entries.push((name, frames));
                proof {
                    assert(entries@[old_entries.len() as int].0@ == key);
                    assert forall|i: int, k: int|
                        0 <= i < entries@.len() && 0 <= k < entries@.len() && i != k
                            implies entries@[i].0@ != entries@[k].0@ by {
                        if i == old_entries.len() {
                            assert(!entry_for(old_entries, k, key));
                        } else if k == old_entries.len() {
                            assert(!entry_for(old_entries, i, key));
                        }
                    }
                    lemma_frames_map_insert(old_entries, entries@, key, val, old_entries.len() as int);
                }
                self.entries = entries;
            },
        }
    }

    /// The entries, one per name.
    pub fn into_entries(self) -> (res: Vec<(String, Vec<F>)>)
        ensures
            distinct_names(res@),
            frames_map(res@) == self.frames_by_name(),
    {
        proof {
            use_type_invariant(&self);
        }
        self.entries
    }

    /// The frames kept under `name`.
    pub fn get(&self, name: &String) -> (res: Option<&Vec<F>>)
        ensures
            match res {
                Some(v) => self.frames_by_name().contains_key(name@) && v@ == self.frames_by_name()[name@],
                None => !self.frames_by_name().contains_key(name@),
            },
    {
        match self.index_of(name) {
            Some(i) => {
                proof {
                    use_type_invariant(self);
                    let c = choose|k: int| entry_for(self.entries@, k, name@);
                    assert(c == i);
                }
                Some(&self.entries[i].1)
            },
            None => None,
        }
    }
}

/// Reading an animation set after an insert gives back what was inserted
/// under that name, and what was kept before under every other name.
pub proof fn lemma_get_after_insert<F>(
    before: AnimationSet<F>,
    after: AnimationSet<F>,
    name: Seq<char>,
    frames: Seq<F>,
    other: Seq<char>,
)
    requires
        after.frames_by_name() == before.frames_by_name().insert(name, frames),
    ensures
        after.frames_by_name().contains_key(name),
        after.frames_by_name()[name] == frames,
        other != name ==> (after.frames_by_name().contains_key(other) <==> before.frames_by_name().contains_key(other)),
        other != name && before.frames_by_name().contains_key(other)
            ==> after.frames_by_name()[other] == before.frames_by_name()[other],
{
}

/// A package in memory: its manifest, its behaviour and the frames of each
/// of its animations.
pub struct LoadedPackage<F> {
    pub manifest: Manifest,
    pub behavior: BehaviorConfig,
    pub animations: AnimationSet<F>,
}

/// Among the first `upto` animation entries, `i` is the last one called `name`.
pub open spec fn is_last_animation_named(anims: Seq<AnimationInfo>, i: int, name: Seq<char>, upto: int) -> bool {
    &&& 0 <= i < upto
    &&& anims[i].name@ == name
    &&& forall|j: int| i < j < upto ==> anims[j].name@ != name
}

/// `frames` are the frames whose RGBA bytes are `bytes`, each `width` × `height`.
pub open spec fn frames_match(frames: Seq<Frame>, bytes: Seq<Seq<u8>>, width: u32, height: u32) -> bool {
    &&& frames.len() == bytes.len()
    &&& forall|k: int| #![trigger frames[k]] 0 <= k < frames.len() ==> {
        &&& frames[k].width == width
        &&& frames[k].height == height
        &&& frames[k].rgba@ == bytes[k]
    }
}

/// What the sheet of animation entry `i` yields, `sheets[i]` being the bytes
/// of its sheet file or the error met reading it: that error, or the sheet
/// cut into frames of the sprite size.
pub open spec fn sheet_outcome(m: Manifest, sheets: Seq<Result<Vec<u8>, String>>, i: int) -> Result<Seq<Seq<u8>>, Seq<char>> {
    match sheets[i] {
        Err(e) => Err(e@),
        Ok(bytes) => sprite_sheet_outcome(bytes@, m.animations@[i].frames as int, m.sprite.width, m.sprite.height),
    }
}

/// `frames` holds, under each name among the first `upto` animation entries,
/// the frames of the sheet of the last entry of that name, and nothing else.
pub open spec fn animations_loaded(frames: Map<Seq<char>, Seq<Frame>>, m: Manifest, sheets: Seq<Result<Vec<u8>, String>>, upto: int) -> bool {
    &&& forall|n: Seq<char>|
        #![trigger frames.contains_key(n)]
        frames.contains_key(n) <==> exists|i: int| 0 <= i < upto && m.animations@[i].name@ == n
    &&& forall|i: int|
        #![trigger m.animations@[i]]
        is_last_animation_named(m.animations@, i, m.animations@[i].name@, upto) ==> {
            &&& sheet_outcome(m, sheets, i) is Ok
            &&& frames_match(
                frames[m.animations@[i].name@],
                sheet_outcome(m, sheets, i)->Ok_0,
                m.sprite.width,
                m.sprite.height,
            )
        }
}

/// Builds a package from its manifest, its behaviour and, for each animation
/// entry `i`, the bytes of its sheet file or the error met reading it
/// (`sheets[i]`): each sheet
/// is cut into frames of the sprite size and kept under the animation's
/// name, a later entry of the same name replacing an earlier one. Fails with
/// the error of the first sheet that fails, in the order of the entries.
pub fn build_package(manifest: Manifest, behavior: BehaviorConfig, sheets: &Vec<Result<Vec<u8>, String>>) -> (res: Result<
    LoadedPackage<Frame>,
    String,
>)
    requires
        sheets@.len() == manifest.animations@.len(),
    ensures
        res is Ok <==> forall|i: int| 0 <= i < sheets@.len() ==> #[trigger] sheet_outcome(manifest, sheets@, i) is Ok,
        res matches Ok(p) ==> {
            &&& p.manifest == manifest
            &&& p.behavior == behavior
            &&& animations_loaded(p.animations.frames_by_name(), manifest, sheets@, sheets@.len() as int)
        },
        res matches Err(e) ==> exists|k: int| {
            &&& 0 <= k < sheets@.len()
            &&& #[trigger] sheet_outcome(manifest, sheets@, k) == Err::<Seq<Seq<u8>>, Seq<char>>(e@)
            &&& forall|j: int| 0 <= j < k ==> sheet_outcome(manifest, sheets@, j) is Ok
        },
{
    let n = manifest.animations.len();
    let mut animations: AnimationSet<Frame> = AnimationSet::new();
    let mut i: usize = 0;
    while i < n
        invariant
            n == manifest.animations@.len(),
            n == sheets@.len(),
            i <= n,
            forall|j: int| 0 <= j < i ==> #[trigger] sheet_outcome(manifest, sheets@, j) is Ok,
            animations_loaded(animations.frames_by_name(), manifest, sheets@, i as int),
        decreases n - i,
    {
        let anim = &manifest.animations[i];
        let bytes = match &sheets[i] {
            Ok(b) => b,
            Err(e) => {
                let e = e.clone();
                assert(sheet_outcome(manifest, sheets@, i as int) == Err::<Seq<Seq<u8>>, Seq<char>>(e@));
                return Err(e);
            },
        };
        let frames = match load_sprite_sheet(
            bytes.as_slice(),
            anim.frames,
            manifest.sprite.width,
            manifest.sprite.height,
        ) {
            Ok(f) => f,
            Err(e) => {
                assert(sheet_outcome(manifest, sheets@, i as int) == Err::<Seq<Seq<u8>>, Seq<char>>(e@));
                return Err(e);
            },
        };
        let ghost before = animations.frames_by_name();
        let ghost name = anim.name@;
        animations.insert(anim.name.clone(), frames);
        proof {
            let after = animations.frames_by_name();
            let m = manifest;
            assert(frames_match(after[name], sheet_outcome(m, sheets@, i as int)->Ok_0, m.sprite.width, m.sprite.height));
            assert forall|nm: Seq<char>| after.contains_key(nm) <==> exists|j: int|
                0 <= j < i + 1 && m.animations@[j].name@ == nm by {
                if nm != name && after.contains_key(nm) {
                    assert(before.contains_key(nm));
                }
            }
            assert forall|j: int|
                #![trigger m.animations@[j]]
                is_last_animation_named(m.animations@, j, m.animations@[j].name@, i + 1) implies {
                    &&& sheet_outcome(m, sheets@, j) is Ok
                    &&& frames_match(
                        after[m.animations@[j].name@],
                        sheet_outcome(m, sheets@, j)->Ok_0,
                        m.sprite.width,
                        m.sprite.height,
                    )
                } by {
                if j < i {
                    assert(m.animations@[j].name@ != name);
                    assert(is_last_animation_named(m.animations@, j, m.animations@[j].name@, i as int));
                }
            }
        }
        i = i + 1;
    }
    Ok(LoadedPackage { manifest, behavior, animations })
}

} // verus!
