use vstd::prelude::*;

verus! {

/// A single-precision floating-point value from the package files, held by
/// its IEEE-754 bit pattern. The library carries such values through
/// unchanged; whatever arithmetic or comparison they take place outside it.
#[derive(Clone, Copy, Debug, PartialEq, Eq, Structural)]
pub struct FloatBits {
    pub bits: u32,
}

/// Contents of a package's `behaviors.toml`.
#[derive(Clone, Debug)]
pub struct BehaviorConfig {
    pub behavior: BehaviorSettings,
    pub states: Vec<StateDef>,
}

/// The `[behavior]` table.
#[derive(Clone, Debug)]
pub struct BehaviorSettings {
    pub initial_state: String,
    pub tick_rate_ms: u64,
}

/// One `[[states]]` entry: which animation plays, how the pet moves and
/// where it may go next.
#[derive(Clone, Debug)]
pub struct StateDef {
    pub name: String,
    pub animation: String,
    pub movement: Option<MovementDef>,
    pub transitions: Vec<TransitionDef>,
}

/// Horizontal movement while in a state: `direction` is `"left"`, `"right"`
/// or `"cursor"`, `speed_px_s` a speed in pixels per second.
#[derive(Clone, Debug)]
pub struct MovementDef {
    pub direction: String,
    pub speed_px_s: FloatBits,
}

/// A way out of a state: taken when `condition` holds, to `target` or else to
/// one of the weighted `targets`. Among transitions whose conditions hold, the
/// one with the highest `priority` wins, the earliest listed among equals.
#[derive(Clone, Debug)]
pub struct TransitionDef {
    pub condition: ConditionDef,
    pub target: Option<String>,
    pub targets: Option<Vec<WeightedTarget>>,
    pub priority: i32,
}

/// A candidate target state with its relative weight.
#[derive(Clone, Debug)]
pub struct WeightedTarget {
    pub state: String,
    pub weight: FloatBits,
}

/// The trigger of a transition.
#[derive(Clone, Debug)]
pub enum ConditionDef {
    /// The cursor is at most `distance` pixels from the pet's centre.
    CursorNear { distance: FloatBits },
    /// The cursor is more than `distance` pixels from the pet's centre.
    CursorFar { distance: FloatBits },
    /// The cursor is moving towards the pet.
    CursorFollowing,
    /// At least `count` clicks in the current click combo.
    OnClick { button: String, count: u8 },
    /// The pet touches the `"left"` or `"right"` screen edge.
    AtEdge { edge: String },
    /// Always after `max_seconds` in the state, and at random from `min_seconds` on.
    Timer { min_seconds: FloatBits, max_seconds: FloatBits },
    /// The current animation has played through at least once.
    AnimationDone,
    /// The pet is in the air.
    Falling,
    /// Holds with the given probability on each tick.
    Random { probability: FloatBits },
}

/// `i` is the first index of `states` whose state is called `name`.
pub open spec fn is_first_state_named(states: Seq<StateDef>, i: int, name: Seq<char>) -> bool {
    &&& 0 <= i < states.len()
    &&& states[i].name@ == name
    &&& forall|j: int| 0 <= j < i ==> states[j].name@ != name
}

/// The first state called `name`, if there is one.
pub open spec fn find_state(states: Seq<StateDef>, name: Seq<char>) -> Option<StateDef> {
    if exists|i: int| is_first_state_named(states, i, name) {
        Some(states[choose|i: int| is_first_state_named(states, i, name)])
    } else {
        None
    }
}

/// Two first indexes of the same name are the same index.
pub proof fn lemma_first_state_unique(states: Seq<StateDef>, i: int, j: int, name: Seq<char>)
    requires
        is_first_state_named(states, i, name),
        is_first_state_named(states, j, name),
    ensures
        i == j,
{
}

impl BehaviorConfig {
    /// Index of the first state called `name`.
    pub fn state_index(&self, name: &String) -> (res: Option<usize>)
        ensures
            match res {
                Some(i) => is_first_state_named(self.states@, i as int, name@),
                None => forall|j: int| 0 <= j < self.states@.len() ==> self.states@[j].name@ != name@,
            },
    {
        let mut i: usize = 0;
        while i < self.states.len()
            invariant
                i <= self.states@.len(),
                forall|j: int| 0 <= j < i ==> self.states@[j].name@ != name@,
            decreases self.states@.len() - i,
        {
            if self.states[i].name == *name {
                return Some(i);
            }
            i = i + 1;
        }
        None
    }

    /// The first state called `name`.
    pub fn find_state(&self, name: &String) -> (res: Option<&StateDef>)
        ensures
            match res {
                Some(s) => find_state(self.states@, name@) == Some(*s),
                None => find_state(self.states@, name@) is None,
            },
    {
        match self.state_index(name) {
            Some(i) => {
                proof {
                    let c = choose|k: int| is_first_state_named(self.states@, k, name@);
                    lemma_first_state_unique(self.states@, i as int, c, name@);
                }
                Some(&self.states[i])
            },
            None => None,
        }
    }

    /// How the pet moves in the state called `name`: the movement of the
    /// first state of that name, if it has one.
    pub fn movement_for(&self, name: &String) -> (res: Option<&MovementDef>)
        ensures
            res == (match find_state(self.states@, name@) {
                Some(s) => match s.movement {
                    Some(m) => Some(&m),
                    None => None,
                },
                None => None,
            }),
    {
        match self.find_state(name) {
            Some(s) => match &s.movement {
                Some(m) => Some(m),
                None => None,
            },
            None => None,
        }
    }
}

} // verus!
