use std::sync::Arc;
use vstd::prelude::*;

use crate::package::behavior::{find_state, BehaviorConfig, ConditionDef, StateDef, TransitionDef};
use crate::text::same_text;

verus! {

/// Milliseconds after the last click at which a click combo ends.
pub const CLICK_COMBO_WINDOW_MS: u64 = 400;

/// The behaviour state machine of one pet.
pub struct StateMachine {
    pub current_state: String,
    pub config: Arc<BehaviorConfig>,
    pub state_elapsed_ms: u64,
    pub click_count: u8,
    pub last_click_ms: u64,
}

/// What a pet observes of its surroundings on one tick.
#[derive(Clone, Copy, Debug)]
pub struct SmContext {
    pub is_cursor_following: bool,
    pub at_left_edge: bool,
    pub at_right_edge: bool,
    pub animation_done: bool,
    pub is_falling: bool,
}

/// Outcomes settled outside the state machine for one tick, by the position
/// of each transition in the current state's list: whether the conditions
/// that rest on distances, durations or chance (`CursorNear`, `CursorFar`,
/// `Timer`, `Random`) hold, and which of a transition's weighted targets was
/// drawn (`None`: none was).
#[derive(Clone, Debug)]
pub struct TickDraws {
    pub condition_met: Vec<bool>,
    pub chosen_target: Vec<Option<usize>>,
}

/// Whether the settled condition of transition `i` holds (false where no
/// outcome was given).
pub open spec fn drawn_condition(draws: TickDraws, i: int) -> bool {
    0 <= i < draws.condition_met@.len() && draws.condition_met@[i]
}

/// The weighted target drawn for transition `i` (none where no outcome was given).
pub open spec fn drawn_choice(draws: TickDraws, i: int) -> Option<usize> {
    if 0 <= i < draws.chosen_target@.len() {
        draws.chosen_target@[i]
    } else {
        None
    }
}

/// Whether `condition` holds, given the surroundings, the clicks of the
/// current combo and the settled outcome for conditions on distances,
/// durations or chance.
pub open spec fn condition_holds(condition: ConditionDef, ctx: SmContext, clicks: u8, drawn: bool) -> bool {
    match condition {
        ConditionDef::CursorNear { .. } => drawn,
        ConditionDef::CursorFar { .. } => drawn,
        ConditionDef::CursorFollowing => ctx.is_cursor_following,
        ConditionDef::OnClick { count, .. } => clicks >= count,
        ConditionDef::AtEdge { edge } => if edge@ == "left"@ {
            ctx.at_left_edge
        } else if edge@ == "right"@ {
            ctx.at_right_edge
        } else {
            false
        },
        ConditionDef::Timer { .. } => drawn,
        ConditionDef::AnimationDone => ctx.animation_done,
        ConditionDef::Falling => ctx.is_falling,
        ConditionDef::Random { .. } => drawn,
    }
}

/// Whether transition `i` of `def` may fire on this tick.
pub open spec fn transition_holds(def: StateDef, i: int, ctx: SmContext, clicks: u8, draws: TickDraws) -> bool {
    condition_holds(def.transitions@[i].condition, ctx, clicks, drawn_condition(draws, i))
}

/// Transition `k` of `def` is the one taken: it may fire, and every other
/// that may fire has a lower priority, or the same priority and a later place
/// in the list.
pub open spec fn is_taken(def: StateDef, k: int, ctx: SmContext, clicks: u8, draws: TickDraws) -> bool {
    &&& 0 <= k < def.transitions@.len()
    &&& transition_holds(def, k, ctx, clicks, draws)
    &&& forall|j: int|
        0 <= j < def.transitions@.len() && transition_holds(def, j, ctx, clicks, draws) ==> {
            ||| def.transitions@[j].priority < def.transitions@[k].priority
            ||| (def.transitions@[j].priority == def.transitions@[k].priority && k <= j)
        }
}

/// Where taking transition `t` leads: its single target if it names one,
/// else the drawn one of its weighted targets; `None` where neither exists.
pub open spec fn destination(t: TransitionDef, choice: Option<usize>) -> Option<Seq<char>> {
    match t.target {
        Some(s) => Some(s@),
        None => match t.targets {
            Some(ws) => match choice {
                Some(c) => if c < ws@.len() {
                    Some(ws@[c as int].state@)
                } else {
                    None
                },
                None => None,
            },
            None => None,
        },
    }
}

/// Clicks left in the combo once `since_last_click` milliseconds have
/// passed since the last click: the combo ends after the combo window.
pub open spec fn clicks_after(clicks: u8, since_last_click: int) -> u8 {
    if since_last_click > CLICK_COMBO_WINDOW_MS && clicks > 0 {
        0
    } else {
        clicks
    }
}

/// The machine does not support a priority of `i32::MIN` in a state with two
/// or more transitions.
pub open spec fn priorities_orderable(def: StateDef) -> bool {
    def.transitions@.len() >= 2 ==> forall|i: int|
        0 <= i < def.transitions@.len() ==> def.transitions@[i].priority != i32::MIN
}

/// At most one transition is taken.
pub proof fn lemma_taken_unique(def: StateDef, k1: int, k2: int, ctx: SmContext, clicks: u8, draws: TickDraws)
    requires
        is_taken(def, k1, ctx, clicks, draws),
        is_taken(def, k2, ctx, clicks, draws),
    ensures
        k1 == k2,
{
}

/// An `AtEdge` condition on the `"left"` edge holds exactly when the pet
/// touches the left edge, and one on the `"right"` edge exactly when it
/// touches the right edge, whatever the clicks and drawn outcomes.
pub proof fn lemma_edge_conditions(def: StateDef, k: int, ctx: SmContext, clicks: u8, draws: TickDraws)
    requires
        0 <= k < def.transitions@.len(),
        def.transitions@[k].condition is AtEdge,
    ensures
        def.transitions@[k].condition->edge@ == "left"@
            ==> (transition_holds(def, k, ctx, clicks, draws) <==> ctx.at_left_edge),
        def.transitions@[k].condition->edge@ == "right"@
            ==> (transition_holds(def, k, ctx, clicks, draws) <==> ctx.at_right_edge),
        def.transitions@[k].condition->edge@ != "left"@ && def.transitions@[k].condition->edge@ != "right"@
            ==> !transition_holds(def, k, ctx, clicks, draws),
{
    reveal_strlit("left");
    reveal_strlit("right");
    assert("left"@.len() != "right"@.len());
    assert("left"@ != "right"@);
}

/// The weighted target a taken transition leads to is the one drawn for that
/// transition itself: with no single target, weighted targets `ws` and the
/// draw at position `k` naming index `c` of `ws`, transition `k` leads to
/// `ws[c]`; and two draws that agree at position `k` lead transition `k` to
/// the same place, whatever they hold elsewhere.
pub proof fn lemma_weighted_destination(def: StateDef, k: int, draws: TickDraws, other: TickDraws, c: usize)
    requires
        0 <= k < def.transitions@.len(),
        def.transitions@[k].target is None,
        def.transitions@[k].targets is Some,
    ensures
        ({
            let ws = def.transitions@[k].targets->Some_0@;
            k < draws.chosen_target@.len() && draws.chosen_target@[k] == Some(c) && c < ws.len()
                ==> destination(def.transitions@[k], drawn_choice(draws, k)) == Some(ws[c as int].state@)
        }),
        k < draws.chosen_target@.len() && k < other.chosen_target@.len()
            && draws.chosen_target@[k] == other.chosen_target@[k]
            ==> destination(def.transitions@[k], drawn_choice(draws, k))
                == destination(def.transitions@[k], drawn_choice(other, k)),
        k >= draws.chosen_target@.len() ==> destination(def.transitions@[k], drawn_choice(draws, k)) is None,
{
}

impl StateMachine {
    /// The behaviour configuration the machine runs on.
    pub open spec fn config(self) -> BehaviorConfig {
        *self.config
    }

    /// A machine in the configuration's initial state, with a fresh clock and
    /// no clicks.
    pub fn new(config: Arc<BehaviorConfig>) -> (res: Self)
        ensures
            res.config() == *config,
            res.current_state == config.behavior.initial_state,
            res.state_elapsed_ms == 0,
            res.click_count == 0,
            res.last_click_ms == 0,
    {
        let initial = config.behavior.initial_state.clone();
        StateMachine { current_state: initial, config, state_elapsed_ms: 0, click_count: 0, last_click_ms: 0 }
    }

    /// The behaviour configuration the machine runs on.
    pub fn behavior(&self) -> (res: &BehaviorConfig)
        ensures
            *res == self.config(),
    {
        &self.config
    }

    /// The definition of the current state: the first state of that name.
    pub fn current_state_def(&self) -> (res: Option<&StateDef>)
        ensures
            match res {
                Some(s) => find_state(self.config().states@, self.current_state@) == Some(*s),
                None => find_state(self.config().states@, self.current_state@) is None,
            },
    {
        self.config.find_state(&self.current_state)
    }

    /// A left click adds to the click combo and restarts the combo window;
    /// other buttons are ignored.
    pub fn on_click(&mut self, button: &str)
        requires
            button@ == "left"@ ==> old(self).click_count < 255,
        ensures
            final(self).config() == old(self).config(),
            final(self).current_state == old(self).current_state,
            final(self).state_elapsed_ms == old(self).state_elapsed_ms,
            button@ == "left"@ ==> {
                &&& final(self).click_count == old(self).click_count + 1
                &&& final(self).last_click_ms == 0
            },
            button@ != "left"@ ==> {
                &&& final(self).click_count == old(self).click_count
                &&& final(self).last_click_ms == old(self).last_click_ms
            },
    {
        if same_text(button, "left") {
            self.click_count = self.click_count + 1;
            self.last_click_ms = 0;
        }
    }

    /// Enters `state` with a fresh clock and no clicks.
    fn set_state(&mut self, state: String)
        ensures
            final(self).config() == old(self).config(),
            final(self).current_state == state,
            final(self).state_elapsed_ms == 0,
            final(self).click_count == 0,
            final(self).last_click_ms == old(self).last_click_ms,
    {
        self.current_state = state;
        self.state_elapsed_ms = 0;
        self.click_count = 0;
    }

    /// Whether transition `i` of `def` may fire.
    fn holds(def: &StateDef, i: usize, ctx: &SmContext, clicks: u8, draws: &TickDraws) -> (res: bool)
        requires
            i < def.transitions@.len(),
        ensures
            res == transition_holds(*def, i as int, *ctx, clicks, *draws),
    {
        let drawn = i < draws.condition_met.len() && draws.condition_met[i];
        match &def.transitions[i].condition {
            ConditionDef::CursorNear { .. } => drawn,
            ConditionDef::CursorFar { .. } => drawn,
            ConditionDef::CursorFollowing => ctx.is_cursor_following,
            ConditionDef::OnClick { count, .. } => clicks >= *count,
            ConditionDef::AtEdge { edge } => {
                if same_text(edge.as_str(), "left") {
                    ctx.at_left_edge
                } else if same_text(edge.as_str(), "right") {
                    ctx.at_right_edge
                } else {
                    false
                }
            },
            ConditionDef::Timer { .. } => drawn,
            ConditionDef::AnimationDone => ctx.animation_done,
            ConditionDef::Falling => ctx.is_falling,
            ConditionDef::Random { .. } => drawn,
        }
    }

    /// The transition of `def` taken on this tick, if any may fire.
    fn taken_transition(def: &StateDef, ctx: &SmContext, clicks: u8, draws: &TickDraws) -> (res: Option<usize>)
        ensures
            match res {
                Some(k) => is_taken(*def, k as int, *ctx, clicks, *draws),
                None => forall|j: int|
                    0 <= j < def.transitions@.len() ==> !transition_holds(*def, j, *ctx, clicks, *draws),
            },
    {
        let n = def.transitions.len();
        let mut best: Option<usize> = None;
        let mut i: usize = 0;
        while i < n
            invariant
                n == def.transitions@.len(),
                i <= n,
                match best {
                    Some(b) => {
                        &&& b < i
                        &&& transition_holds(*def, b as int, *ctx, clicks, *draws)
                        &&& forall|j: int|
                            0 <= j < i && transition_holds(*def, j, *ctx, clicks, *draws) ==> {
                                ||| def.transitions@[j].priority < def.transitions@[b as int].priority
                                ||| (def.transitions@[j].priority == def.transitions@[b as int].priority
                                    && b <= j)
                            }
                    },
                    None => forall|j: int| 0 <= j < i ==> !transition_holds(*def, j, *ctx, clicks, *draws),
                },
            decreases n - i,
        {
            if Self::holds(def, i, ctx, clicks, draws) {
                match best {
                    None => {
                        best = Some(i);
                    },
                    Some(b) => {
                        if def.transitions[i].priority > def.transitions[b].priority {
                            best = Some(i);
                        }
                    },
                }
            }
            i = i + 1;
        }
        best
    }

    /// Where transition `t` (at position `k`) leads, given the drawn target.
    fn destination_of(t: &TransitionDef, k: usize, draws: &TickDraws) -> (res: Option<String>)
        ensures
            match res {
                Some(s) => destination(*t, drawn_choice(*draws, k as int)) == Some(s@),
                None => destination(*t, drawn_choice(*draws, k as int)) is None,
            },
    {
        match &t.target {
            Some(s) => Some(s.clone()),
            None => match &t.targets {
                Some(ws) => {
                    let choice = if k < draws.chosen_target.len() {
                        draws.chosen_target[k]
                    } else {
                        None
                    };
                    match choice {
                        Some(c) => if c < ws.len() {
                            Some(ws[c].state.clone())
                        } else {
                            None
                        },
                        None => None,
                    }
                },
                None => None,
            },
        }
    }

    /// Advances the machine by `dt_ms` milliseconds and takes the winning
    /// transition of the current state, if any may fire. Returns whether a
    /// transition was taken.
    pub fn tick(&mut self, dt_ms: u64, ctx: SmContext, draws: &TickDraws) -> (transitioned: bool)
        requires
            old(self).state_elapsed_ms + dt_ms <= u64::MAX,
            old(self).last_click_ms + dt_ms <= u64::MAX,
            find_state(old(self).config().states@, old(self).current_state@) matches Some(def)
                ==> priorities_orderable(def),
        ensures
            final(self).config() == old(self).config(),
            final(self).last_click_ms == old(self).last_click_ms + dt_ms,
            final(self).last_click_ms > CLICK_COMBO_WINDOW_MS ==> final(self).click_count == 0,
            ({
                let elapsed = old(self).state_elapsed_ms + dt_ms;
                let clicks = clicks_after(old(self).click_count, old(self).last_click_ms + dt_ms);
                let unchanged = {
                    &&& final(self).current_state == old(self).current_state
                    &&& final(self).state_elapsed_ms == elapsed
                    &&& final(self).click_count == clicks
                };
                match find_state(old(self).config().states@, old(self).current_state@) {
                    None => !transitioned && unchanged,
                    Some(def) => {
                        &&& transitioned <==> exists|k: int| is_taken(def, k, ctx, clicks, *draws)
                        &&& !transitioned ==> unchanged
                        &&& forall|k: int| #[trigger] is_taken(def, k, ctx, clicks, *draws) ==>
                            match destination(def.transitions@[k], drawn_choice(*draws, k)) {
                                Some(s) => {
                                    &&& final(self).current_state@ == s
                                    &&& final(self).state_elapsed_ms == 0
                                    &&& final(self).click_count == 0
                                },
                                None => unchanged,
                            }
                    },
                }
            }),
    {
        self.state_elapsed_ms = self.state_elapsed_ms + dt_ms;
        self.last_click_ms = self.last_click_ms + dt_ms;
        if self.last_click_ms > CLICK_COMBO_WINDOW_MS && self.click_count > 0 {
            self.click_count = 0;
        }
        let clicks = self.click_count;
        let ghost clicks_spec = clicks_after(old(self).click_count, old(self).last_click_ms + dt_ms);
        assert(clicks == clicks_spec);
        let def = match self.config.find_state(&self.current_state) {
            None => {
                assert(find_state(old(self).config().states@, old(self).current_state@) is None);
                return false;
            },
            Some(def) => def,
        };
        assert(find_state(old(self).config().states@, old(self).current_state@) == Some(*def));
        let dest = match Self::taken_transition(def, &ctx, clicks, draws) {
            None => {
                proof {
                    assert forall|k: int| !is_taken(*def, k, ctx, clicks, *draws) by {
                        if 0 <= k < def.transitions@.len() {
                            assert(!transition_holds(*def, k, ctx, clicks, *draws));
                        }
                    }
                }
                return false;
            },
            Some(k) => {
                proof {
                    assert forall|k2: int| is_taken(*def, k2, ctx, clicks, *draws) implies k2 == k by {
                        lemma_taken_unique(*def, k2, k as int, ctx, clicks, *draws);
                    }
                }
                Self::destination_of(&def.transitions[k], k, draws)
            },
        };
        if let Some(s) = dest {
            self.set_state(s);
        }
        true
    }
}

} // verus!
