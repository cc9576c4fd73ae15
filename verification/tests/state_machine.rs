use std::sync::Arc;

use desktop_neko::package::behavior::{
    BehaviorConfig, BehaviorSettings, ConditionDef, FloatBits, StateDef, TransitionDef, WeightedTarget,
};
use desktop_neko::pet::state_machine::{SmContext, StateMachine, TickDraws};

fn state(name: &str, transitions: Vec<TransitionDef>) -> StateDef {
    StateDef { name: name.to_string(), animation: name.to_string(), movement: None, transitions }
}

fn to(condition: ConditionDef, target: &str, priority: i32) -> TransitionDef {
    TransitionDef { condition, target: Some(target.to_string()), targets: None, priority }
}

fn machine(initial: &str, states: Vec<StateDef>) -> StateMachine {
    StateMachine::new(Arc::new(BehaviorConfig {
        behavior: BehaviorSettings { initial_state: initial.to_string(), tick_rate_ms: 100 },
        states,
    }))
}

fn quiet() -> SmContext {
    SmContext {
        is_cursor_following: false,
        at_left_edge: false,
        at_right_edge: false,
        animation_done: false,
        is_falling: false,
    }
}

fn no_draws() -> TickDraws {
    TickDraws { condition_met: vec![], chosen_target: vec![] }
}

fn secs(s: f32) -> FloatBits {
    FloatBits { bits: s.to_bits() }
}

#[test]
fn machine_starts_in_initial_state() {
    let sm = machine("idle", vec![state("idle", vec![])]);
    assert_eq!(sm.current_state, "idle");
    assert_eq!(sm.state_elapsed_ms, 0);
    assert_eq!(sm.click_count, 0);
    assert_eq!(sm.last_click_ms, 0);
    assert_eq!(sm.current_state_def().map(|s| s.name.clone()), Some("idle".to_string()));
}

#[test]
fn machine_clock_runs_without_transitions() {
    let mut sm = machine("idle", vec![state("idle", vec![to(ConditionDef::Falling, "fall", 0)])]);
    assert!(!sm.tick(40, quiet(), &no_draws()));
    assert!(!sm.tick(60, quiet(), &no_draws()));
    assert_eq!(sm.current_state, "idle");
    assert_eq!(sm.state_elapsed_ms, 100);
    assert_eq!(sm.last_click_ms, 100);
}

#[test]
fn machine_takes_matching_transition_and_resets_clock() {
    let mut sm = machine("idle", vec![state("idle", vec![to(ConditionDef::Falling, "fall", 0)]), state("fall", vec![])]);
    sm.tick(70, quiet(), &no_draws());
    let mut ctx = quiet();
    ctx.is_falling = true;
    assert!(sm.tick(30, ctx, &no_draws()));
    assert_eq!(sm.current_state, "fall");
    assert_eq!(sm.state_elapsed_ms, 0);
    assert_eq!(sm.click_count, 0);
}

#[test]
fn machine_prefers_highest_priority() {
    let mut sm = machine(
        "idle",
        vec![state(
            "idle",
            vec![
                to(ConditionDef::Falling, "low", 1),
                to(ConditionDef::AnimationDone, "high", 5),
                to(ConditionDef::CursorFollowing, "never", 9),
            ],
        )],
    );
    let mut ctx = quiet();
    ctx.is_falling = true;
    ctx.animation_done = true;
    assert!(sm.tick(10, ctx, &no_draws()));
    assert_eq!(sm.current_state, "high");
}

#[test]
fn machine_breaks_priority_ties_by_order() {
    let mut sm = machine(
        "idle",
        vec![state(
            "idle",
            vec![to(ConditionDef::Falling, "first", 2), to(ConditionDef::AnimationDone, "second", 2)],
        )],
    );
    let mut ctx = quiet();
    ctx.is_falling = true;
    ctx.animation_done = true;
    assert!(sm.tick(10, ctx, &no_draws()));
    assert_eq!(sm.current_state, "first");
}

#[test]
fn machine_negative_priority_loses() {
    let mut sm = machine(
        "idle",
        vec![state(
            "idle",
            vec![to(ConditionDef::Falling, "neg", -3), to(ConditionDef::AnimationDone, "zero", 0)],
        )],
    );
    let mut ctx = quiet();
    ctx.is_falling = true;
    ctx.animation_done = true;
    assert!(sm.tick(10, ctx, &no_draws()));
    assert_eq!(sm.current_state, "zero");
}

#[test]
fn machine_uses_drawn_outcomes() {
    let timer = ConditionDef::Timer { min_seconds: secs(5.0), max_seconds: secs(10.0) };
    let near = ConditionDef::CursorNear { distance: secs(50.0) };
    let mut sm = machine("idle", vec![state("idle", vec![to(near, "greet", 1), to(timer, "walk", 0)])]);
    let draws = TickDraws { condition_met: vec![false, true], chosen_target: vec![] };
    assert!(sm.tick(10, quiet(), &draws));
    assert_eq!(sm.current_state, "walk");
}

#[test]
fn machine_missing_draws_count_as_not_met() {
    let mut sm = machine("idle", vec![state("idle", vec![to(ConditionDef::Random { probability: secs(1.0) }, "x", 0)])]);
    assert!(!sm.tick(10, quiet(), &no_draws()));
    assert_eq!(sm.current_state, "idle");
}

#[test]
fn machine_weighted_targets_follow_draw() {
    let weighted = TransitionDef {
        condition: ConditionDef::AnimationDone,
        target: None,
        targets: Some(vec![
            WeightedTarget { state: "walk_left".to_string(), weight: secs(1.0) },
            WeightedTarget { state: "walk_right".to_string(), weight: secs(1.0) },
        ]),
        priority: 0,
    };
    let mut ctx = quiet();
    ctx.animation_done = true;

    let mut sm = machine("idle", vec![state("idle", vec![weighted.clone()])]);
    let draws = TickDraws { condition_met: vec![], chosen_target: vec![Some(1)] };
    assert!(sm.tick(10, ctx, &draws));
    assert_eq!(sm.current_state, "walk_right");

    // no target drawn: the transition fires but the state stays
    let mut sm = machine("idle", vec![state("idle", vec![weighted.clone()])]);
    let draws = TickDraws { condition_met: vec![], chosen_target: vec![None] };
    assert!(sm.tick(10, ctx, &draws));
    assert_eq!(sm.current_state, "idle");
    assert_eq!(sm.state_elapsed_ms, 10);

    // a drawn index past the list changes nothing either
    let mut sm = machine("idle", vec![state("idle", vec![weighted])]);
    let draws = TickDraws { condition_met: vec![], chosen_target: vec![Some(7)] };
    assert!(sm.tick(10, ctx, &draws));
    assert_eq!(sm.current_state, "idle");
}

#[test]
fn machine_single_target_wins_over_weighted() {
    let t = TransitionDef {
        condition: ConditionDef::Falling,
        target: Some("fall".to_string()),
        targets: Some(vec![WeightedTarget { state: "other".to_string(), weight: secs(1.0) }]),
        priority: 0,
    };
    let mut sm = machine("idle", vec![state("idle", vec![t])]);
    let mut ctx = quiet();
    ctx.is_falling = true;
    let draws = TickDraws { condition_met: vec![], chosen_target: vec![Some(0)] };
    assert!(sm.tick(10, ctx, &draws));
    assert_eq!(sm.current_state, "fall");
}

#[test]
fn machine_transition_without_target_keeps_state() {
    let t = TransitionDef { condition: ConditionDef::Falling, target: None, targets: None, priority: 0 };
    let mut sm = machine("idle", vec![state("idle", vec![t])]);
    let mut ctx = quiet();
    ctx.is_falling = true;
    assert!(sm.tick(25, ctx, &no_draws()));
    assert_eq!(sm.current_state, "idle");
    assert_eq!(sm.state_elapsed_ms, 25);
}

#[test]
fn machine_click_combo() {
    let click3 = ConditionDef::OnClick { button: "left".to_string(), count: 3 };
    let mut sm = machine("idle", vec![state("idle", vec![to(click3, "angry", 0)])]);
    sm.on_click("left");
    sm.on_click("right");
    sm.on_click("left");
    assert_eq!(sm.click_count, 2);
    assert!(!sm.tick(100, quiet(), &no_draws()));
    sm.on_click("left");
    assert_eq!(sm.last_click_ms, 0);
    assert!(sm.tick(100, quiet(), &no_draws()));
    assert_eq!(sm.current_state, "angry");
    assert_eq!(sm.click_count, 0);
}

#[test]
fn machine_click_combo_expires() {
    let mut sm = machine(
        "idle",
        vec![state("idle", vec![to(ConditionDef::OnClick { button: "left".to_string(), count: 2 }, "angry", 0)])],
    );
    sm.on_click("left");
    sm.on_click("left");
    // 400 ms is still inside the window
    let mut probe = machine("idle", vec![state("idle", vec![])]);
    probe.on_click("left");
    probe.tick(400, quiet(), &no_draws());
    assert_eq!(probe.click_count, 1);
    // past it the combo ends before conditions are looked at
    assert!(!sm.tick(401, quiet(), &no_draws()));
    assert_eq!(sm.click_count, 0);
    assert_eq!(sm.current_state, "idle");
}

#[test]
fn machine_edges() {
    let left = ConditionDef::AtEdge { edge: "left".to_string() };
    let right = ConditionDef::AtEdge { edge: "right".to_string() };
    let top = ConditionDef::AtEdge { edge: "top".to_string() };
    let mut sm = machine(
        "walk",
        vec![state("walk", vec![to(top, "up", 3), to(left, "turn_right", 1), to(right, "turn_left", 1)])],
    );
    let mut ctx = quiet();
    ctx.at_right_edge = true;
    assert!(sm.tick(10, ctx, &no_draws()));
    assert_eq!(sm.current_state, "turn_left");
}

#[test]
fn machine_unknown_state_never_transitions() {
    let mut sm = machine("nowhere", vec![state("idle", vec![to(ConditionDef::Falling, "fall", 0)])]);
    let mut ctx = quiet();
    ctx.is_falling = true;
    assert!(!sm.tick(10, ctx, &no_draws()));
    assert_eq!(sm.current_state, "nowhere");
    assert_eq!(sm.state_elapsed_ms, 10);
    assert!(sm.current_state_def().is_none());
}

#[test]
fn machine_uses_first_state_of_a_name() {
    let mut sm = machine(
        "idle",
        vec![
            state("idle", vec![to(ConditionDef::Falling, "first", 0)]),
            state("idle", vec![to(ConditionDef::Falling, "second", 0)]),
        ],
    );
    let mut ctx = quiet();
    ctx.is_falling = true;
    assert!(sm.tick(10, ctx, &no_draws()));
    assert_eq!(sm.current_state, "first");
}

#[test]
fn machine_cursor_following_and_animation_done() {
    let mut sm = machine(
        "idle",
        vec![state("idle", vec![to(ConditionDef::CursorFollowing, "chase", 0)]), state("chase", vec![to(ConditionDef::AnimationDone, "idle", 0)])],
    );
    let mut ctx = quiet();
    ctx.is_cursor_following = true;
    assert!(sm.tick(10, ctx, &no_draws()));
    assert_eq!(sm.current_state, "chase");
    assert!(!sm.tick(10, ctx, &no_draws()));
    ctx.animation_done = true;
    assert!(sm.tick(10, ctx, &no_draws()));
    assert_eq!(sm.current_state, "idle");
}
