use desktop_neko::pet::animation::Animator;

#[test]
fn animator_new_starts_at_first_frame() {
    let a = Animator::new(vec![10u8, 20, 30], 10);
    assert_eq!(a.current_frame(), Some(10));
    assert!(!a.is_done());
}

#[test]
fn animator_tick_advances_by_whole_frames() {
    // 10 fps: one frame every 100 ms.
    let mut a = Animator::new(vec![10u8, 20, 30], 10);
    assert!(a.tick(250));
    assert_eq!(a.current_frame(), Some(30));
    assert!(!a.is_done());
    // 50 ms kept + 60 ms = one more frame: wraps to the first.
    assert!(a.tick(60));
    assert_eq!(a.current_frame(), Some(10));
    assert!(a.is_done());
}

#[test]
fn animator_short_tick_keeps_frame() {
    let mut a = Animator::new(vec![1u8, 2], 10);
    assert!(!a.tick(99));
    assert_eq!(a.current_frame(), Some(1));
    assert!(a.tick(1));
    assert_eq!(a.current_frame(), Some(2));
}

#[test]
fn animator_without_frames_does_nothing() {
    let mut a: Animator<u8> = Animator::new(vec![], 10);
    assert!(!a.tick(5000));
    assert_eq!(a.current_frame(), None);
    assert!(!a.is_done());
}

#[test]
fn animator_zero_fps_counts_as_one() {
    let mut a = Animator::new(vec![1u8, 2, 3], 0);
    assert!(!a.tick(999));
    assert!(a.tick(1));
    assert_eq!(a.current_frame(), Some(2));
}

#[test]
fn animator_fps_above_frame_count_wraps_many_times() {
    // 1000 fps: one frame per millisecond, 7 ms over 3 frames ends on frame 1.
    let mut a = Animator::new(vec![0u8, 1, 2], 1000);
    assert!(a.tick(7));
    assert_eq!(a.current_frame(), Some(1));
    assert!(a.is_done());
}

#[test]
fn animator_ticks_compose() {
    let mut split = Animator::new(vec![1u8, 2, 3, 4, 5], 12);
    let mut whole = Animator::new(vec![1u8, 2, 3, 4, 5], 12);
    split.tick(130);
    split.tick(170);
    split.tick(45);
    whole.tick(345);
    assert_eq!(split.current_frame(), whole.current_frame());
    assert_eq!(split.is_done(), whole.is_done());
    // and they stay in step
    split.tick(83);
    whole.tick(83);
    assert_eq!(split.current_frame(), whole.current_frame());
}

#[test]
fn animator_done_stays_done_until_reset() {
    let mut a = Animator::new(vec![1u8, 2], 100);
    a.tick(20);
    assert!(a.is_done());
    a.tick(5);
    assert!(a.is_done());
    a.reset(vec![7u8, 8, 9], 100);
    assert!(!a.is_done());
    assert_eq!(a.current_frame(), Some(7));
}
