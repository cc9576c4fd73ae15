use vstd::prelude::*;
use vstd::arithmetic::div_mod::lemma_fundamental_div_mod_converse;

verus! {

/// Plays a looping sequence of frames at a fixed frame rate.
pub struct Animator<F> {
    frames: Vec<F>,
    fps: u32,
    current_index: usize,
    elapsed_ms: u64,
    looped: bool,
}

/// Milliseconds one frame stays on screen at `fps` frames per second
/// (a rate of 0 counts as 1).
pub open spec fn frame_duration(fps: u32) -> int {
    1000int / (if fps == 0 { 1int } else { fps as int })
}

/// What one `tick` of `dt` milliseconds does to an animator clock
/// (frame index, time into the current frame, whether the animation has
/// wrapped around) over `len` frames: whole frame durations in the
/// accumulated time advance the index, the rest stays accumulated.
pub open spec fn tick_clock(len: int, duration: int, index: int, elapsed: int, looped: bool, dt: int)
    -> (int, int, bool) {
    let total = elapsed + dt;
    let steps = total / duration;
    ((index + steps) % len, total % duration, looped || index + steps >= len)
}

impl<F> Animator<F> {
    #[verifier::type_invariant]
    spec fn index_in_range(self) -> bool {
        self.frames@.len() > 0 ==> self.current_index < self.frames@.len()
    }

    /// The frames being played.
    pub closed spec fn frames(self) -> Seq<F> {
        self.frames@
    }

    /// The nominal frame rate.
    pub closed spec fn fps(self) -> u32 {
        self.fps
    }

    /// Index of the frame on screen.
    pub closed spec fn index(self) -> int {
        self.current_index as int
    }

    /// Milliseconds accumulated towards the next frame.
    pub closed spec fn elapsed(self) -> int {
        self.elapsed_ms as int
    }

    /// Whether the animation has wrapped around since it was (re)started.
    pub closed spec fn looped(self) -> bool {
        self.looped
    }

    /// A fresh animator at the first frame.
    pub fn new(frames: Vec<F>, fps: u32) -> (res: Self)
        ensures
            res.frames() == frames@,
            res.fps() == fps,
            res.index() == 0,
            res.elapsed() == 0,
            !res.looped(),
    {
        Animator { frames, fps, current_index: 0, elapsed_ms: 0, looped: false }
    }

    /// Restarts playback with new frames and frame rate.
    pub fn reset(&mut self, frames: Vec<F>, fps: u32)
        ensures
            final(self).frames() == frames@,
            final(self).fps() == fps,
            final(self).index() == 0,
            final(self).elapsed() == 0,
            !final(self).looped(),
    {
        self.current_index = 0;
        self.frames = frames;
        self.fps = fps;
        self.elapsed_ms = 0;
        self.looped = false;
    }

    /// Advances the clock by `dt_ms` milliseconds; returns whether the frame
    /// on screen changed. With no frames nothing happens.
    pub fn tick(&mut self, dt_ms: u64) -> (changed: bool)
        requires
            old(self).frames().len() > 0 ==> old(self).fps() <= 1000,
            old(self).frames().len() > 0 ==> old(self).elapsed() + dt_ms <= u64::MAX,
        ensures
            final(self).frames() == old(self).frames(),
            final(self).fps() == old(self).fps(),
            final(self).frames().len() > 0 ==> 0 <= final(self).index() < final(self).frames().len(),
            old(self).frames().len() == 0 ==> {
                &&& !changed
                &&& final(self).index() == old(self).index()
                &&& final(self).elapsed() == old(self).elapsed()
                &&& final(self).looped() == old(self).looped()
            },
            old(self).frames().len() > 0 ==> {
                let (i, e, l) = tick_clock(
                    old(self).frames().len() as int,
                    frame_duration(old(self).fps()),
                    old(self).index(),
                    old(self).elapsed(),
                    old(self).looped(),
                    dt_ms as int,
                );
                &&& final(self).index() == i
                &&& final(self).elapsed() == e
                &&& final(self).looped() == l
                &&& changed == ((old(self).elapsed() + dt_ms) / frame_duration(old(self).fps()) > 0)
            },
    {
        proof {
            use_type_invariant(&*self);
        }
        if self.frames.len() == 0 {
            return false;
        }
        let rate: u32 = if self.fps > 1 { self.fps } else { 1 };
        let frame_ms: u64 = 1000 / (rate as u64);
        let len = self.frames.len();
        let ghost d = frame_ms as int;
        let ghost total = self.elapsed_ms + dt_ms;
        let ghost i0 = self.current_index as int;
        let ghost l0 = self.looped;
        assert(d == frame_duration(self.fps));
        assert(1000int / (rate as int) >= 1) by (nonlinear_arith)
            requires 1 <= rate <= 1000;
        proof {
            lemma_step_index(i0, len as int);
        }
        let mut elapsed: u64 = self.elapsed_ms + dt_ms;
        let mut index: usize = self.current_index;
        let mut looped: bool = self.looped;
        let mut changed = false;
        let ghost mut steps: int = 0;
        while elapsed >= frame_ms
            invariant
                d == frame_ms as int,
                d > 0,
                len == self.frames@.len(),
                len > 0,
                0 <= i0 < len,
                steps >= 0,
                elapsed + steps * d == total,
                index < len,
                index == (i0 + steps) % (len as int),
                looped == (l0 || i0 + steps >= len),
                changed == (steps > 0),
            decreases elapsed,
        {
            proof {
                lemma_step_index(i0 + steps, len as int);
                assert((steps + 1) * d == steps * d + d) by (nonlinear_arith);
            }
            elapsed = elapsed - frame_ms;
            index = index + 1;
            if index >= len {
                index = 0;
                looped = true;
            }
            changed = true;
            proof {
                steps = steps + 1;
            }
        }
        proof {
            lemma_fundamental_div_mod_converse(total as int, d, steps, elapsed as int);
        }
        self.elapsed_ms = elapsed;
        self.current_index = index;
        self.looped = looped;
        changed
    }

    /// Number of frames being played.
    pub fn frame_count(&self) -> (res: usize)
        ensures
            res == self.frames().len(),
    {
        self.frames.len()
    }

    /// The nominal frame rate.
    pub fn frame_rate(&self) -> (res: u32)
        ensures
            res == self.fps(),
    {
        self.fps
    }

    /// Milliseconds accumulated towards the next frame.
    pub fn elapsed_ms(&self) -> (res: u64)
        ensures
            res == self.elapsed(),
    {
        self.elapsed_ms
    }

    /// Whether the animation has played through at least once since it was
    /// (re)started.
    pub fn is_done(&self) -> (res: bool)
        ensures
            res == self.looped(),
            self.frames().len() > 0 ==> 0 <= self.index() < self.frames().len(),
    {
        proof {
            use_type_invariant(self);
        }
        self.looped
    }
}

impl<F: Clone> Animator<F> {
    /// A copy of the frame on screen, or `None` with no frames.
    pub fn current_frame(&self) -> (res: Option<F>)
        ensures
            res is None <==> self.frames().len() == 0,
            self.frames().len() > 0 ==> 0 <= self.index() < self.frames().len(),
            res matches Some(f) ==> cloned(self.frames()[self.index()], f),
    {
        proof {
            use_type_invariant(self);
        }
        if self.frames.len() == 0 {
            None
        } else {
            Some(self.frames[self.current_index].clone())
        }
    }
}

/// A frame lasts the whole milliseconds that `fps` frames fit into a
/// second: `d` with `d * fps <= 1000 < (d + 1) * fps`; a rate of 0 plays
/// one frame per second.
pub proof fn lemma_frame_duration(fps: u32)
    ensures
        fps == 0 ==> frame_duration(fps) == 1000,
        fps >= 1 ==> frame_duration(fps) * fps <= 1000 < (frame_duration(fps) + 1) * fps,
{
    if fps >= 1 {
        let d = frame_duration(fps);
        vstd::arithmetic::div_mod::lemma_fundamental_div_mod(1000int, fps as int);
        assert(d * fps <= 1000 < (d + 1) * fps) by (nonlinear_arith)
            requires
                1000 == (fps as int) * d + 1000int % (fps as int),
                0 <= 1000int % (fps as int) < fps,
                fps >= 1;
    }
}

/// The animation clock does not depend on how time is cut into ticks: a tick
/// of `dt1` milliseconds followed by one of `dt2` leaves the frame index, the
/// time into the current frame and the wrapped-around flag exactly as a
/// single tick of `dt1 + dt2` does.
pub proof fn lemma_tick_clock_composes(
    len: int,
    fps: u32,
    index: int,
    elapsed: int,
    looped: bool,
    dt1: int,
    dt2: int,
)
    requires
        len > 0,
        fps <= 1000,
        0 <= index < len,
        elapsed >= 0,
        dt1 >= 0,
        dt2 >= 0,
    ensures
        ({
            let d = frame_duration(fps);
            let (i1, e1, l1) = tick_clock(len, d, index, elapsed, looped, dt1);
            tick_clock(len, d, i1, e1, l1, dt2) == tick_clock(len, d, index, elapsed, looped, dt1 + dt2)
        }),
{
    let d = frame_duration(fps);
    let rate: int = if fps == 0 { 1 } else { fps as int };
    assert(1000int / rate >= 1) by (nonlinear_arith)
        requires 1 <= rate <= 1000;
    let t1 = elapsed + dt1;
    let n1 = t1 / d;
    let r1 = t1 % d;
    vstd::arithmetic::div_mod::lemma_fundamental_div_mod(t1, d);
    let t2 = r1 + dt2;
    let n2 = t2 / d;
    let r2 = t2 % d;
    vstd::arithmetic::div_mod::lemma_fundamental_div_mod(t2, d);
    assert(elapsed + dt1 + dt2 == (n1 + n2) * d + r2) by (nonlinear_arith)
        requires t1 == d * n1 + r1, t2 == d * n2 + r2, t1 == elapsed + dt1, t2 == r1 + dt2;
    lemma_fundamental_div_mod_converse(elapsed + dt1 + dt2, d, n1 + n2, r2);
    assert(n1 >= 0) by (nonlinear_arith)
        requires t1 >= 0, d > 0, n1 == t1 / d;
    assert(n2 >= 0) by (nonlinear_arith)
        requires t2 >= 0, d > 0, n2 == t2 / d;
    vstd::arithmetic::div_mod::lemma_add_mod_noop_right(n2, index + n1, len);
    assert(n2 + (index + n1) % len == (index + n1) % len + n2);
    lemma_step_index(index + n1, len);
}

/// After a tick the index is a frame of the animation, the time kept is less
/// than one frame, and an animation that had wrapped around still has.
pub proof fn lemma_tick_clock_bounds(len: int, fps: u32, index: int, elapsed: int, looped: bool, dt: int)
    requires
        len > 0,
        fps <= 1000,
        elapsed >= 0,
        dt >= 0,
    ensures
        ({
            let d = frame_duration(fps);
            let (i, e, l) = tick_clock(len, d, index, elapsed, looped, dt);
            &&& 0 <= i < len
            &&& 0 <= e < d
            &&& looped ==> l
        }),
{
    let d = frame_duration(fps);
    let rate: int = if fps == 0 { 1 } else { fps as int };
    assert(1000int / rate >= 1) by (nonlinear_arith)
        requires 1 <= rate <= 1000;
    vstd::arithmetic::div_mod::lemma_fundamental_div_mod(elapsed + dt, d);
    vstd::arithmetic::div_mod::lemma_fundamental_div_mod(index + (elapsed + dt) / d, len);
}

/// One more frame from index `a % len` lands on index `(a + 1) % len`, and
/// wraps to 0 exactly when it reaches `len`.
proof fn lemma_step_index(a: int, len: int)
    requires
        a >= 0,
        len > 0,
    ensures
        (a % len) + 1 < len ==> (a + 1) % len == (a % len) + 1,
        (a % len) + 1 >= len ==> (a + 1) % len == 0,
        (a % len) + 1 <= len,
        a < len ==> a % len == a,
{
    let q = a / len;
    let r = a % len;
    assert(a == q * len + r && 0 <= r < len) by {
        vstd::arithmetic::div_mod::lemma_fundamental_div_mod(a, len);
    }
    if r + 1 < len {
        lemma_fundamental_div_mod_converse(a + 1, len, q, r + 1);
    } else {
        assert(a + 1 == (q + 1) * len + 0) by (nonlinear_arith)
            requires a == q * len + r, r + 1 == len;
        lemma_fundamental_div_mod_converse(a + 1, len, q + 1, 0);
    }
    if a < len {
        lemma_fundamental_div_mod_converse(a, len, 0, a);
    }
}

} // verus!
