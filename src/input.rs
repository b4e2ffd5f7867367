use vstd::prelude::*;

verus! {

/// The longest gap, in milliseconds, between two presses of a key that still
/// counts as holding it.
pub const DEBOUNCE_MS: u64 = 350;

/// A movement intent derived from press events: whether it is held, and when
/// it was last pressed (milliseconds on the session clock).
#[derive(Debug, Clone, Copy, PartialEq, Eq, Structural)]
pub struct HeldKey {
    pub pressed: bool,
    pub last_seen_ms: u64,
}

/// Time from `since` to `now`; none when the clock reads earlier.
pub open spec fn elapsed(since: u64, now: u64) -> int {
    if now >= since {
        now - since
    } else {
        0
    }
}

/// Whether a key is still held at `now`, given the debounce `window`.
pub open spec fn still_held(k: HeldKey, now: u64, window: u64) -> bool {
    k.pressed && elapsed(k.last_seen_ms, now) <= window
}

/// `v` limited to `[lo, hi]`.
pub open spec fn clamp(v: int, lo: int, hi: int) -> int {
    if v < lo {
        lo
    } else if v > hi {
        hi
    } else {
        v
    }
}

/// Distance covered at `speed` thousandths of a unit per second in `dt_ms`
/// milliseconds, rounded toward zero.
pub open spec fn travel(speed: u32, dt_ms: u32) -> int {
    (speed as int * dt_ms as int) / 1000
}

/// The vertical location after one tick: up lowers `y`, down raises it, and
/// the result stays within `[0, height]`.
pub open spec fn stepped_y(y: i32, up: bool, down: bool, speed: u32, dt_ms: u32, height: i32) -> int {
    let d = travel(speed, dt_ms);
    let moved = y as int - (if up {
        d
    } else {
        0
    }) + (if down {
        d
    } else {
        0
    });
    clamp(moved, 0, height as int)
}

impl HeldKey {
    pub open spec fn released_spec(now_ms: u64) -> HeldKey {
        HeldKey { pressed: false, last_seen_ms: now_ms }
    }

    /// A key that is not held.
    pub fn released(now_ms: u64) -> (r: HeldKey)
        ensures
            r == HeldKey::released_spec(now_ms),
    {
        HeldKey { pressed: false, last_seen_ms: now_ms }
    }

    /// Records a press at `now_ms`.
    pub fn press(&mut self, now_ms: u64)
        ensures
            *final(self) == (HeldKey { pressed: true, last_seen_ms: now_ms }),
    {
        self.pressed = true;
        self.last_seen_ms = now_ms;
    }

    /// Clears the intent once more than `window` milliseconds have passed
    /// since the last press.
    pub fn refresh(&mut self, now_ms: u64, window: u64)
        ensures
            final(self).pressed == still_held(*old(self), now_ms, window),
            final(self).last_seen_ms == old(self).last_seen_ms,
    {
        if self.pressed && now_ms >= self.last_seen_ms && now_ms - self.last_seen_ms > window {
            self.pressed = false;
        }
    }
}

/// A held intent clears exactly when the time since its last press exceeds
/// the debounce window, and not before.
pub proof fn lemma_intent_clears_after_window(k: HeldKey, now: u64, window: u64)
    requires
        k.pressed,
    ensures
        !still_held(k, now, window) <==> elapsed(k.last_seen_ms, now) > window,
{
}

/// Moves the vertical location for one tick of `dt_ms` milliseconds.
pub fn step_y(y: i32, up: bool, down: bool, speed: u32, dt_ms: u32, height: i32) -> (r: i32)
    requires
        height >= 0,
    ensures
        r == stepped_y(y, up, down, speed, dt_ms, height),
{
    proof {
        assert(speed as int * dt_ms as int <= 0xffff_ffff * 0xffff_ffff) by (nonlinear_arith)
            requires
                speed <= 0xffff_ffff,
                dt_ms <= 0xffff_ffff,
        ;
        assert(speed as int * dt_ms as int >= 0) by (nonlinear_arith);
    }
    let d: i64 = ((speed as u64 * dt_ms as u64) / 1000) as i64;
    let mut moved: i64 = y as i64;
    if up {
        moved = moved - d;
    }
    if down {
        moved = moved + d;
    }
    if moved < 0 {
        0
    } else if moved > height as i64 {
        height
    } else {
        moved as i32
    }
}

} // verus!
