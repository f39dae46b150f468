//! Camera orientation state: a yaw angle that wraps within a full turn and a
//! pitch angle clamped away from the poles to avoid gimbal lock.
//!
//! Angles are held in thousandths of a degree, so wrapping and clamping are
//! exact. Turning the orientation into forward/right/up basis vectors takes
//! trigonometry on floating-point values, which the callers of this type do.

use vstd::prelude::*;

verus! {

/// Thousandths of a degree in a full turn; yaw always stays below this.
pub const YAW_FULL_TURN_MDEG: u32 = 360_000;

/// Pitch is clamped to [-89, 89] degrees, in thousandths of a degree.
pub const PITCH_LIMIT_MDEG: i32 = 89_000;

/// A multiple of `YAW_FULL_TURN_MDEG` large enough to shift any
/// `yaw + delta` sum into nonnegative territory before taking the remainder.
const YAW_SHIFT_MDEG: i64 = 2_147_760_000;

/// Yaw advanced by a delta, wrapped into [0, 360000).
pub open spec fn wrap_yaw(yaw: int, d_yaw: int) -> int {
    (yaw + d_yaw) % (YAW_FULL_TURN_MDEG as int)
}

/// Pitch advanced by a delta, clamped into [-89000, 89000].
pub open spec fn clamp_pitch(pitch: int, d_pitch: int) -> int {
    let p = pitch + d_pitch;
    if p > PITCH_LIMIT_MDEG as int {
        PITCH_LIMIT_MDEG as int
    } else if p < -(PITCH_LIMIT_MDEG as int) {
        -(PITCH_LIMIT_MDEG as int)
    } else {
        p
    }
}

/// Orientation state of the fly camera, in thousandths of a degree.
pub struct Camera {
    /// Heading in [0, 360000) thousandths of a degree.
    pub yaw_mdeg: u32,
    /// Elevation in [-89000, 89000] thousandths of a degree.
    pub pitch_mdeg: i32,
}

impl Camera {
    /// Both angles lie in their documented ranges.
    pub open spec fn wf(&self) -> bool {
        &&& self.yaw_mdeg < YAW_FULL_TURN_MDEG
        &&& -(PITCH_LIMIT_MDEG as int) <= self.pitch_mdeg <= PITCH_LIMIT_MDEG as int
    }

    /// The initial orientation: looking along yaw 0 at pitch 0.
    pub fn new() -> (cam: Camera)
        ensures
            cam.yaw_mdeg == 0,
            cam.pitch_mdeg == 0,
            cam.wf(),
    {
        Camera { yaw_mdeg: 0, pitch_mdeg: 0 }
    }

    /// Turns the camera by the given deltas: yaw wraps within a full turn,
    /// pitch is clamped to [-89, 89] degrees. Holds for any deltas, whatever
    /// the starting state.
    pub fn spin(&mut self, d_yaw: i32, d_pitch: i32)
        requires
            old(self).wf(),
        ensures
            final(self).yaw_mdeg == wrap_yaw(old(self).yaw_mdeg as int, d_yaw as int),
            final(self).pitch_mdeg == clamp_pitch(old(self).pitch_mdeg as int, d_pitch as int),
            final(self).wf(),
    {
        let shifted: i64 = self.yaw_mdeg as i64 + d_yaw as i64 + YAW_SHIFT_MDEG;
        let rem: i64 = shifted % (YAW_FULL_TURN_MDEG as i64);
        proof {
            let m = YAW_FULL_TURN_MDEG as int;
            let s = self.yaw_mdeg as int + d_yaw as int;
            vstd::arithmetic::div_mod::lemma_mod_multiples_vanish(5966, s, m);
            assert(YAW_SHIFT_MDEG as int == m * 5966);
            vstd::arithmetic::div_mod::lemma_mod_bound(s + YAW_SHIFT_MDEG as int, m);
        }
        self.yaw_mdeg = rem as u32;

        let p: i64 = self.pitch_mdeg as i64 + d_pitch as i64;
        let limit: i64 = PITCH_LIMIT_MDEG as i64;
        if p > limit {
            self.pitch_mdeg = PITCH_LIMIT_MDEG;
        } else if p < -limit {
            self.pitch_mdeg = -PITCH_LIMIT_MDEG;
        } else {
            self.pitch_mdeg = p as i32;
        }
    }
}

/// The sum of a sequence of angle deltas.
pub open spec fn sum_deltas(ds: Seq<int>) -> int
    decreases ds.len(),
{
    if ds.len() == 0 {
        0
    } else {
        sum_deltas(ds.drop_last()) + ds.last()
    }
}

/// Yaw after applying a sequence of deltas one spin at a time.
pub open spec fn apply_yaw(yaw: int, ds: Seq<int>) -> int
    decreases ds.len(),
{
    if ds.len() == 0 {
        yaw
    } else {
        wrap_yaw(apply_yaw(yaw, ds.drop_last()), ds.last())
    }
}

/// Pitch after applying a sequence of deltas one spin at a time.
pub open spec fn apply_pitch(pitch: int, ds: Seq<int>) -> int
    decreases ds.len(),
{
    if ds.len() == 0 {
        pitch
    } else {
        clamp_pitch(apply_pitch(pitch, ds.drop_last()), ds.last())
    }
}

/// Spinning through a sequence of yaw deltas lands where one spin by their
/// sum would: the wraps along the way change nothing.
pub proof fn lemma_yaw_accumulates(yaw: int, ds: Seq<int>)
    requires
        0 <= yaw < YAW_FULL_TURN_MDEG as int,
    ensures
        apply_yaw(yaw, ds) == wrap_yaw(yaw, sum_deltas(ds)),
    decreases ds.len(),
{
    let m = YAW_FULL_TURN_MDEG as int;
    if ds.len() == 0 {
        vstd::arithmetic::div_mod::lemma_small_mod(yaw as nat, m as nat);
    } else {
        lemma_yaw_accumulates(yaw, ds.drop_last());
        vstd::arithmetic::div_mod::lemma_add_mod_noop(
            yaw + sum_deltas(ds.drop_last()),
            ds.last(),
            m,
        );
        vstd::arithmetic::div_mod::lemma_mod_twice(yaw + sum_deltas(ds.drop_last()), m);
        vstd::arithmetic::div_mod::lemma_add_mod_noop(
            yaw + sum_deltas(ds.drop_last()),
            ds.last() % m,
            m,
        );
        vstd::arithmetic::div_mod::lemma_mod_twice(ds.last(), m);
    }
}

/// Yaw deltas that sum to a whole number of turns leave the yaw where it
/// started, wraps at the 0/360 boundary included.
pub proof fn lemma_yaw_full_turns_return(yaw: int, ds: Seq<int>)
    requires
        0 <= yaw < YAW_FULL_TURN_MDEG as int,
        sum_deltas(ds) % (YAW_FULL_TURN_MDEG as int) == 0,
    ensures
        apply_yaw(yaw, ds) == yaw,
{
    let m = YAW_FULL_TURN_MDEG as int;
    lemma_yaw_accumulates(yaw, ds);
    vstd::arithmetic::div_mod::lemma_add_mod_noop(yaw, sum_deltas(ds), m);
    vstd::arithmetic::div_mod::lemma_small_mod(yaw as nat, m as nat);
    vstd::arithmetic::div_mod::lemma_mod_twice(yaw, m);
}

/// However many deltas are applied and however large they are, pitch ends
/// inside [-89, 89] degrees whenever it started there.
pub proof fn lemma_pitch_always_clamped(pitch: int, ds: Seq<int>)
    requires
        -(PITCH_LIMIT_MDEG as int) <= pitch <= PITCH_LIMIT_MDEG as int,
    ensures
        -(PITCH_LIMIT_MDEG as int) <= apply_pitch(pitch, ds) <= PITCH_LIMIT_MDEG as int,
    decreases ds.len(),
{
    if ds.len() > 0 {
        lemma_pitch_always_clamped(pitch, ds.drop_last());
    }
}

} // verus!
