//! Sprite-frame timing.
use vstd::prelude::*;
use crate::components::Animation;

verus! {

/// The frame that follows `current` in a cycle of `max` frames.
pub open spec fn next_frame(current: u32, max: u32) -> u32 {
    if current + 1 >= max { 0 } else { (current + 1) as u32 }
}

/// The frame reached from `current` after `n` steps.
pub open spec fn frame_after(current: u32, max: u32, n: nat) -> u32
    decreases n,
{
    if n == 0 { current } else { next_frame(frame_after(current, max, (n - 1) as nat), max) }
}

/// Advances an animation by one frame, wrapping to the first frame after
/// the last.
pub fn advance(anim: &mut Animation)
    requires
        old(anim).wf(),
    ensures
        final(anim).current_frame == next_frame(old(anim).current_frame, old(anim).max),
        final(anim).max == old(anim).max,
        final(anim).images == old(anim).images,
        final(anim).wf(),
{
    anim.current_frame = anim.current_frame + 1;
    if anim.current_frame >= anim.max {
        anim.current_frame = 0;
    }
}

/// Within a cycle the frame index counts the steps taken from the first
/// frame, and it is always below the frame count.
proof fn lemma_counts_steps(max: u32, k: nat)
    requires
        0 < k < max,
    ensures
        frame_after(0, max, k) == k,
    decreases k,
{
    if k > 1 {
        lemma_counts_steps(max, (k - 1) as nat);
    } else {
        assert(frame_after(0, max, 0) == 0);
    }
    assert(frame_after(0, max, k) == next_frame(frame_after(0, max, (k - 1) as nat), max));
}

/// The frame index stays below the frame count, and `max` steps from the
/// first frame lead back to it.
pub proof fn lemma_animation_cycles(max: u32, current: u32, n: nat)
    requires
        current < max,
    ensures
        frame_after(current, max, n) < max,
        frame_after(0, max, max as nat) == 0,
    decreases n,
{
    if n > 0 {
        lemma_animation_cycles(max, current, (n - 1) as nat);
    }
    if max > 1 {
        lemma_counts_steps(max, (max - 1) as nat);
    }
    assert(frame_after(0, max, max as nat) == next_frame(frame_after(0, max, (max - 1) as nat), max));
}

} // verus!
