//! The trait that every electronic-warfare effect implements.

use vstd::prelude::*;

use crate::model::id::EntityId;
use crate::model::world::World;

verus! {

/// An electronic-warfare effect. Effects act on the simulated world only:
/// no real transmission is involved. Users of the library add effects of
/// their own by implementing this trait: `active_at` and `transforms` say
/// what `is_active` and `apply` do, and the effects of this crate define
/// them and prove their methods against them.
pub trait EwEffect<R> {
    /// Whether the effect is active at `tick`.
    spec fn active_at(&self, tick: u64) -> bool;

    /// Whether applying the effect at `tick` takes the world `before` to
    /// the world `after`.
    spec fn transforms(&self, before: World<R>, after: World<R>, tick: u64) -> bool;

    /// The name under which the effect is shown.
    spec fn display_name(&self) -> &str;

    /// Applies the effect to the world at `tick`.
    fn apply(&self, world: &mut World<R>, tick: u64)
        ensures
            self.transforms(*old(world), *final(world), tick),
    ;

    /// The entity that deployed the effect.
    fn source(&self) -> EntityId;

    /// Whether the effect is still active at `tick`.
    fn is_active(&self, tick: u64) -> (b: bool)
        ensures
            b == self.active_at(tick),
    ;

    /// A human-readable name for debugging.
    fn name(&self) -> (n: &str)
        ensures
            n@ == self.display_name()@,
    ;
}

/// A boxed effect of any kind is an effect: it does what the effect in the
/// box does.
impl<R> EwEffect<R> for Box<dyn EwEffect<R>> {
    open spec fn active_at(&self, tick: u64) -> bool {
        (**self).active_at(tick)
    }

    open spec fn transforms(&self, before: World<R>, after: World<R>, tick: u64) -> bool {
        (**self).transforms(before, after, tick)
    }

    open spec fn display_name(&self) -> &str {
        (**self).display_name()
    }

    fn apply(&self, world: &mut World<R>, tick: u64) {
        (**self).apply(world, tick)
    }

    fn source(&self) -> EntityId {
        (**self).source()
    }

    fn is_active(&self, tick: u64) -> (b: bool) {
        (**self).is_active(tick)
    }

    fn name(&self) -> &str {
        (**self).name()
    }
}

/// Whether `tick` falls in the window of `duration` ticks that opens at
/// `start`.
pub open spec fn in_window(start: u64, duration: u64, tick: u64) -> bool {
    start <= tick && tick < start + duration
}

/// Whether `tick` falls in the window of `duration` ticks that opens at
/// `start`.
pub fn within_window(start: u64, duration: u64, tick: u64) -> (b: bool)
    ensures
        b == in_window(start, duration, tick),
{
    tick >= start && tick - start < duration
}

} // verus!

verus! {

/// An effect deployed at `start` for `duration > 0` ticks is active from
/// its first tick, through its last tick `start + duration - 1`, and no
/// longer at `start + duration`, nor before `start`.
pub proof fn lemma_window_bounds(start: u64, duration: u64, tick: u64)
    requires
        duration > 0,
    ensures
        in_window(start, duration, start),
        start + duration <= u64::MAX ==> !in_window(start, duration, (start + duration) as u64),
        start + duration - 1 <= u64::MAX ==> in_window(start, duration, (start + duration - 1) as u64),
        tick < start ==> !in_window(start, duration, tick),
{
}

/// An effect is active at every tick of its window and at no other tick:
/// from its start, through every tick before `start + duration`; and the
/// ticks at which it is active form one unbroken stretch.
pub proof fn lemma_active_throughout_window(start: u64, duration: u64)
    ensures
        forall|t: u64| start <= t && t - start < duration ==> #[trigger] in_window(start, duration, t),
        forall|t: u64| #[trigger] in_window(start, duration, t) ==> start <= t && t - start < duration,
        forall|t1: u64, t2: u64, t3: u64|
            #![trigger in_window(start, duration, t1), in_window(start, duration, t2), in_window(start, duration, t3)]
            in_window(start, duration, t1) && in_window(start, duration, t3) && t1 <= t2 <= t3
                ==> in_window(start, duration, t2),
{
}

} // verus!
