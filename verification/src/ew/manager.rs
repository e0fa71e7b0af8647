//! Keeps the deployed effects and applies the active ones each tick.

use vstd::prelude::*;

use std::marker::PhantomData;

use crate::ew::effect::EwEffect;
use crate::model::world::World;

verus! {

/// Whether the effect `e`, applied at `tick` if it is active then and
/// passed over if not, takes `before` to `after`.
pub open spec fn steps<R, E: EwEffect<R>>(e: E, before: World<R>, after: World<R>, tick: u64) -> bool {
    if e.active_at(tick) {
        e.transforms(before, after, tick)
    } else {
        after == before
    }
}

/// Whether the worlds `ws` are the successive states of the world as the
/// effects `s` are applied at `tick`, each only if active then.
pub open spec fn passes_through<R, E: EwEffect<R>>(s: Seq<E>, ws: Seq<World<R>>, tick: u64) -> bool {
    &&& ws.len() == s.len() + 1
    &&& forall|k: int| 0 <= k < s.len() ==> #[trigger] steps(s[k], ws[k], ws[k + 1], tick)
}

/// Whether applying the effects `s` one after the other at `tick`, each
/// only if it is active then, takes `before` to `after`: there are worlds
/// from `before` to `after`, one more than there are effects, each of which
/// the next effect takes to the following one.
pub open spec fn applies_in_order<R, E: EwEffect<R>>(
    s: Seq<E>,
    before: World<R>,
    after: World<R>,
    tick: u64,
) -> bool {
    exists|ws: Seq<World<R>>|
        #[trigger] passes_through(s, ws, tick) && ws[0] == before && ws.last() == after
}

/// Whether the effect `e` is still of use at `tick`: active then, or at
/// the tick after.
pub open spec fn live_at<R, E: EwEffect<R>>(e: E, tick: u64) -> bool {
    e.active_at(tick) || e.active_at((tick + 1) as u64)
}

/// Manages all deployed EW effects and applies them each tick, before the
/// ground truth is computed, so that they shape what the sensors observe.
/// By default it holds boxed effects of any kind.
pub struct EwManager<R, E = Box<dyn EwEffect<R>>> {
    effects: Vec<E>,
    world: PhantomData<R>,
}

impl<R> EwManager<R> {
    /// A manager of boxed effects of any kind, holding none yet.
    pub fn new() -> (m: Self)
        ensures
            m.effects() == Seq::<Box<dyn EwEffect<R>>>::empty(),
    {
        EwManager { effects: Vec::new(), world: PhantomData }
    }
}

impl<R, E> EwManager<R, E> {
    /// The managed effects, in the order they were added.
    pub closed spec fn effects(&self) -> Seq<E> {
        self.effects@
    }

    /// A manager of effects of type `E`, holding none yet.
    pub fn empty() -> (m: Self)
        ensures
            m.effects() == Seq::<E>::empty(),
    {
        EwManager { effects: Vec::new(), world: PhantomData }
    }

    /// Adds an effect to be managed, after the others.
    pub fn add_effect(&mut self, effect: E)
        ensures
            final(self).effects() == old(self).effects().push(effect),
    {
        self.effects.push(effect);
    }

    /// How many effects are managed, active or not.
    pub fn total_count(&self) -> (n: usize)
        ensures
            n == self.effects().len(),
    {
        self.effects.len()
    }

    /// Drops every effect.
    pub fn clear(&mut self)
        ensures
            final(self).effects() == Seq::<E>::empty(),
    {
        self.effects = Vec::new();
    }
}

impl<R, E: EwEffect<R>> EwManager<R, E> {
    /// Applies, in order, every effect that reports itself active at `tick`,
    /// passing over the others: the world goes through each active effect's
    /// transformation in turn.
    pub fn apply_effects(&self, world: &mut World<R>, tick: u64)
        ensures
            applies_in_order(self.effects(), *old(world), *final(world), tick),
    {
        let ghost start = *world;
        let ghost mut ws: Seq<World<R>> = seq![start];
        let mut i: usize = 0;
        while i < self.effects.len()
            invariant
                i <= self.effects@.len(),
                start == *old(world),
                ws.len() == i + 1,
                ws[0] == start,
                ws[i as int] == *world,
                forall|k: int|
                    0 <= k < i ==> #[trigger] steps(self.effects@[k], ws[k], ws[k + 1], tick),
            decreases self.effects@.len() - i,
        {
            let ghost mid = *world;
            let effect = &self.effects[i];
            if effect.is_active(tick) {
                effect.apply(world, tick);
            }
            proof {
                let next = ws.push(*world);
                assert(steps(self.effects@[i as int], mid, *world, tick));
                assert forall|k: int| 0 <= k < i + 1 implies #[trigger] steps(
                    self.effects@[k],
                    next[k],
                    next[k + 1],
                    tick,
                ) by {
                    if k < i {
                        assert(next[k] == ws[k]);
                        assert(next[k + 1] == ws[k + 1]);
                    }
                }
                ws = next;
            }
            i = i + 1;
        }
        proof {
            assert(passes_through(self.effects@, ws, tick));
        }
    }

    /// Drops the effects that report themselves active neither at `tick`
    /// nor at the tick after, keeping the others in order.
    pub fn cleanup(&mut self, tick: u64)
        requires
            tick < u64::MAX,
        ensures
            final(self).effects() == old(self).effects().filter(|e: E| live_at(e, tick)),
    {
        let mut pending: Vec<E> = Vec::new();
        std::mem::swap(&mut pending, &mut self.effects);
        let ghost orig = pending@;
        let mut kept: Vec<E> = Vec::new();
        proof {
            assert(orig.skip(0) =~= orig);
            assert(orig.take(0) =~= Seq::<E>::empty());
        }
        while pending.len() > 0
            invariant
                pending@.len() <= orig.len(),
                pending@ == orig.skip(orig.len() - pending@.len()),
                kept@ == orig.take(orig.len() - pending@.len()).filter(|e: E| live_at(e, tick)),
                tick < u64::MAX,
            decreases pending@.len(),
        {
            let ghost k = orig.len() - pending@.len();
            let effect = pending.remove(0);
            proof {
                assert(effect == orig[k]);
                assert(pending@ =~= orig.skip(k + 1));
                assert(orig.take(k + 1).drop_last() =~= orig.take(k));
                assert(orig.take(k + 1).last() == orig[k]);
                reveal_with_fuel(Seq::<_>::filter, 1);
            }
            let now_active = effect.is_active(tick);
            let next_active = effect.is_active(tick + 1);
            if now_active || next_active {
                kept.push(effect);
            }
        }
        proof {
            assert(orig.take(orig.len() as int) =~= orig);
        }
        self.effects = kept;
    }

    /// How many managed effects report themselves active at `tick`.
    pub fn active_count(&self, tick: u64) -> (n: usize)
        ensures
            n == self.effects().filter(|e: E| e.active_at(tick)).len(),
    {
        let mut n: usize = 0;
        let mut i: usize = 0;
        while i < self.effects.len()
            invariant
                i <= self.effects@.len(),
                n == self.effects@.take(i as int).filter(|e: E| e.active_at(tick)).len(),
                n <= i,
            decreases self.effects@.len() - i,
        {
            proof {
                assert(self.effects@.take(i as int + 1).drop_last() =~= self.effects@.take(
                    i as int,
                ));
                assert(self.effects@.take(i as int + 1).last() == self.effects@[i as int]);
                reveal_with_fuel(Seq::<_>::filter, 1);
            }
            if self.effects[i].is_active(tick) {
                n = n + 1;
            }
            i = i + 1;
        }
        proof {
            assert(self.effects@.take(self.effects@.len() as int) =~= self.effects@);
        }
        n
    }

    /// The names that the managed effects give, one per effect, in order.
    pub fn effect_names(&self) -> (names: Vec<&str>)
        ensures
            names@.len() == self.effects().len(),
            forall|i: int|
                0 <= i < names@.len() ==> (#[trigger] names@[i])@ == self.effects()[i].display_name()@,
    {
        let mut names: Vec<&str> = Vec::new();
        let mut i: usize = 0;
        while i < self.effects.len()
            invariant
                i <= self.effects@.len(),
                names@.len() == i,
                forall|k: int|
                    0 <= k < i ==> (#[trigger] names@[k])@ == self.effects@[k].display_name()@,
            decreases self.effects@.len() - i,
        {
            names.push(self.effects[i].name());
            i = i + 1;
        }
        names
    }
}

impl<R> Default for EwManager<R> {
    fn default() -> (m: Self)
        ensures
            m.effects() == Seq::<Box<dyn EwEffect<R>>>::empty(),
    {
        EwManager::new()
    }
}

/// Cleaning up never adds an effect, and keeps every effect that is active
/// at the tick or at the tick after.
pub proof fn lemma_cleanup_never_grows<R, E: EwEffect<R>>(s: Seq<E>, tick: u64)
    ensures
        s.filter(|e: E| live_at(e, tick)).len() <= s.len(),
        forall|i: int|
            0 <= i < s.len() && live_at(s[i], tick) ==> s.filter(|e: E| live_at(e, tick)).contains(
                #[trigger] s[i],
            ),
    decreases s.len(),
{
    reveal_with_fuel(Seq::<_>::filter, 1);
    if s.len() > 0 {
        lemma_cleanup_never_grows(s.drop_last(), tick);
        let rest = s.drop_last().filter(|e: E| live_at(e, tick));
        assert forall|i: int|
            0 <= i < s.len() && live_at(s[i], tick) implies s.filter(|e: E| live_at(e, tick)).contains(
            #[trigger] s[i],
        ) by {
            if i < s.len() - 1 {
                assert(s.drop_last()[i] == s[i]);
                let j = choose|j: int| 0 <= j < rest.len() && rest[j] == s[i];
                assert(s.filter(|e: E| live_at(e, tick))[j] == s[i]);
            } else {
                let f = s.filter(|e: E| live_at(e, tick));
                assert(f[f.len() - 1] == s[i]);
            }
        }
    }
}

/// An effect that the manager holds alone is applied exactly when it is
/// active: applying the manager's effects then transforms the world as that
/// effect does, and otherwise leaves the world as it is.
pub proof fn lemma_single_effect_applied<R, E: EwEffect<R>>(
    e: E,
    before: World<R>,
    after: World<R>,
    tick: u64,
)
    requires
        applies_in_order(seq![e], before, after, tick),
    ensures
        e.active_at(tick) ==> e.transforms(before, after, tick),
        !e.active_at(tick) ==> after == before,
{
    let ws = choose|ws: Seq<World<R>>|
        #[trigger] passes_through(seq![e], ws, tick) && ws[0] == before && ws.last() == after;
    assert(steps(seq![e][0], ws[0], ws[1], tick));
}

} // verus!
