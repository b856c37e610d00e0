//! Overlay lifecycle and the per-tick fade driver.
//!
//! One overlay exists per renderable surface: a full-surface, topmost,
//! non-interactive black rectangle whose opacity the fade driver animates.
//! Overlays live in an arena; a slot records its owning surface and stays in
//! place (marked dead) when that surface disappears, so overlay identifiers
//! remain stable.  The fade driver advances every live overlay once per tick
//! and commits the pending transition the instant an overlay first saturates
//! at full opacity.

use crate::alpha::{advance_opacity, magnitude, step_opacity, OPACITY_FULL};
use crate::transition::{Transition, TransitionMessage, TransitionView};
use vstd::prelude::*;

verus! {

/// One fade overlay: its owning surface, its current opacity in opacity
/// units, and whether it is still alive (its surface has not been removed).
#[derive(Clone, Copy)]
pub struct Overlay {
    pub alive: bool,
    pub surface: u64,
    pub opacity: i64,
}

/// A live overlay starts fully clear.
pub open spec fn fresh_overlay(surface: u64) -> Overlay {
    Overlay { alive: true, surface, opacity: 0 }
}

/// An overlay's opacity always lies in `[0, OPACITY_FULL]`.
pub open spec fn overlay_wf(o: Overlay) -> bool {
    0 <= o.opacity <= OPACITY_FULL
}

/// Whether one tick of `dt` microseconds commits the pending transition at
/// this overlay: the overlay is live, its opacity saturates at full alpha,
/// and a request is pending.
pub open spec fn commit_fires<S>(slot: Overlay, t: TransitionView<S>, dt: int) -> bool {
    &&& slot.alive
    &&& step_opacity(slot.opacity as int, t.speed, dt) == OPACITY_FULL as int
    &&& t.pending is Some
}

/// Effect of one tick on one overlay: a dead slot is untouched; a live one
/// advances its opacity by `speed * dt`, clamped; if the new opacity
/// saturates at full alpha while a request is pending, the request is
/// consumed, a commit notification carrying it is queued, and the fade
/// direction flips to clearing (negative), keeping the magnitude.
pub open spec fn fade_one<S>(slot: Overlay, t: TransitionView<S>, dt: int) -> (
    Overlay,
    TransitionView<S>,
) {
    if !slot.alive {
        (slot, t)
    } else {
        let op2 = step_opacity(slot.opacity as int, t.speed, dt);
        let slot2 = Overlay { opacity: op2 as i64, ..slot };
        if op2 == OPACITY_FULL as int && t.pending is Some {
            (
                slot2,
                TransitionView {
                    speed: -magnitude(t.speed),
                    pending: None,
                    messages: t.messages.push(t.pending->0),
                    produced: t.produced + 1,
                },
            )
        } else {
            (slot2, t)
        }
    }
}

/// Effect of one tick on a whole arena, first slot first, threading the
/// transition state through (a commit at one overlay is visible to the
/// overlays after it in the same tick).
pub open spec fn fade_all<S>(slots: Seq<Overlay>, t: TransitionView<S>, dt: int) -> (
    Seq<Overlay>,
    TransitionView<S>,
)
    decreases slots.len(),
{
    if slots.len() == 0 {
        (slots, t)
    } else {
        let first = fade_one(slots[0], t, dt);
        let rest = fade_all(slots.drop_first(), first.1, dt);
        (seq![first.0] + rest.0, rest.1)
    }
}

/// Effect of a sequence of ticks with the given durations, oldest first.
pub open spec fn run_ticks<S>(slots: Seq<Overlay>, t: TransitionView<S>, dts: Seq<int>) -> (
    Seq<Overlay>,
    TransitionView<S>,
)
    decreases dts.len(),
{
    if dts.len() == 0 {
        (slots, t)
    } else {
        let first = fade_all(slots, t, dts[0]);
        run_ticks(first.0, first.1, dts.drop_first())
    }
}

/// A tick commits at one overlay exactly when that overlay is live, its
/// opacity first reaches full alpha, and a request is pending — and then the
/// notification carries the pending target, the request slot is emptied, and
/// the speed flips from positive to negative with its magnitude unchanged.
pub proof fn lemma_fade_one_commit<S>(slot: Overlay, t: TransitionView<S>, dt: int)
    ensures
        commit_fires(slot, t, dt) ==> {
            let t2 = fade_one(slot, t, dt).1;
            &&& t2.messages == t.messages.push(t.pending->0)
            &&& t2.produced == t.produced + 1
            &&& t2.pending is None
            &&& t2.speed == -magnitude(t.speed)
            &&& magnitude(t2.speed) == magnitude(t.speed)
            &&& (t.speed > 0 ==> t2.speed < 0)
            &&& fade_one(slot, t, dt).0.opacity == OPACITY_FULL
        },
        !commit_fires(slot, t, dt) ==> fade_one(slot, t, dt).1 == t,
{
}

/// With no request pending, no tick ever produces a notification or changes
/// the transition state: the overlays simply keep fading with the current
/// speed.
pub proof fn lemma_fade_all_no_pending<S>(slots: Seq<Overlay>, t: TransitionView<S>, dt: int)
    requires
        t.pending is None,
    ensures
        fade_all(slots, t, dt).1 == t,
    decreases slots.len(),
{
    if slots.len() > 0 {
        lemma_fade_all_no_pending(slots.drop_first(), fade_one(slots[0], t, dt).1, dt);
    }
}

/// One tick commits at most once, however many overlays it advances: either
/// the transition state comes out exactly as it went in, or there was a
/// pending request, exactly one notification carrying it was appended, the
/// request slot came out empty, and the speed flipped to clearing with its
/// magnitude kept.
pub proof fn lemma_fade_all_at_most_one_commit<S>(slots: Seq<Overlay>, t: TransitionView<S>, dt: int)
    ensures
        ({
            let t2 = fade_all(slots, t, dt).1;
            ||| t2 == t
            ||| {
                &&& t.pending is Some
                &&& t2.messages == t.messages.push(t.pending->0)
                &&& t2.produced == t.produced + 1
                &&& t2.pending is None
                &&& t2.speed == -magnitude(t.speed)
            }
        }),
    decreases slots.len(),
{
    if slots.len() > 0 {
        let t1 = fade_one(slots[0], t, dt).1;
        lemma_fade_one_commit(slots[0], t, dt);
        if commit_fires(slots[0], t, dt) {
            lemma_fade_all_no_pending(slots.drop_first(), t1, dt);
        } else {
            lemma_fade_all_at_most_one_commit(slots.drop_first(), t1, dt);
        }
    }
}

/// A whole darkening phase commits at most once: across any sequence of ticks
/// with no intervening request, either the transition state is untouched, or
/// exactly one notification was produced, carrying the target that was
/// pending when the phase began.
pub proof fn lemma_ticks_at_most_one_commit<S>(
    slots: Seq<Overlay>,
    t: TransitionView<S>,
    dts: Seq<int>,
)
    ensures
        ({
            let t2 = run_ticks(slots, t, dts).1;
            ||| t2 == t
            ||| {
                &&& t.pending is Some
                &&& t2.messages == t.messages.push(t.pending->0)
                &&& t2.produced == t.produced + 1
                &&& t2.pending is None
                &&& t2.speed == -magnitude(t.speed)
            }
        }),
    decreases dts.len(),
{
    if dts.len() > 0 {
        let first = fade_all(slots, t, dts[0]);
        lemma_fade_all_at_most_one_commit(slots, t, dts[0]);
        lemma_ticks_at_most_one_commit(first.0, first.1, dts.drop_first());
    }
}

/// Sum of a sequence of tick durations.
pub open spec fn total_time(dts: Seq<int>) -> int
    decreases dts.len(),
{
    if dts.len() == 0 {
        0
    } else {
        dts[0] + total_time(dts.drop_first())
    }
}

/// A requested fade runs to completion deterministically, based on elapsed
/// time alone: with a live overlay, a pending request and a darkening speed,
/// the commit has fired — exactly once, carrying the pending target, flipping
/// the speed to clearing — by the time the cumulative tick time reaches what
/// the remaining opacity needs (from fully clear, 1/magnitude seconds).  No
/// tick is too short to make progress: nothing is ever rounded away, however
/// the elapsed time is sliced into ticks.
pub proof fn lemma_fade_runs_to_completion<S>(slot: Overlay, t: TransitionView<S>, dts: Seq<int>)
    requires
        slot.alive,
        overlay_wf(slot),
        t.pending is Some,
        t.speed > 0,
        dts.len() > 0,
        forall|i: int| 0 <= i < dts.len() ==> dts[i] >= 0,
        slot.opacity + t.speed * total_time(dts) >= OPACITY_FULL as int,
    ensures
        ({
            let t2 = run_ticks(seq![slot], t, dts).1;
            &&& t2.messages == t.messages.push(t.pending->0)
            &&& t2.produced == t.produced + 1
            &&& t2.pending is None
            &&& t2.speed == -magnitude(t.speed)
        }),
    decreases dts.len(),
{
    reveal_with_fuel(fade_all, 3);
    let d0 = dts[0];
    let step = fade_one(slot, t, d0);
    let first = fade_all(seq![slot], t, d0);
    assert(seq![slot].drop_first() =~= Seq::<Overlay>::empty());
    assert(first.0 == seq![step.0] + Seq::<Overlay>::empty());
    assert(first.1 == step.1);
    let op2 = step_opacity(slot.opacity as int, t.speed, d0);
    vstd::arithmetic::mul::lemma_mul_nonnegative(t.speed, d0);
    if op2 == OPACITY_FULL as int {
        // the commit fires on this very tick; nothing is pending afterwards,
        // so the remaining ticks leave the transition state alone
        lemma_ticks_at_most_one_commit(first.0, first.1, dts.drop_first());
    } else {
        // no commit yet: the full `speed * d0` was banked into the opacity,
        // so the time still owed shrank by exactly d0
        assert(op2 == slot.opacity + t.speed * d0);
        assert(step.1 == t);
        vstd::arithmetic::mul::lemma_mul_is_distributive_add(
            t.speed,
            d0,
            total_time(dts.drop_first()),
        );
        assert(op2 + t.speed * total_time(dts.drop_first()) >= OPACITY_FULL as int);
        assert(dts.drop_first().len() > 0) by {
            if dts.len() == 1 {
                assert(total_time(dts.drop_first()) == 0);
            }
        }
        lemma_fade_runs_to_completion(step.0, t, dts.drop_first());
        assert(first.0 =~= seq![step.0]);
    }
}

/// The arena of fade overlays, one per observed surface.
pub struct OverlayManager {
    slots: Vec<Overlay>,
}

impl View for OverlayManager {
    type V = Seq<Overlay>;

    closed spec fn view(&self) -> Seq<Overlay> {
        self.slots@
    }
}

impl OverlayManager {
    /// Every slot's opacity lies in `[0, OPACITY_FULL]`.
    pub open spec fn wf(&self) -> bool {
        forall|i: int| 0 <= i < self@.len() ==> overlay_wf(#[trigger] self@[i])
    }

    /// An empty arena: no surface has appeared yet.
    pub fn new() -> (m: Self)
        ensures
            m@ == Seq::<Overlay>::empty(),
            m.wf(),
    {
        OverlayManager { slots: Vec::new() }
    }

    /// A surface appeared: create exactly one new overlay owned by it, fully
    /// clear (opacity 0), and return its stable identifier.  Every call
    /// creates a new overlay; deduplicating repeated appearance notifications
    /// is the caller's responsibility.
    pub fn on_surface_appeared(&mut self, surface: u64) -> (id: usize)
        requires
            old(self).wf(),
        ensures
            final(self)@ == old(self)@.push(fresh_overlay(surface)),
            id as int == old(self)@.len(),
            final(self).wf(),
    {
        let id = self.slots.len();
        self.slots.push(Overlay { alive: true, surface, opacity: 0 });
        id
    }

    /// A surface was removed: destroy every overlay it owns and no other.
    /// A surface that owns no overlay is a silent no-op, not an error.
    pub fn on_surface_removed(&mut self, surface: u64)
        requires
            old(self).wf(),
        ensures
            final(self)@.len() == old(self)@.len(),
            forall|i: int|
                0 <= i < old(self)@.len() ==> {
                    &&& (#[trigger] final(self)@[i]).alive == (old(self)@[i].alive
                        && old(self)@[i].surface != surface)
                    &&& final(self)@[i].surface == old(self)@[i].surface
                    &&& final(self)@[i].opacity == old(self)@[i].opacity
                },
            final(self).wf(),
    {
        let n = self.slots.len();
        let mut i: usize = 0;
        while i < n
            invariant
                i <= n,
                n == self.slots.len(),
                self@.len() == old(self)@.len(),
                forall|j: int|
                    i <= j < self@.len() ==> #[trigger] self@[j] == old(self)@[j],
                forall|j: int|
                    0 <= j < i ==> {
                        &&& (#[trigger] self@[j]).alive == (old(self)@[j].alive
                            && old(self)@[j].surface != surface)
                        &&& self@[j].surface == old(self)@[j].surface
                        &&& self@[j].opacity == old(self)@[j].opacity
                    },
            decreases n - i,
        {
            let slot = self.slots[i];
            if slot.surface == surface {
                self.slots[i] = Overlay { alive: false, ..slot };
            }
            i = i + 1;
        }
    }

    /// Number of arena slots (live and dead overlays together).
    pub fn overlay_count(&self) -> (n: usize)
        ensures
            n as int == self@.len(),
    {
        self.slots.len()
    }

    /// Read one overlay slot.
    pub fn overlay(&self, id: usize) -> (o: Overlay)
        requires
            id < self@.len(),
        ensures
            o == self@[id as int],
    {
        self.slots[id]
    }

    /// One tick of the fade driver: advance every live overlay's opacity by
    /// `speed * dt`, clamped to `[0, OPACITY_FULL]`; the instant an overlay
    /// saturates at full alpha while a request is pending, consume the
    /// request, queue a commit notification carrying it, and flip the speed
    /// to clearing.  The combined effect is exactly [`fade_all`].  At most
    /// one notification is produced, so the machine notification count must
    /// have room for one more.
    pub fn apply_fade<S>(&mut self, transition: &mut Transition<S>, dt: u64)
        requires
            old(self).wf(),
            old(transition).wf(),
            old(transition)@.produced < u64::MAX as int,
        ensures
            final(self)@ == fade_all(old(self)@, old(transition)@, dt as int).0,
            final(transition)@ == fade_all(old(self)@, old(transition)@, dt as int).1,
            final(self).wf(),
            final(transition).wf(),
    {
        let ghost orig_slots = self@;
        let ghost orig_t = transition@;
        let ghost goal = fade_all(orig_slots, orig_t, dt as int);
        proof {
            assert(self@.take(0) =~= Seq::<Overlay>::empty());
            assert(self@.skip(0) =~= orig_slots);
            assert(self@.take(0) + fade_all(orig_slots, orig_t, dt as int).0 =~= fade_all(
                orig_slots,
                orig_t,
                dt as int,
            ).0);
        }
        let n = self.slots.len();
        let mut i: usize = 0;
        while i < n
            invariant
                i <= n,
                n == self.slots.len(),
                self@.len() == orig_slots.len(),
                self.wf(),
                transition.wf(),
                self@.skip(i as int) == orig_slots.skip(i as int),
                transition@.pending is Some ==> transition@.produced == orig_t.produced,
                orig_t.produced < u64::MAX as int,
                goal == fade_all(orig_slots, orig_t, dt as int),
                goal.0 == self@.take(i as int) + fade_all(
                    orig_slots.skip(i as int),
                    transition@,
                    dt as int,
                ).0,
                goal.1 == fade_all(orig_slots.skip(i as int), transition@, dt as int).1,
            decreases n - i,
        {
            let ghost pre_slots = self@;
            let ghost t_before = transition@;
            let slot = self.slots[i];
            proof {
                assert(orig_slots.skip(i as int)[0] == slot);
                assert(orig_slots.skip(i as int).drop_first() =~= orig_slots.skip(i as int + 1));
            }
            if slot.alive {
                let sp = transition.speed();
                let new_op = advance_opacity(slot.opacity, sp, dt);
                self.slots[i] = Overlay { opacity: new_op, ..slot };
                if new_op == OPACITY_FULL {
                    match transition.take_pending() {
                        Some(p) => {
                            transition.write(TransitionMessage::new(p));
                            let sp2 = transition.speed();
                            let neg = if sp2 > 0 {
                                -sp2
                            } else {
                                sp2
                            };
                            transition.set_speed(neg);
                        },
                        None => {},
                    }
                }
            }
            proof {
                let step = fade_one(slot, t_before, dt as int);
                assert(self@[i as int] == step.0);
                assert(transition@ == step.1);
                assert(self@.take(i as int) =~= pre_slots.take(i as int));
                assert(self@.skip(i as int + 1) =~= orig_slots.skip(i as int + 1));
                assert(self@.take(i as int + 1) =~= self@.take(i as int).push(step.0));
                assert(fade_all(orig_slots.skip(i as int), t_before, dt as int).0 == seq![step.0]
                    + fade_all(orig_slots.skip(i as int + 1), step.1, dt as int).0);
                assert(self@.take(i as int) + fade_all(orig_slots.skip(i as int), t_before, dt as int).0
                    =~= self@.take(i as int + 1) + fade_all(
                    orig_slots.skip(i as int + 1),
                    step.1,
                    dt as int,
                ).0);
            }
            i = i + 1;
        }
        proof {
            assert(orig_slots.skip(n as int) =~= Seq::<Overlay>::empty());
            assert(self@.take(n as int) =~= self@);
            assert(self@ + fade_all(orig_slots.skip(n as int), transition@, dt as int).0 =~= self@);
        }
    }
}

} // verus!
