//! The transition request state: pending target, fade speed and the queue of
//! commit notifications.
//!
//! A `Transition<S>` bundles the per-state-type singletons: the signed fade
//! speed (sign = direction, magnitude = rate), the at-most-one pending target
//! state, and the notifications emitted when a darkening phase commits.  The
//! host consumes the notifications and pushes the carried state into its own
//! state container.

use crate::alpha::magnitude;
use vstd::prelude::*;

verus! {

/// Default fade rate: 2.0 alpha per second, in speed units of
/// [`crate::alpha::SPEED_SCALE`] per alpha-per-second.
pub const DEFAULT_SPEED: i64 = 2_000_000;

/// Process-wide fade speed.  The sign is the sole source of truth for the
/// fade direction (positive darkens, negative clears); the magnitude is the
/// rate in speed units (see [`crate::alpha::SPEED_SCALE`]).
pub struct TransitionSpeed(i64);

impl TransitionSpeed {
    /// The signed speed value.
    pub closed spec fn value(&self) -> int {
        self.0 as int
    }
}

impl Default for TransitionSpeed {
    /// The default rate of 2.0 alpha per second, darkening.
    fn default() -> (r: Self)
        ensures
            r.value() == DEFAULT_SPEED as int,
    {
        TransitionSpeed(DEFAULT_SPEED)
    }
}

/// The at-most-one queued target state.  A newer request overwrites any
/// unconsumed prior value; the fade driver consumes it with take-semantics.
pub struct PendingState<S>(Option<S>);

impl<S> PendingState<S> {
    /// The queued target, if any.
    pub closed spec fn value(&self) -> Option<S> {
        self.0
    }
}

impl<S> Default for PendingState<S> {
    /// Initially no request is queued.
    fn default() -> (r: Self)
        ensures
            r.value() is None,
    {
        PendingState(None)
    }
}

/// A commit notification: carries the one state value committed at the end of
/// a darkening phase.
pub struct TransitionMessage<S> {
    state: S,
}

impl<S> TransitionMessage<S> {
    pub fn new(state: S) -> (r: Self)
        ensures
            r@ == state,
    {
        TransitionMessage { state }
    }
}

impl<S> View for TransitionMessage<S> {
    type V = S;

    /// A notification is abstractly just the state it carries.
    closed spec fn view(&self) -> S {
        self.state
    }
}

/// Abstract value of a [`Transition`]: the signed speed, the pending target,
/// the queued commit notifications in arrival order, and the count of
/// notifications ever produced (never decreasing, also counting drained
/// ones — what a [`TransitionReader`] compares its mark against).
pub ghost struct TransitionView<S> {
    pub speed: int,
    pub pending: Option<S>,
    pub messages: Seq<S>,
    pub produced: int,
}

/// Effect of one `request_transition` call on the abstract transition state:
/// the target replaces any unconsumed prior request and the fade direction is
/// forced to darkening (positive), keeping the magnitude.
pub open spec fn request_step<S>(t: TransitionView<S>, target: S) -> TransitionView<S> {
    TransitionView { speed: magnitude(t.speed), pending: Some(target), ..t }
}

/// Applies a sequence of `request_transition` calls, oldest first.
pub open spec fn requests_applied<S>(t: TransitionView<S>, targets: Seq<S>) -> TransitionView<S>
    decreases targets.len(),
{
    if targets.len() == 0 {
        t
    } else {
        requests_applied(request_step(t, targets[0]), targets.drop_first())
    }
}

/// However many requests are made, the pending slot holds at most one value
/// (it is an `Option`), and after any non-empty sequence of requests it holds
/// exactly the most recent target: earlier targets are overwritten, never
/// queued.
pub proof fn lemma_pending_is_last_request<S>(t: TransitionView<S>, targets: Seq<S>)
    requires
        targets.len() > 0,
    ensures
        requests_applied(t, targets).pending == Some(targets.last()),
    decreases targets.len(),
{
    if targets.len() == 1 {
        assert(requests_applied(t, targets) == requests_applied(
            request_step(t, targets[0]),
            targets.drop_first(),
        ));
    } else {
        lemma_pending_is_last_request(request_step(t, targets[0]), targets.drop_first());
        assert(targets.drop_first().last() == targets.last());
    }
}

/// The transition singletons for one tracked state type `S`, together with
/// the queue of commit notifications awaiting the host's state container.
pub struct Transition<S> {
    speed: TransitionSpeed,
    pending_state: PendingState<S>,
    messages: Vec<TransitionMessage<S>>,
    produced: u64,
}

impl<S> View for Transition<S> {
    type V = TransitionView<S>;

    closed spec fn view(&self) -> TransitionView<S> {
        TransitionView {
            speed: self.speed.value(),
            pending: self.pending_state.value(),
            messages: self.messages@.map_values(|m: TransitionMessage<S>| m@),
            produced: self.produced as int,
        }
    }
}

impl<S> Transition<S> {
    /// The speed's negation must stay representable, so the one machine value
    /// `i64::MIN` (which has no `i64` negation) is excluded.
    pub open spec fn wf(&self) -> bool {
        self@.speed != i64::MIN as int
    }

    /// A fresh transition state: default speed, no pending request, no
    /// queued notification.
    pub fn new() -> (t: Self)
        ensures
            t@.speed == DEFAULT_SPEED as int,
            t@.pending is None,
            t@.messages == Seq::<S>::empty(),
            t@.produced == 0,
            t.wf(),
    {
        let t = Transition {
            speed: TransitionSpeed::default(),
            pending_state: PendingState::default(),
            messages: Vec::new(),
            produced: 0,
        };
        proof {
            assert(t@.messages =~= Seq::<S>::empty());
        }
        t
    }

    /// Request a transition to `state`: overwrite any unconsumed pending
    /// target and force the fade direction to darkening, keeping the
    /// magnitude.  Always succeeds; the effect becomes visible through
    /// subsequent ticks of the fade driver.
    pub fn to(&mut self, state: S)
        requires
            old(self).wf(),
        ensures
            final(self)@ == request_step(old(self)@, state),
            final(self).wf(),
    {
        self.pending_state.0 = Some(state);
        let s = self.speed();
        let m = if s < 0 {
            -s
        } else {
            s
        };
        self.set_speed(m);
    }

    /// The current signed fade speed.
    pub fn speed(&self) -> (r: i64)
        ensures
            r as int == self@.speed,
    {
        self.speed.0
    }

    /// Replace the fade speed (rate and direction) wholesale.
    pub fn set_speed(&mut self, speed: i64)
        requires
            speed != i64::MIN,
        ensures
            final(self)@ == (TransitionView { speed: speed as int, ..old(self)@ }),
            final(self).wf(),
    {
        self.speed.0 = speed;
    }

    /// Consume the pending target: return it and clear the slot in one step,
    /// so a request is committed at most once.
    pub(crate) fn take_pending(&mut self) -> (r: Option<S>)
        ensures
            r == old(self)@.pending,
            final(self)@ == (TransitionView { pending: None::<S>, ..old(self)@ }),
    {
        self.pending_state.0.take()
    }

    /// Queue a commit notification for the host's state container and count
    /// it as produced.  The count is a machine `u64`, so it must not be
    /// exhausted.
    pub fn write(&mut self, message: TransitionMessage<S>)
        requires
            old(self)@.produced < u64::MAX as int,
        ensures
            final(self)@ == (TransitionView {
                messages: old(self)@.messages.push(message@),
                produced: old(self)@.produced + 1,
                ..old(self)@
            }),
    {
        self.messages.push(message);
        self.produced = self.produced + 1;
        proof {
            assert(self@.messages =~= old(self)@.messages.push(message@));
        }
    }

    /// Total number of commit notifications ever produced (drained ones
    /// included).
    pub fn notifications_produced(&self) -> (r: u64)
        ensures
            r as int == self@.produced,
    {
        self.produced
    }

    /// Drain every queued commit notification and return the state the host's
    /// container should now apply: the notifications are applied in arrival
    /// order, so the last one wins; `None` when no commit happened.
    pub fn handle_transition_events(&mut self) -> (r: Option<S>)
        ensures
            final(self)@ == (TransitionView { messages: Seq::<S>::empty(), ..old(self)@ }),
            old(self)@.messages.len() == 0 ==> r is None,
            old(self)@.messages.len() > 0 ==> r == Some(old(self)@.messages.last()),
    {
        let r = match self.messages.pop() {
            Some(m) => Some(m.state),
            None => None,
        };
        self.messages.clear();
        proof {
            assert(self@.messages =~= Seq::<S>::empty());
        }
        r
    }
}

/// One caller's view onto the commit notifications: a mark of how many it has
/// already seen.  Each subsystem that polls [`is_transition_pending`] owns a
/// reader of its own, so a commit is reported once to each of them,
/// independently of the commit handler draining the notification values.
pub struct TransitionReader {
    seen: u64,
}

impl TransitionReader {
    /// How many notifications this reader has marked as seen.
    pub closed spec fn seen(&self) -> int {
        self.seen as int
    }

    /// A fresh reader has seen nothing: notifications already produced count
    /// as new to it.
    pub fn new() -> (r: Self)
        ensures
            r.seen() == 0,
    {
        TransitionReader { seen: 0 }
    }
}

/// Whether a transition commit just fired: true exactly when a notification
/// has been produced since this reader last asked.  All notifications are
/// then marked as seen by this reader — and only by this one, so the query
/// reports each commit at most once per caller and never consumes the
/// notification values themselves.
pub fn is_transition_pending<S>(reader: &mut TransitionReader, transition: &Transition<S>) -> (r:
    bool)
    ensures
        r == (transition@.produced > old(reader).seen()),
        final(reader).seen() == transition@.produced,
{
    let r = transition.produced > reader.seen;
    reader.seen = transition.produced;
    r
}

} // verus!
