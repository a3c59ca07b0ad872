use vstd::prelude::*;

use crate::status::BtState;

verus! {

/// The single capability every tree node implements: advance one tick given
/// exclusive mutable access to an environment of a caller-chosen type `E`,
/// and produce a status.
///
/// A node may hold arbitrary private state that persists across ticks.
/// `wf` is the node's own well-formedness invariant: constructors establish
/// it and every tick preserves it. A tick never returns `NotStarted`, may
/// mutate the environment, and must remain callable any number of times,
/// including after returning `Success` or `Failure` (composites rely on
/// this to restart subtrees).
///
/// `stepped` is the node's transition relation: `stepped(new, r)` says that
/// one tick starting from `self` may end in the node state `new` with the
/// status `r`. Every tick is bound to it, so each node type's contract pins
/// how its outcome follows from what its children and predicates did; the
/// default relation admits every transition, for leaves whose behavior the
/// engine has no view of.
pub trait BtNode<E> {
    open spec fn wf(&self) -> bool {
        true
    }

    open spec fn stepped(&self, new: &Self, r: BtState) -> bool {
        true
    }

    fn tick(&mut self, env: &mut E) -> (r: BtState)
        requires
            old(self).wf(),
        ensures
            final(self).wf(),
            r != BtState::NotStarted,
            old(self).stepped(final(self), r),
    ;
}

/// A stateful tick behavior: the implementing struct holds whatever state
/// the behavior needs across ticks, and `step` is one tick of it.
///
/// Implementers promise what every node promises: `step` never returns
/// `NotStarted`, and every step lies in the behavior's own transition
/// relation `stepped`, which by default admits every transition. An
/// implementer that narrows `stepped` gives [`Lambda`] nodes over it an
/// exact contract.
pub trait BtBehavior<E> {
    open spec fn stepped(&self, new: &Self, r: BtState) -> bool {
        true
    }

    fn step(&mut self, env: &mut E) -> (r: BtState)
        ensures
            r != BtState::NotStarted,
            old(self).stepped(final(self), r),
    ;
}

/// A boolean test of (and possibly effect on) the environment, used by
/// [`condition`], [`run_or_fail`] and the interrupt decorator's monitor.
/// It may keep private state of its own; nothing is promised of its result
/// beyond its own transition relation `evaluated`, which by default admits
/// every verdict. An implementer that narrows `evaluated` — say, to a fixed
/// verdict with its state left alone — gives the nodes built over the
/// predicate an exact contract.
pub trait BtPredicate<E> {
    open spec fn evaluated(&self, new: &Self, b: bool) -> bool {
        true
    }

    fn eval(&mut self, env: &mut E) -> (b: bool)
        ensures
            old(self).evaluated(final(self), b),
    ;
}

/// A leaf node that defers every tick to a [`BtBehavior`].
pub struct Lambda<F> {
    pub func: F,
}

impl<F> Lambda<F> {
    pub fn new(func: F) -> (r: Lambda<F>)
        ensures
            r.func == func,
    {
        Lambda { func }
    }
}

impl<E, F: BtBehavior<E>> BtNode<E> for Lambda<F> {
    /// A lambda tick is exactly one step of the behavior.
    open spec fn stepped(&self, new: &Self, r: BtState) -> bool {
        self.func.stepped(&new.func, r)
    }

    fn tick(&mut self, env: &mut E) -> (r: BtState) {
        self.func.step(env)
    }
}

/// Lifts a tick behavior directly into a tree node; no extra bookkeeping.
pub fn lambda<E, F: BtBehavior<E>>(func: F) -> (r: Lambda<F>)
    ensures
        r.func == func,
{
    Lambda::new(func)
}

/// A leaf node that evaluates a boolean predicate each tick and reports
/// `Success` or `Failure`; it is always terminal, never `Running`.
pub struct Condition<P> {
    pub pred: P,
}

impl<E, P: BtPredicate<E>> BtNode<E> for Condition<P> {
    /// A condition tick is one evaluation of the predicate, whose verdict
    /// alone decides the status: `Success` exactly on true.
    open spec fn stepped(&self, new: &Self, r: BtState) -> bool {
        exists|b: bool|
            self.pred.evaluated(&new.pred, b) && r == (if b {
                BtState::Success
            } else {
                BtState::Failure
            })
    }

    fn tick(&mut self, env: &mut E) -> (r: BtState)
        ensures
            r == BtState::Success || r == BtState::Failure,
    {
        let b = self.pred.eval(env);
        proof {
            assert(old(self).pred.evaluated(&self.pred, b));
        }
        if b {
            BtState::Success
        } else {
            BtState::Failure
        }
    }
}

/// Lifts a boolean predicate into a node that returns `Success` when the
/// predicate holds and `Failure` otherwise.
pub fn condition<E, P: BtPredicate<E>>(func: P) -> (r: Condition<P>)
    ensures
        r.pred == func,
{
    Condition { pred: func }
}

/// A two-phase one-shot action leaf; see [`run_or_fail`].
///
/// `state` is the hidden phase of the leaf, the bookkeeping no caller
/// should steer by hand. At the start of any tick it is
/// `NotStarted` (idle, the action may be attempted) or `Running` (the action
/// was issued on the previous tick); the other two values are unreachable
/// there, which the well-formedness invariant records.
pub struct RunOrFail<P> {
    pub pred: P,
    pub state: BtState,
}

impl<E, P: BtPredicate<E>> BtNode<E> for RunOrFail<P> {
    open spec fn wf(&self) -> bool {
        self.state == BtState::NotStarted || self.state == BtState::Running
    }

    /// A confirm tick (phase `Running`) succeeds and resets the phase
    /// without consulting the predicate; an idle tick evaluates the
    /// predicate once, and its verdict alone decides: issued and `Running`
    /// on true, still idle and `Failure` on false.
    open spec fn stepped(&self, new: &Self, r: BtState) -> bool {
        if self.state == BtState::Running {
            r == BtState::Success && new.state == BtState::NotStarted && new.pred == self.pred
        } else if self.state == BtState::NotStarted {
            exists|b: bool|
                self.pred.evaluated(&new.pred, b) && if b {
                    r == BtState::Running && new.state == BtState::Running
                } else {
                    r == BtState::Failure && new.state == BtState::NotStarted
                }
        } else {
            false
        }
    }

    fn tick(&mut self, env: &mut E) -> (r: BtState)
        ensures
            old(self).state == BtState::Running ==> r == BtState::Success
                && final(self).state == BtState::NotStarted
                && final(self).pred == old(self).pred,
            old(self).state == BtState::NotStarted ==> (r == BtState::Running
                && final(self).state == BtState::Running) || (r == BtState::Failure
                && final(self).state == BtState::NotStarted),
    {
        match self.state {
            BtState::Running => {
                self.state = BtState::NotStarted;
                BtState::Success
            }
            BtState::NotStarted => {
                let b = self.pred.eval(env);
                if b {
                    self.state = BtState::Running;
                    proof {
                        assert(old(self).pred.evaluated(&self.pred, b));
                    }
                    BtState::Running
                } else {
                    BtState::Failure
                }
            }
            BtState::Success | BtState::Failure => vstd::pervasive::unreached(),
        }
    }
}

/// A two-phase one-shot action. On an idle tick the predicate is invoked:
/// `true` means the action was issued, so the leaf returns `Running` and
/// remembers it; `false` leaves the leaf idle and returns `Failure`, so a
/// later tick may retry. On the tick after an issue the leaf returns
/// `Success` unconditionally, without consulting the predicate, and becomes
/// idle again.
pub fn run_or_fail<E, P: BtPredicate<E>>(func: P) -> (r: RunOrFail<P>)
    ensures
        r.pred == func,
        r.state == BtState::NotStarted,
{
    RunOrFail { pred: func, state: BtState::NotStarted }
}

} // verus!
