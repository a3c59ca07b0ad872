use vstd::prelude::*;

use crate::node::BtNode;
use crate::node::BtPredicate;
use crate::status::BtState;

verus! {

/// A decorator that wraps a primary subtree with a per-tick monitor
/// predicate and a fallback subtree.
///
/// Each tick evaluates the monitor first: when it is true the fallback
/// subtree is ticked, otherwise the primary one. The subtree that was not
/// chosen is left untouched, so each subtree retains whatever progress it
/// had the last time it was the one actually ticked, and resuming the
/// primary after a period of running the fallback continues it exactly
/// where it left off.
pub struct Interrupt<M, A, B> {
    pub monitor: M,
    pub primary: A,
    pub fallback: B,
}

impl<E, M: BtPredicate<E>, A: BtNode<E>, B: BtNode<E>> BtNode<E> for Interrupt<M, A, B> {
    open spec fn wf(&self) -> bool {
        self.primary.wf() && self.fallback.wf()
    }

    /// One interrupt tick is one evaluation of the monitor, whose verdict
    /// alone picks the subtree: on true the fallback makes a
    /// [`BtNode::stepped`] transition with the returned status and the
    /// primary is untouched, on false the primary does and the fallback is
    /// untouched.
    open spec fn stepped(&self, new: &Self, r: BtState) -> bool {
        exists|m: bool|
            self.monitor.evaluated(&new.monitor, m) && if m {
                new.primary == self.primary && self.fallback.stepped(&new.fallback, r)
            } else {
                new.fallback == self.fallback && self.primary.stepped(&new.primary, r)
            }
    }

    fn tick(&mut self, env: &mut E) -> (r: BtState)
        ensures
            final(self).primary == old(self).primary || final(self).fallback == old(
                self,
            ).fallback,
    {
        let m = self.monitor.eval(env);
        if m {
            let r = self.fallback.tick(env);
            proof {
                assert(old(self).monitor.evaluated(&self.monitor, m));
            }
            r
        } else {
            let r = self.primary.tick(env);
            proof {
                assert(old(self).monitor.evaluated(&self.monitor, m));
            }
            r
        }
    }
}

/// Builds an [`Interrupt`] node: while `monitor` evaluates false the
/// primary subtree runs; on any tick where it evaluates true, execution
/// transfers to the fallback subtree for that tick instead.
pub fn interrupt<E, M: BtPredicate<E>, A: BtNode<E>, B: BtNode<E>>(
    primary: A,
    monitor: M,
    fallback: B,
) -> (r: Interrupt<M, A, B>)
    ensures
        r.primary == primary,
        r.monitor == monitor,
        r.fallback == fallback,
{
    Interrupt { monitor, primary, fallback }
}

} // verus!
