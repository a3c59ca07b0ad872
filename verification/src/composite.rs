use vstd::prelude::*;

use crate::node::BtNode;
use crate::status::BtState;

verus! {

/// What one tick of a [`Sequence`] yields, as a function of the status each
/// child would return if it were visited on this tick.
///
/// `st` holds one status per child and `c` is the cursor the tick starts
/// at; the result is the status the sequence returns, paired with its
/// cursor after the tick. Children are visited left to right from `c`:
/// `Running` stops the walk with the cursor parked on that child, `Failure`
/// resets the cursor and fails, and `Success` moves on, succeeding once the
/// last child has passed. A cursor out of range, or a child status of
/// `NotStarted` — which no node may return — yields the `NotStarted`
/// marker, an outcome no actual tick produces.
pub open spec fn seq_tick(st: Seq<BtState>, c: int) -> (BtState, int)
    decreases st.len() - c,
{
    if c < 0 || c >= st.len() {
        (BtState::NotStarted, c)
    } else if st[c] == BtState::Running {
        (BtState::Running, c)
    } else if st[c] == BtState::Failure {
        (BtState::Failure, 0int)
    } else if st[c] == BtState::Success {
        if c + 1 == st.len() {
            (BtState::Success, 0int)
        } else {
            seq_tick(st, c + 1)
        }
    } else {
        (BtState::NotStarted, c)
    }
}

/// What one tick of a [`Selector`] yields, as a function of the status each
/// child would return if it were visited on this tick.
///
/// Symmetric to [`seq_tick`] with `Success` and `Failure` swapped: a
/// child's `Success` resets the cursor and succeeds at once, a child's
/// `Failure` moves on to the next alternative, failing only after the last
/// one, and `Running` stops the walk with the cursor parked on that child.
pub open spec fn sel_tick(st: Seq<BtState>, c: int) -> (BtState, int)
    decreases st.len() - c,
{
    if c < 0 || c >= st.len() {
        (BtState::NotStarted, c)
    } else if st[c] == BtState::Running {
        (BtState::Running, c)
    } else if st[c] == BtState::Success {
        (BtState::Success, 0int)
    } else if st[c] == BtState::Failure {
        if c + 1 == st.len() {
            (BtState::Failure, 0int)
        } else {
            sel_tick(st, c + 1)
        }
    } else {
        (BtState::NotStarted, c)
    }
}

/// A sequence tick walks over any run of succeeding children unchanged.
pub proof fn lemma_seq_tick_skips_successes(st: Seq<BtState>, c: int, k: int)
    requires
        0 <= c <= k < st.len(),
        forall|i: int| c <= i < k ==> st[i] == BtState::Success,
    ensures
        seq_tick(st, c) == seq_tick(st, k),
    decreases k - c,
{
    if c < k {
        assert(st[c] == BtState::Success);
        lemma_seq_tick_skips_successes(st, c + 1, k);
    }
}

/// A selector tick walks over any run of failing children unchanged.
pub proof fn lemma_sel_tick_skips_failures(st: Seq<BtState>, c: int, k: int)
    requires
        0 <= c <= k < st.len(),
        forall|i: int| c <= i < k ==> st[i] == BtState::Failure,
    ensures
        sel_tick(st, c) == sel_tick(st, k),
    decreases k - c,
{
    if c < k {
        assert(st[c] == BtState::Failure);
        lemma_sel_tick_skips_failures(st, c + 1, k);
    }
}

/// The witness behind [`Sequence`]'s [`BtNode::stepped`] relation: the row
/// `ws` holds one status per child and `k` is the stopping index. The
/// children visited by the tick — `pre`'s cursor through `k` — each made a
/// `stepped` transition to their state in `post` with their entry of the
/// row, every child before the cursor or past `k` is untouched, the row
/// holds `Success` at each visited child but the stopper (which carries
/// `Success` only as the last child), and the walk [`seq_tick`] of the row
/// from `pre`'s cursor yields exactly the returned status `r` and `post`'s
/// cursor.
pub open spec fn seq_stepped_row<E, C: BtNode<E>>(
    pre: Sequence<C>,
    post: Sequence<C>,
    r: BtState,
    ws: Seq<BtState>,
    k: int,
) -> bool {
    &&& ws.len() == pre.children@.len()
    &&& post.children@.len() == pre.children@.len()
    &&& pre.current_child <= k < pre.children@.len()
    &&& forall|i: int|
        pre.current_child <= i <= k ==> (#[trigger] pre.children@[i]).stepped(
            &post.children@[i],
            ws[i],
        )
    &&& forall|i: int| pre.current_child <= i < k ==> ws[i] == BtState::Success
    &&& (ws[k] == BtState::Success ==> k + 1 == ws.len())
    &&& forall|j: int|
        (0 <= j < pre.current_child || k < j < pre.children@.len()) ==> post.children@[j]
            == pre.children@[j]
    &&& seq_tick(ws, pre.current_child as int) == (r, post.current_child as int)
}

/// The witness behind [`Selector`]'s [`BtNode::stepped`] relation, dual to
/// [`seq_stepped_row`]: the visited children's entries are `Failure` up to
/// the stopper (which carries `Failure` only as the last child), everything
/// outside the visited range is untouched, and the walk [`sel_tick`] of the
/// row yields the returned status and `post`'s cursor.
pub open spec fn sel_stepped_row<E, C: BtNode<E>>(
    pre: Selector<C>,
    post: Selector<C>,
    r: BtState,
    ws: Seq<BtState>,
    k: int,
) -> bool {
    &&& ws.len() == pre.children@.len()
    &&& post.children@.len() == pre.children@.len()
    &&& pre.current_child <= k < pre.children@.len()
    &&& forall|i: int|
        pre.current_child <= i <= k ==> (#[trigger] pre.children@[i]).stepped(
            &post.children@[i],
            ws[i],
        )
    &&& forall|i: int| pre.current_child <= i < k ==> ws[i] == BtState::Failure
    &&& (ws[k] == BtState::Failure ==> k + 1 == ws.len())
    &&& forall|j: int|
        (0 <= j < pre.current_child || k < j < pre.children@.len()) ==> post.children@[j]
            == pre.children@[j]
    &&& sel_tick(ws, pre.current_child as int) == (r, post.current_child as int)
}

/// Packages a finished sequence walk into the [`BtNode::stepped`] relation
/// of [`Sequence`]: the children from the cursor up to the stopper `k`
/// succeeded, child `k` made the stopping transition `ret`, everything else
/// is untouched, and the cursor landed where the walk says.
proof fn lemma_seq_stepped_from_walk<E, C: BtNode<E>>(
    pre: Sequence<C>,
    post: Sequence<C>,
    k: int,
    ret: BtState,
)
    requires
        post.children@.len() == pre.children@.len(),
        pre.current_child <= k < pre.children@.len(),
        forall|i: int|
            pre.current_child <= i < k ==> (#[trigger] pre.children@[i]).stepped(
                &post.children@[i],
                BtState::Success,
            ),
        pre.children@[k].stepped(&post.children@[k], ret),
        ret == BtState::Running || ret == BtState::Failure || ret == BtState::Success,
        ret == BtState::Success ==> k + 1 == pre.children@.len(),
        ret == BtState::Running ==> post.current_child == k,
        ret != BtState::Running ==> post.current_child == 0,
        forall|j: int|
            (0 <= j < pre.current_child || k < j < pre.children@.len())
                ==> post.children@[j] == pre.children@[j],
    ensures
        pre.stepped(&post, ret),
{
    let c0: int = pre.current_child as int;
    let n = pre.children@.len();
    let ws = Seq::new(n, |i: int| if i == k { ret } else { BtState::Success });
    lemma_seq_tick_skips_successes(ws, c0, k);
    assert(seq_tick(ws, c0) == (ret, post.current_child as int));
    assert(forall|i: int|
        c0 <= i <= k ==> (#[trigger] pre.children@[i]).stepped(&post.children@[i], ws[i]));
    assert(seq_stepped_row(pre, post, ret, ws, k));
}

/// A composite that runs its children in order; all must succeed.
///
/// `current_child` is the persistent cursor: the index of the child that
/// should run next. It is reset to 0 exactly when the composite itself
/// returns a terminal status, and is left on the running child otherwise.
pub struct Sequence<C> {
    pub children: Vec<C>,
    pub current_child: usize,
}

impl<C> Sequence<C> {
    /// Builds a sequence over the given children, cursor at the first one.
    /// Composites must not be constructed with zero children.
    pub fn new(children: Vec<C>) -> (r: Sequence<C>)
        requires
            children@.len() > 0,
        ensures
            r.children@ == children@,
            r.current_child == 0,
    {
        Sequence { children, current_child: 0 }
    }
}

impl<E, C: BtNode<E>> BtNode<E> for Sequence<C> {
    open spec fn wf(&self) -> bool {
        &&& self.children@.len() > 0
        &&& self.current_child < self.children@.len()
        &&& forall|i: int| 0 <= i < self.children@.len() ==> (#[trigger] self.children@[i]).wf()
    }

    /// One sequence tick explained child by child: there are a row `ws` of
    /// statuses and a stopping index `k` such that the visited children —
    /// the cursor through `k` — each made a [`BtNode::stepped`] transition
    /// to their new state with their entry of the row, every child before
    /// the cursor or past `k` is untouched, the row holds `Success` at each
    /// visited child but the stopper (which carries `Success` only as the
    /// last child), and the walk [`seq_tick`] of the row from the old
    /// cursor yields exactly the returned status and the new cursor.
    open spec fn stepped(&self, new: &Self, r: BtState) -> bool {
        exists|ws: Seq<BtState>, k: int| seq_stepped_row(*self, *new, r, ws, k)
    }

    /// Ticks children left to right starting at the cursor, falling through
    /// any child that succeeds within the same tick.
    #[verifier::loop_isolation(false)]
    fn tick(&mut self, env: &mut E) -> (r: BtState)
        ensures
            final(self).children@.len() == old(self).children@.len(),
            (r == BtState::Success || r == BtState::Failure) ==> final(self).current_child
                == 0,
            r == BtState::Running ==> old(self).current_child <= final(self).current_child
                < final(self).children@.len(),
    {
        let ghost c0: int = self.current_child as int;
        let ghost n: int = self.children@.len() as int;
        loop
            invariant
                self.children@.len() == n,
                c0 <= self.current_child < n,
                forall|i: int| 0 <= i < n ==> (#[trigger] self.children@[i]).wf(),
                forall|j: int|
                    (0 <= j < c0 || self.current_child <= j < n)
                        ==> self.children@[j] == old(self).children@[j],
                forall|i: int|
                    c0 <= i < self.current_child ==> (#[trigger] old(self).children@[i]).stepped(
                        &self.children@[i],
                        BtState::Success,
                    ),
            decreases n - self.current_child,
        {
            let idx = self.current_child;
            let child = &mut self.children[idx];
            let ret = child.tick(env);

            match ret {
                BtState::Running => {
                    proof {
                        lemma_seq_stepped_from_walk(*old(self), *self, idx as int, ret);
                    }
                    return BtState::Running;
                }
                BtState::Failure => {
                    self.current_child = 0;
                    proof {
                        lemma_seq_stepped_from_walk(*old(self), *self, idx as int, ret);
                    }
                    return BtState::Failure;
                }
                BtState::Success => {
                    let len = self.children.len();
                    self.current_child = idx + 1;
                    if self.current_child == len {
                        self.current_child = 0;
                        proof {
                            lemma_seq_stepped_from_walk(*old(self), *self, idx as int, ret);
                        }
                        return BtState::Success;
                    }
                }
                BtState::NotStarted => {
                    return vstd::pervasive::unreached();
                }
            }
        }
    }
}

/// Builds a [`Sequence`] node over the given children.
pub fn sequence<C>(children: Vec<C>) -> (r: Sequence<C>)
    requires
        children@.len() > 0,
    ensures
        r.children@ == children@,
        r.current_child == 0,
{
    Sequence::new(children)
}

/// Packages a finished selector walk into the [`BtNode::stepped`] relation
/// of [`Selector`], dually to [`lemma_seq_stepped_from_walk`]: the children
/// from the cursor up to the stopper `k` failed, child `k` made the
/// stopping transition `ret`, everything else is untouched, and the cursor
/// landed where the walk says.
proof fn lemma_sel_stepped_from_walk<E, C: BtNode<E>>(
    pre: Selector<C>,
    post: Selector<C>,
    k: int,
    ret: BtState,
)
    requires
        post.children@.len() == pre.children@.len(),
        pre.current_child <= k < pre.children@.len(),
        forall|i: int|
            pre.current_child <= i < k ==> (#[trigger] pre.children@[i]).stepped(
                &post.children@[i],
                BtState::Failure,
            ),
        pre.children@[k].stepped(&post.children@[k], ret),
        ret == BtState::Running || ret == BtState::Failure || ret == BtState::Success,
        ret == BtState::Failure ==> k + 1 == pre.children@.len(),
        ret == BtState::Running ==> post.current_child == k,
        ret != BtState::Running ==> post.current_child == 0,
        forall|j: int|
            (0 <= j < pre.current_child || k < j < pre.children@.len())
                ==> post.children@[j] == pre.children@[j],
    ensures
        pre.stepped(&post, ret),
{
    let c0: int = pre.current_child as int;
    let n = pre.children@.len();
    let ws = Seq::new(n, |i: int| if i == k { ret } else { BtState::Failure });
    lemma_sel_tick_skips_failures(ws, c0, k);
    assert(sel_tick(ws, c0) == (ret, post.current_child as int));
    assert(forall|i: int|
        c0 <= i <= k ==> (#[trigger] pre.children@[i]).stepped(&post.children@[i], ws[i]));
    assert(sel_stepped_row(pre, post, ret, ws, k));
}

/// A composite that runs its children in order; the first success wins.
///
/// `current_child` is the persistent cursor, handled exactly as in
/// [`Sequence`]: reset to 0 on a terminal status, parked on the running
/// child otherwise.
pub struct Selector<C> {
    pub children: Vec<C>,
    pub current_child: usize,
}

impl<C> Selector<C> {
    /// Builds a selector over the given children, cursor at the first one.
    /// Composites must not be constructed with zero children.
    pub fn new(children: Vec<C>) -> (r: Selector<C>)
        requires
            children@.len() > 0,
        ensures
            r.children@ == children@,
            r.current_child == 0,
    {
        Selector { children, current_child: 0 }
    }
}

impl<E, C: BtNode<E>> BtNode<E> for Selector<C> {
    open spec fn wf(&self) -> bool {
        &&& self.children@.len() > 0
        &&& self.current_child < self.children@.len()
        &&& forall|i: int| 0 <= i < self.children@.len() ==> (#[trigger] self.children@[i]).wf()
    }

    /// One selector tick explained child by child, dually to
    /// [`Sequence`]'s relation: there are a row `ws` of statuses and a
    /// stopping index `k` such that the visited children — the cursor
    /// through `k` — each made a [`BtNode::stepped`] transition to their
    /// new state with their entry of the row, every child before the cursor
    /// or past `k` is untouched, the row holds `Failure` at each visited
    /// child but the stopper (which carries `Failure` only as the last
    /// child), and the walk [`sel_tick`] of the row from the old cursor
    /// yields exactly the returned status and the new cursor.
    open spec fn stepped(&self, new: &Self, r: BtState) -> bool {
        exists|ws: Seq<BtState>, k: int| sel_stepped_row(*self, *new, r, ws, k)
    }

    /// Ticks children left to right starting at the cursor, falling through
    /// any child that fails within the same tick.
    #[verifier::loop_isolation(false)]
    fn tick(&mut self, env: &mut E) -> (r: BtState)
        ensures
            final(self).children@.len() == old(self).children@.len(),
            (r == BtState::Success || r == BtState::Failure) ==> final(self).current_child
                == 0,
            r == BtState::Running ==> old(self).current_child <= final(self).current_child
                < final(self).children@.len(),
    {
        let ghost c0: int = self.current_child as int;
        let ghost n: int = self.children@.len() as int;
        loop
            invariant
                self.children@.len() == n,
                c0 <= self.current_child < n,
                forall|i: int| 0 <= i < n ==> (#[trigger] self.children@[i]).wf(),
                forall|j: int|
                    (0 <= j < c0 || self.current_child <= j < n)
                        ==> self.children@[j] == old(self).children@[j],
                forall|i: int|
                    c0 <= i < self.current_child ==> (#[trigger] old(self).children@[i]).stepped(
                        &self.children@[i],
                        BtState::Failure,
                    ),
            decreases n - self.current_child,
        {
            let idx = self.current_child;
            let child = &mut self.children[idx];
            let ret = child.tick(env);

            match ret {
                BtState::Running => {
                    proof {
                        lemma_sel_stepped_from_walk(*old(self), *self, idx as int, ret);
                    }
                    return BtState::Running;
                }
                BtState::Success => {
                    self.current_child = 0;
                    proof {
                        lemma_sel_stepped_from_walk(*old(self), *self, idx as int, ret);
                    }
                    return BtState::Success;
                }
                BtState::Failure => {
                    let len = self.children.len();
                    self.current_child = idx + 1;
                    if self.current_child == len {
                        self.current_child = 0;
                        proof {
                            lemma_sel_stepped_from_walk(*old(self), *self, idx as int, ret);
                        }
                        return BtState::Failure;
                    }
                }
                BtState::NotStarted => {
                    return vstd::pervasive::unreached();
                }
            }
        }
    }
}

/// Builds a [`Selector`] node over the given children.
pub fn select<C>(children: Vec<C>) -> (r: Selector<C>)
    requires
        children@.len() > 0,
    ensures
        r.children@ == children@,
        r.current_child == 0,
{
    Selector::new(children)
}

} // verus!
