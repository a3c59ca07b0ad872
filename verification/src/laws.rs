use vstd::prelude::*;

use crate::composite::lemma_sel_tick_skips_failures;
use crate::composite::lemma_seq_tick_skips_successes;
use crate::composite::sel_stepped_row;
use crate::composite::sel_tick;
use crate::composite::seq_stepped_row;
use crate::composite::seq_tick;
use crate::composite::Selector;
use crate::composite::Sequence;
use crate::interrupt::Interrupt;
use crate::node::BtNode;
use crate::node::BtPredicate;
use crate::node::Condition;
use crate::node::RunOrFail;
use crate::status::BtState;

verus! {

/// Executable-level collapse law: one tick of a [`Sequence`] whose
/// children can only ever step with `Success` returns `Success` with the
/// cursor reset to 0, whatever the number of children.
pub proof fn sequence_stepped_all_success<E, C: BtNode<E>>(
    pre: Sequence<C>,
    post: Sequence<C>,
    r: BtState,
)
    requires
        pre.stepped(&post, r),
        forall|i: int, c: C, st: BtState|
            0 <= i < pre.children@.len() ==> ((#[trigger] pre.children@[i].stepped(&c, st))
                ==> st == BtState::Success),
    ensures
        r == BtState::Success,
        post.current_child == 0,
{
    let (ws, k) = choose|ws: Seq<BtState>, k: int| seq_stepped_row(pre, post, r, ws, k);
    assert(pre.children@[k].stepped(&post.children@[k], ws[k]));
    assert(ws[k] == BtState::Success);
    assert(k + 1 == ws.len());
    lemma_seq_tick_skips_successes(ws, pre.current_child as int, k);
    assert(seq_tick(ws, k) == (BtState::Success, 0int));
}

/// Executable-level failure law: if the children before child `k0` can
/// only step with `Success` and child `k0` only with `Failure`, one tick
/// of the [`Sequence`] returns `Failure`, resets the cursor to 0, and
/// leaves every child past `k0` (and before the starting cursor)
/// untouched.
pub proof fn sequence_stepped_child_failure<E, C: BtNode<E>>(
    pre: Sequence<C>,
    post: Sequence<C>,
    r: BtState,
    k0: int,
)
    requires
        pre.stepped(&post, r),
        pre.current_child <= k0 < pre.children@.len(),
        forall|i: int, c: C, st: BtState|
            pre.current_child <= i < k0 ==> ((#[trigger] pre.children@[i].stepped(&c, st))
                ==> st == BtState::Success),
        forall|c: C, st: BtState|
            (#[trigger] pre.children@[k0].stepped(&c, st)) ==> st == BtState::Failure,
    ensures
        r == BtState::Failure,
        post.current_child == 0,
        forall|j: int|
            (0 <= j < pre.current_child || k0 < j < pre.children@.len())
                ==> post.children@[j] == pre.children@[j],
{
    let (ws, k) = choose|ws: Seq<BtState>, k: int| seq_stepped_row(pre, post, r, ws, k);
    assert(pre.children@[k].stepped(&post.children@[k], ws[k]));
    if k < k0 {
        assert(ws[k] == BtState::Success);
        assert(k + 1 == ws.len());
        assert(false);
    }
    if k > k0 {
        assert(pre.children@[k0].stepped(&post.children@[k0], ws[k0]));
        assert(ws[k0] == BtState::Failure && ws[k0] == BtState::Success);
        assert(false);
    }
    assert(k == k0);
    assert(ws[k0] == BtState::Failure);
    lemma_seq_tick_skips_successes(ws, pre.current_child as int, k0);
    assert(seq_tick(ws, k0) == (BtState::Failure, 0int));
}

/// Executable-level resume law: if the children before child `k0` can only
/// step with `Success` and child `k0` only with `Running`, one tick of the
/// [`Sequence`] returns `Running` with the cursor parked on `k0` — so the
/// next tick starts at child `k0`, not child 0 — and leaves every child
/// past `k0` (and before the starting cursor) untouched.
pub proof fn sequence_stepped_child_running<E, C: BtNode<E>>(
    pre: Sequence<C>,
    post: Sequence<C>,
    r: BtState,
    k0: int,
)
    requires
        pre.stepped(&post, r),
        pre.current_child <= k0 < pre.children@.len(),
        forall|i: int, c: C, st: BtState|
            pre.current_child <= i < k0 ==> ((#[trigger] pre.children@[i].stepped(&c, st))
                ==> st == BtState::Success),
        forall|c: C, st: BtState|
            (#[trigger] pre.children@[k0].stepped(&c, st)) ==> st == BtState::Running,
    ensures
        r == BtState::Running,
        post.current_child == k0,
        forall|j: int|
            (0 <= j < pre.current_child || k0 < j < pre.children@.len())
                ==> post.children@[j] == pre.children@[j],
{
    let (ws, k) = choose|ws: Seq<BtState>, k: int| seq_stepped_row(pre, post, r, ws, k);
    assert(pre.children@[k].stepped(&post.children@[k], ws[k]));
    if k < k0 {
        assert(ws[k] == BtState::Success);
        assert(k + 1 == ws.len());
        assert(false);
    }
    if k > k0 {
        assert(pre.children@[k0].stepped(&post.children@[k0], ws[k0]));
        assert(ws[k0] == BtState::Running && ws[k0] == BtState::Success);
        assert(false);
    }
    assert(k == k0);
    assert(ws[k0] == BtState::Running);
    lemma_seq_tick_skips_successes(ws, pre.current_child as int, k0);
    assert(seq_tick(ws, k0) == (BtState::Running, k0));
}

/// Executable-level dual of [`sequence_stepped_all_success`]: one tick of
/// a [`Selector`] whose children can only ever step with `Failure` returns
/// `Failure` with the cursor reset to 0.
pub proof fn selector_stepped_all_failure<E, C: BtNode<E>>(
    pre: Selector<C>,
    post: Selector<C>,
    r: BtState,
)
    requires
        pre.stepped(&post, r),
        forall|i: int, c: C, st: BtState|
            0 <= i < pre.children@.len() ==> ((#[trigger] pre.children@[i].stepped(&c, st))
                ==> st == BtState::Failure),
    ensures
        r == BtState::Failure,
        post.current_child == 0,
{
    let (ws, k) = choose|ws: Seq<BtState>, k: int| sel_stepped_row(pre, post, r, ws, k);
    assert(pre.children@[k].stepped(&post.children@[k], ws[k]));
    assert(ws[k] == BtState::Failure);
    assert(k + 1 == ws.len());
    lemma_sel_tick_skips_failures(ws, pre.current_child as int, k);
    assert(sel_tick(ws, k) == (BtState::Failure, 0int));
}

/// Executable-level dual of [`sequence_stepped_child_failure`]: if the
/// children before child `k0` can only step with `Failure` and child `k0`
/// only with `Success`, one tick of the [`Selector`] returns `Success`,
/// resets the cursor to 0, and leaves every child past `k0` (and before
/// the starting cursor) untouched.
pub proof fn selector_stepped_child_success<E, C: BtNode<E>>(
    pre: Selector<C>,
    post: Selector<C>,
    r: BtState,
    k0: int,
)
    requires
        pre.stepped(&post, r),
        pre.current_child <= k0 < pre.children@.len(),
        forall|i: int, c: C, st: BtState|
            pre.current_child <= i < k0 ==> ((#[trigger] pre.children@[i].stepped(&c, st))
                ==> st == BtState::Failure),
        forall|c: C, st: BtState|
            (#[trigger] pre.children@[k0].stepped(&c, st)) ==> st == BtState::Success,
    ensures
        r == BtState::Success,
        post.current_child == 0,
        forall|j: int|
            (0 <= j < pre.current_child || k0 < j < pre.children@.len())
                ==> post.children@[j] == pre.children@[j],
{
    let (ws, k) = choose|ws: Seq<BtState>, k: int| sel_stepped_row(pre, post, r, ws, k);
    assert(pre.children@[k].stepped(&post.children@[k], ws[k]));
    if k < k0 {
        assert(ws[k] == BtState::Failure);
        assert(k + 1 == ws.len());
        assert(false);
    }
    if k > k0 {
        assert(pre.children@[k0].stepped(&post.children@[k0], ws[k0]));
        assert(ws[k0] == BtState::Success && ws[k0] == BtState::Failure);
        assert(false);
    }
    assert(k == k0);
    assert(ws[k0] == BtState::Success);
    lemma_sel_tick_skips_failures(ws, pre.current_child as int, k0);
    assert(sel_tick(ws, k0) == (BtState::Success, 0int));
}

/// Executable-level dual of [`sequence_stepped_child_running`]: if the
/// children before child `k0` can only step with `Failure` and child `k0`
/// only with `Running`, one tick of the [`Selector`] returns `Running`
/// with the cursor parked on `k0`, and leaves every child past `k0` (and
/// before the starting cursor) untouched.
pub proof fn selector_stepped_child_running<E, C: BtNode<E>>(
    pre: Selector<C>,
    post: Selector<C>,
    r: BtState,
    k0: int,
)
    requires
        pre.stepped(&post, r),
        pre.current_child <= k0 < pre.children@.len(),
        forall|i: int, c: C, st: BtState|
            pre.current_child <= i < k0 ==> ((#[trigger] pre.children@[i].stepped(&c, st))
                ==> st == BtState::Failure),
        forall|c: C, st: BtState|
            (#[trigger] pre.children@[k0].stepped(&c, st)) ==> st == BtState::Running,
    ensures
        r == BtState::Running,
        post.current_child == k0,
        forall|j: int|
            (0 <= j < pre.current_child || k0 < j < pre.children@.len())
                ==> post.children@[j] == pre.children@[j],
{
    let (ws, k) = choose|ws: Seq<BtState>, k: int| sel_stepped_row(pre, post, r, ws, k);
    assert(pre.children@[k].stepped(&post.children@[k], ws[k]));
    if k < k0 {
        assert(ws[k] == BtState::Failure);
        assert(k + 1 == ws.len());
        assert(false);
    }
    if k > k0 {
        assert(pre.children@[k0].stepped(&post.children@[k0], ws[k0]));
        assert(ws[k0] == BtState::Running && ws[k0] == BtState::Failure);
        assert(false);
    }
    assert(k == k0);
    assert(ws[k0] == BtState::Running);
    lemma_sel_tick_skips_failures(ws, pre.current_child as int, k0);
    assert(sel_tick(ws, k0) == (BtState::Running, k0));
}

/// A [`Condition`] node over a predicate whose verdict is pinned to `v`
/// returns `Success` exactly when `v` is true, and `Failure` otherwise. In
/// particular a condition over a constant, self-preserving predicate
/// yields the identical terminal status on every tick.
pub proof fn condition_stepped_by_verdict<E, P: BtPredicate<E>>(
    pre: Condition<P>,
    post: Condition<P>,
    r: BtState,
    v: bool,
)
    requires
        pre.stepped(&post, r),
        forall|p2: P, b: bool| (#[trigger] pre.pred.evaluated(&p2, b)) ==> b == v,
    ensures
        r == (if v {
            BtState::Success
        } else {
            BtState::Failure
        }),
{
    let b = choose|b: bool|
        pre.pred.evaluated(&post.pred, b) && r == (if b {
            BtState::Success
        } else {
            BtState::Failure
        });
    assert(b == v);
}

/// An idle [`RunOrFail`] leaf over a predicate whose verdict is pinned to
/// `v` issues the action exactly when `v` is true: it returns `Running`
/// and remembers the issue on true, and returns `Failure` staying idle on
/// false.
pub proof fn run_or_fail_stepped_by_verdict<E, P: BtPredicate<E>>(
    pre: RunOrFail<P>,
    post: RunOrFail<P>,
    r: BtState,
    v: bool,
)
    requires
        pre.state == BtState::NotStarted,
        pre.stepped(&post, r),
        forall|p2: P, b: bool| (#[trigger] pre.pred.evaluated(&p2, b)) ==> b == v,
    ensures
        v ==> r == BtState::Running && post.state == BtState::Running,
        !v ==> r == BtState::Failure && post.state == BtState::NotStarted,
{
    let b = choose|b: bool|
        pre.pred.evaluated(&post.pred, b) && if b {
            r == BtState::Running && post.state == BtState::Running
        } else {
            r == BtState::Failure && post.state == BtState::NotStarted
        };
    assert(b == v);
}

/// An [`Interrupt`] node over a monitor whose verdict is pinned to `v`
/// drives exactly one subtree: the fallback when `v` is true — with the
/// primary untouched, keeping whatever progress it had — and the primary
/// when `v` is false, with the fallback untouched; the returned status is
/// a transition of the driven subtree.
pub proof fn interrupt_stepped_by_verdict<E, M: BtPredicate<E>, A: BtNode<E>, B: BtNode<E>>(
    pre: Interrupt<M, A, B>,
    post: Interrupt<M, A, B>,
    r: BtState,
    v: bool,
)
    requires
        pre.stepped(&post, r),
        forall|m2: M, b: bool| (#[trigger] pre.monitor.evaluated(&m2, b)) ==> b == v,
    ensures
        v ==> post.primary == pre.primary && pre.fallback.stepped(&post.fallback, r),
        !v ==> post.fallback == pre.fallback && pre.primary.stepped(&post.primary, r),
{
    let m = choose|m: bool|
        pre.monitor.evaluated(&post.monitor, m) && if m {
            post.primary == pre.primary && pre.fallback.stepped(&post.fallback, r)
        } else {
            post.fallback == pre.fallback && pre.primary.stepped(&post.primary, r)
        };
    assert(m == v);
}

/// For every sequence, of any length: if each child returns `Success` on
/// the tick it is visited, one tick of the sequence returns `Success` and
/// the cursor is 0 afterward — all the terminal children collapse into a
/// single tick.
pub proof fn seq_all_success_collapses(st: Seq<BtState>)
    requires
        st.len() > 0,
        forall|i: int| 0 <= i < st.len() ==> st[i] == BtState::Success,
    ensures
        seq_tick(st, 0) == (BtState::Success, 0int),
{
    let last = st.len() - 1;
    lemma_seq_tick_skips_successes(st, 0, last);
    assert(st[last] == BtState::Success);
}

/// For every sequence: if the children before child `k` succeed and child
/// `k` returns `Failure`, the tick starting at cursor `c` returns `Failure`
/// and the cursor is 0 on return, so a later tick restarts the whole
/// sequence from the first child.
pub proof fn seq_child_failure_resets(st: Seq<BtState>, c: int, k: int)
    requires
        0 <= c <= k < st.len(),
        st[k] == BtState::Failure,
        forall|i: int| c <= i < k ==> st[i] == BtState::Success,
    ensures
        seq_tick(st, c) == (BtState::Failure, 0int),
{
    lemma_seq_tick_skips_successes(st, c, k);
}

/// For every sequence: if the children before child `k` succeed and child
/// `k` returns `Running`, the tick starting at cursor `c` returns `Running`
/// with the cursor parked on `k`, so a subsequent tick visits child `k`
/// again — not child 0 — before any earlier child is re-ticked.
pub proof fn seq_child_running_resumes(st: Seq<BtState>, c: int, k: int)
    requires
        0 <= c <= k < st.len(),
        st[k] == BtState::Running,
        forall|i: int| c <= i < k ==> st[i] == BtState::Success,
    ensures
        seq_tick(st, c) == (BtState::Running, k),
{
    lemma_seq_tick_skips_successes(st, c, k);
}

/// Swaps `Success` and `Failure`, leaving the other statuses alone.
pub open spec fn dual_status(s: BtState) -> BtState {
    match s {
        BtState::Success => BtState::Failure,
        BtState::Failure => BtState::Success,
        BtState::Running => BtState::Running,
        BtState::NotStarted => BtState::NotStarted,
    }
}

/// The same row of child statuses with `Success` and `Failure` swapped in
/// every position.
pub open spec fn dual_row(st: Seq<BtState>) -> Seq<BtState> {
    st.map_values(|s: BtState| dual_status(s))
}

/// The selector is the exact dual of the sequence: a selector tick over any
/// row of child statuses yields the swapped status, and the same cursor, as
/// a sequence tick over the swapped row.
pub proof fn seq_sel_duality(st: Seq<BtState>, c: int)
    ensures
        sel_tick(st, c).0 == dual_status(seq_tick(dual_row(st), c).0),
        sel_tick(st, c).1 == seq_tick(dual_row(st), c).1,
    decreases st.len() - c,
{
    let dl = dual_row(st);
    assert(dl.len() == st.len());
    if 0 <= c < st.len() {
        assert(dl[c] == dual_status(st[c]));
        if st[c] == BtState::Failure && c + 1 < st.len() {
            seq_sel_duality(st, c + 1);
        }
    }
}

/// The selector dual of [`seq_all_success_collapses`]: if each child
/// returns `Failure` on the tick it is visited, one tick of the selector
/// returns `Failure` and the cursor is 0 afterward.
pub proof fn sel_all_failure_collapses(st: Seq<BtState>)
    requires
        st.len() > 0,
        forall|i: int| 0 <= i < st.len() ==> st[i] == BtState::Failure,
    ensures
        sel_tick(st, 0) == (BtState::Failure, 0int),
{
    let last = st.len() - 1;
    lemma_sel_tick_skips_failures(st, 0, last);
    assert(st[last] == BtState::Failure);
}

/// The selector dual of [`seq_child_failure_resets`]: if the children
/// before child `k` fail and child `k` returns `Success`, the tick starting
/// at cursor `c` returns `Success` and the cursor is 0 on return.
pub proof fn sel_child_success_resets(st: Seq<BtState>, c: int, k: int)
    requires
        0 <= c <= k < st.len(),
        st[k] == BtState::Success,
        forall|i: int| c <= i < k ==> st[i] == BtState::Failure,
    ensures
        sel_tick(st, c) == (BtState::Success, 0int),
{
    lemma_sel_tick_skips_failures(st, c, k);
}

/// The selector dual of [`seq_child_running_resumes`]: if the children
/// before child `k` fail and child `k` returns `Running`, the tick starting
/// at cursor `c` returns `Running` with the cursor parked on `k`.
pub proof fn sel_child_running_resumes(st: Seq<BtState>, c: int, k: int)
    requires
        0 <= c <= k < st.len(),
        st[k] == BtState::Running,
        forall|i: int| c <= i < k ==> st[i] == BtState::Failure,
    ensures
        sel_tick(st, c) == (BtState::Running, k),
{
    lemma_sel_tick_skips_failures(st, c, k);
}

} // verus!
