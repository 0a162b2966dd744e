//! Side-effect actions scheduled to fire a fixed number of call frames
//! in the future.

use vstd::prelude::*;

use crate::depth::CallDepth;
use crate::values::Address;

verus! {

/// A requested mutation of caller-visible context. The host applies it;
/// this library only schedules and releases it.
#[derive(Debug, Clone, Copy, PartialEq, Eq, Structural)]
pub enum CallAction {
    /// Assign the caller address the callee observes.
    SetMessageSender(Address),
    /// Assign the owning ("this") address of the current frame.
    SetThisAddress(Address),
}

/// Actions that have reached depth zero, in the order they became ready,
/// after one advancement tick over `pending`.
pub open spec fn ripe(pending: Seq<(CallDepth, CallAction)>) -> Seq<CallAction>
    decreases pending.len(),
{
    if pending.len() == 0 {
        Seq::empty()
    } else if pending.last().0.0 == 0 {
        ripe(pending.drop_last()).push(pending.last().1)
    } else {
        ripe(pending.drop_last())
    }
}

/// Actions still waiting after one advancement tick over `pending`, each
/// with its depth decremented.
pub open spec fn aged(pending: Seq<(CallDepth, CallAction)>) -> Seq<(CallDepth, CallAction)>
    decreases pending.len(),
{
    if pending.len() == 0 {
        Seq::empty()
    } else if pending.last().0.0 == 0 {
        aged(pending.drop_last())
    } else {
        aged(pending.drop_last()).push(
            (CallDepth((pending.last().0.0 - 1) as u8), pending.last().1),
        )
    }
}

/// How many times `a` occurs in a drained-action sequence.
pub open spec fn count_actions(s: Seq<CallAction>, a: CallAction) -> nat
    decreases s.len(),
{
    if s.len() == 0 {
        0
    } else {
        count_actions(s.drop_last(), a) + if s.last() == a {
            1nat
        } else {
            0nat
        }
    }
}

/// How many times `a` occurs among the waiting pairs, at any depth.
pub open spec fn count_pending(p: Seq<(CallDepth, CallAction)>, a: CallAction) -> nat
    decreases p.len(),
{
    if p.len() == 0 {
        0
    } else {
        count_pending(p.drop_last(), a) + if p.last().1 == a {
            1nat
        } else {
            0nat
        }
    }
}

/// The waiting pairs left after `k` advancement ticks over `p`.
pub open spec fn pending_after(p: Seq<(CallDepth, CallAction)>, k: nat) -> Seq<
    (CallDepth, CallAction),
>
    decreases k,
{
    if k == 0 {
        p
    } else {
        aged(pending_after(p, (k - 1) as nat))
    }
}

/// Every action moved from `p` to the immediate list over `k` advancement
/// ticks, in release order.
pub open spec fn released(p: Seq<(CallDepth, CallAction)>, k: nat) -> Seq<CallAction>
    decreases k,
{
    if k == 0 {
        Seq::empty()
    } else {
        released(p, (k - 1) as nat) + ripe(pending_after(p, (k - 1) as nat))
    }
}

proof fn lemma_count_actions_add(s: Seq<CallAction>, t: Seq<CallAction>, a: CallAction)
    ensures
        count_actions(s + t, a) == count_actions(s, a) + count_actions(t, a),
    decreases t.len(),
{
    if t.len() == 0 {
        assert(s + t =~= s);
    } else {
        lemma_count_actions_add(s, t.drop_last(), a);
        assert((s + t).drop_last() =~= s + t.drop_last());
        assert((s + t).last() == t.last());
    }
}

proof fn lemma_ripe_aged_absent(p: Seq<(CallDepth, CallAction)>, a: CallAction)
    requires
        count_pending(p, a) == 0,
    ensures
        count_actions(ripe(p), a) == 0,
        count_pending(aged(p), a) == 0,
    decreases p.len(),
{
    if p.len() > 0 {
        lemma_ripe_aged_absent(p.drop_last(), a);
        if p.last().0.0 == 0 {
            assert(ripe(p).drop_last() =~= ripe(p.drop_last()));
            assert(ripe(p).last() == p.last().1);
        } else {
            assert(aged(p).drop_last() =~= aged(p.drop_last()));
            assert(aged(p).last().1 == p.last().1);
        }
    }
}

proof fn lemma_ripe_aged_push(p: Seq<(CallDepth, CallAction)>, e: u8, a: CallAction)
    ensures
        e == 0 ==> ripe(p.push((CallDepth(e), a))) == ripe(p).push(a),
        e == 0 ==> aged(p.push((CallDepth(e), a))) == aged(p),
        e > 0 ==> ripe(p.push((CallDepth(e), a))) == ripe(p),
        e > 0 ==> aged(p.push((CallDepth(e), a))) == aged(p).push(
            (CallDepth((e - 1) as u8), a),
        ),
{
    let p1 = p.push((CallDepth(e), a));
    assert(p1.drop_last() =~= p);
    assert(p1.last() == (CallDepth(e), a));
}

proof fn lemma_absent_stays_absent(p: Seq<(CallDepth, CallAction)>, a: CallAction, k: nat)
    requires
        count_pending(p, a) == 0,
    ensures
        count_pending(pending_after(p, k), a) == 0,
        count_actions(released(p, k), a) == 0,
    decreases k,
{
    if k > 0 {
        lemma_absent_stays_absent(p, a, (k - 1) as nat);
        lemma_ripe_aged_absent(pending_after(p, (k - 1) as nat), a);
        lemma_count_actions_add(
            released(p, (k - 1) as nat),
            ripe(pending_after(p, (k - 1) as nat)),
            a,
        );
    }
}

proof fn lemma_pushed_rides_along(p: Seq<(CallDepth, CallAction)>, e: u8, a: CallAction, k: nat)
    requires
        count_pending(p, a) == 0,
        k <= e,
    ensures
        pending_after(p.push((CallDepth(e), a)), k) == pending_after(p, k).push(
            (CallDepth((e - k) as u8), a),
        ),
        released(p.push((CallDepth(e), a)), k) == released(p, k),
    decreases k,
{
    let p1 = p.push((CallDepth(e), a));
    if k == 0 {
        assert(pending_after(p1, 0) == p1);
    } else {
        lemma_pushed_rides_along(p, e, a, (k - 1) as nat);
        lemma_ripe_aged_push(pending_after(p, (k - 1) as nat), (e - (k - 1)) as u8, a);
    }
}

/// Law: push an action `a` at depth `d` into a queue that does not hold
/// `a` anywhere. If `d` is zero, `a` is in the immediate list at once.
/// Otherwise, after each of the first `d - 1` advancement ticks nothing
/// has released `a`, after exactly `d` ticks `a` has been released exactly
/// once, and `a` is no longer waiting; so a drain of the immediate list
/// yields `a` exactly once, and yields nothing for it before that.
pub proof fn lemma_scheduled_action_fires_once(
    imm: Seq<CallAction>,
    p: Seq<(CallDepth, CallAction)>,
    d: u8,
    a: CallAction,
)
    requires
        count_actions(imm, a) == 0,
        count_pending(p, a) == 0,
    ensures
        d == 0 ==> count_actions(imm.push(a), a) == 1,
        d > 0 ==> forall|k: nat|
            k < d ==> count_actions(
                imm + #[trigger] released(p.push((CallDepth((d - 1) as u8), a)), k),
                a,
            ) == 0,
        d > 0 ==> count_actions(
            imm + released(p.push((CallDepth((d - 1) as u8), a)), d as nat),
            a,
        ) == 1,
        d > 0 ==> count_pending(
            pending_after(p.push((CallDepth((d - 1) as u8), a)), d as nat),
            a,
        ) == 0,
{
    if d == 0 {
        assert(imm.push(a).drop_last() =~= imm);
    } else {
        let e = (d - 1) as u8;
        let p1 = p.push((CallDepth(e), a));
        assert forall|k: nat| k < d implies count_actions(imm + #[trigger] released(p1, k), a)
            == 0 by {
            lemma_pushed_rides_along(p, e, a, k);
            lemma_absent_stays_absent(p, a, k);
            lemma_count_actions_add(imm, released(p, k), a);
        }
        // After exactly `d` ticks: the entry sits at depth zero just before
        // the final tick, so that tick ripens it, and it alone.
        lemma_pushed_rides_along(p, e, a, e as nat);
        let before_last = pending_after(p, e as nat);
        lemma_absent_stays_absent(p, a, e as nat);
        lemma_ripe_aged_push(before_last, 0, a);
        lemma_ripe_aged_absent(before_last, a);
        assert(released(p1, d as nat) == released(p1, e as nat) + ripe(
            pending_after(p1, e as nat),
        ));
        assert(ripe(pending_after(p1, e as nat)) == ripe(before_last).push(a));
        assert(count_actions(ripe(before_last).push(a), a) == 1) by {
            assert(ripe(before_last).push(a).drop_last() =~= ripe(before_last));
        }
        lemma_count_actions_add(released(p1, e as nat), ripe(before_last).push(a), a);
        lemma_count_actions_add(imm, released(p1, d as nat), a);
        assert(pending_after(p1, d as nat) == aged(pending_after(p1, e as nat)));
    }
}

/// Queue of scheduled [`CallAction`]s, split into those ready to fire now
/// and those still waiting for call-frame boundaries to pass.
#[derive(Debug, Clone)]
pub struct CallActions {
    /// Actions ready to be drained at the next cycle end.
    immediate: Vec<CallAction>,
    /// Actions waiting for their remaining depth to reach zero. An entry
    /// `(d, a)` becomes immediate after `d + 1` further advancement ticks.
    pending: Vec<(CallDepth, CallAction)>,
}

impl CallActions {
    /// The actions ready to fire now, in arrival order.
    pub closed spec fn immediate_view(self) -> Seq<CallAction> {
        self.immediate@
    }

    /// The waiting `(depth, action)` pairs, in arrival order.
    pub closed spec fn pending_view(self) -> Seq<(CallDepth, CallAction)> {
        self.pending@
    }

    /// Create an empty queue.
    pub fn new() -> (r: CallActions)
        ensures
            r.immediate_view() == Seq::<CallAction>::empty(),
            r.pending_view() == Seq::<(CallDepth, CallAction)>::empty(),
    {
        CallActions { immediate: Vec::new(), pending: Vec::new() }
    }

    /// Insert an action to fire once `depth` more call-frame boundaries
    /// have passed: at once if `depth` is zero, else after `depth` calls
    /// to [`CallActions::track`].
    pub fn push(&mut self, depth: CallDepth, action: CallAction)
        ensures
            depth.0 == 0 ==> {
                &&& final(self).immediate_view() == old(self).immediate_view().push(action)
                &&& final(self).pending_view() == old(self).pending_view()
            },
            depth.0 > 0 ==> {
                &&& final(self).immediate_view() == old(self).immediate_view()
                &&& final(self).pending_view() == old(self).pending_view().push(
                    (CallDepth((depth.0 - 1) as u8), action),
                )
            },
    {
        if depth == CallDepth::current() {
            self.immediate.push(action);
        } else {
            self.pending.push((depth.decrement(), action));
        }
    }

    /// Advance every pending action by one call-frame boundary: those at
    /// depth zero move to the immediate list in order; the rest wait with
    /// their depth decremented.
    pub fn track(&mut self)
        ensures
            final(self).immediate_view() == old(self).immediate_view() + ripe(
                old(self).pending_view(),
            ),
            final(self).pending_view() == aged(old(self).pending_view()),
    {
        let ghost orig_immediate = self.immediate@;
        let ghost orig_pending = self.pending@;
        let mut pending_actions: Vec<(CallDepth, CallAction)> = Vec::new();
        let n = self.pending.len();
        let mut i: usize = 0;
        while i < n
            invariant
                i <= n,
                n == orig_pending.len(),
                self.pending@ == orig_pending,
                self.immediate@ == orig_immediate + ripe(orig_pending.take(i as int)),
                pending_actions@ == aged(orig_pending.take(i as int)),
            decreases n - i,
        {
            let (depth, action) = self.pending[i];
            proof {
                assert(orig_pending.take(i + 1).drop_last() == orig_pending.take(i as int));
                assert(orig_pending.take(i + 1).last() == orig_pending[i as int]);
            }
            if depth == CallDepth::current() {
                self.immediate.push(action);
            } else {
                pending_actions.push((depth.decrement(), action));
            }
            i = i + 1;
        }
        proof {
            assert(orig_pending.take(n as int) == orig_pending);
        }
        self.pending = pending_actions;
    }

    /// Remove and return the actions ready to fire now, in arrival order,
    /// leaving the immediate list empty.
    pub fn take_immediate(&mut self) -> (r: Vec<CallAction>)
        ensures
            r@ == old(self).immediate_view(),
            final(self).immediate_view() == Seq::<CallAction>::empty(),
            final(self).pending_view() == old(self).pending_view(),
    {
        let mut out: Vec<CallAction> = Vec::new();
        let n = self.immediate.len();
        let mut i: usize = 0;
        while i < n
            invariant
                i <= n,
                n == self.immediate.len(),
                self.immediate@ == old(self).immediate_view(),
                self.pending@ == old(self).pending_view(),
                out@ == self.immediate@.take(i as int),
            decreases n - i,
        {
            out.push(self.immediate[i]);
            i = i + 1;
        }
        proof {
            assert(self.immediate@.take(n as int) == self.immediate@);
        }
        self.immediate = Vec::new();
        out
    }
}

impl Default for CallActions {
    /// The default queue is empty.
    fn default() -> (r: CallActions)
        ensures
            r.immediate_view() == Seq::<CallAction>::empty(),
            r.pending_view() == Seq::<(CallDepth, CallAction)>::empty(),
    {
        CallActions::new()
    }
}

} // verus!
