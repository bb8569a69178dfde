use vstd::prelude::*;

use crate::queue_ops::{
    first_ready, is_run, outcome_reflects, run_step, step_transition, ConsumeAction, StepOutcome,
};
use crate::store::MemoryStore;

verus! {

/// The text payloads of a run's outcomes, in delivery order.
pub open spec fn delivered(outs: Seq<StepOutcome>) -> Seq<Seq<char>> {
    outs.map_values(|o: StepOutcome| o.payload@)
}

/// Every outcome of the run was decoded and processed successfully.
pub open spec fn all_succeed(outs: Seq<StepOutcome>) -> bool {
    forall|i: int| 0 <= i < outs.len() ==> (#[trigger] outs[i].decoded) && outs[i].processed
}

/// What one produce call does to the store, seen from the queue level.
pub open spec fn produced_one(
    pre: MemoryStore,
    post: MemoryStore,
    q: Seq<char>,
    text: Seq<char>,
) -> bool {
    &&& post.contents(q) == seq![text] + pre.contents(q)
    &&& forall|n: Seq<char>| n != q ==> post.contents(n) == pre.contents(n)
}

/// A chain of produce calls pushing `msgs` onto queue `q`, in order.
pub open spec fn is_production(
    states: Seq<MemoryStore>,
    q: Seq<char>,
    msgs: Seq<Seq<char>>,
) -> bool {
    &&& states.len() == msgs.len() + 1
    &&& forall|i: int|
        0 <= i < msgs.len() ==> #[trigger] produced_one(states[i], states[i + 1], q, msgs[i])
}

/// Brings one step of a run into scope.
proof fn lemma_step_at(
    trace: Seq<MemoryStore>,
    watched: Seq<Seq<char>>,
    infl: Seq<char>,
    outs: Seq<StepOutcome>,
    i: int,
)
    requires
        is_run(trace, watched, infl, outs),
        0 <= i < outs.len(),
    ensures
        step_transition(trace[i], trace[i + 1], watched, infl, outs[i]),
{
    assert(run_step(trace, watched, infl, outs, i));
}

/// The run that remains after the first step of a run.
proof fn lemma_run_tail(
    trace: Seq<MemoryStore>,
    watched: Seq<Seq<char>>,
    infl: Seq<char>,
    outs: Seq<StepOutcome>,
)
    requires
        is_run(trace, watched, infl, outs),
        outs.len() >= 1,
    ensures
        is_run(trace.drop_first(), watched, infl, outs.drop_first()),
{
    let t2 = trace.drop_first();
    let o2 = outs.drop_first();
    assert forall|i: int| 0 <= i < o2.len() implies #[trigger] run_step(
        t2,
        watched,
        infl,
        o2,
        i,
    ) by {
        lemma_step_at(trace, watched, infl, outs, i + 1);
        assert(t2[i] == trace[i + 1]);
        assert(t2[i + 1] == trace[i + 2]);
        assert(o2[i] == outs[i + 1]);
    }
}

/// Since each produce prepends at the head, a queue filled from empty by
/// producing `msgs` holds them newest first: its head-first contents are
/// the reverse of production order.
pub proof fn lemma_produce_order(states: Seq<MemoryStore>, q: Seq<char>, msgs: Seq<Seq<char>>)
    requires
        is_production(states, q, msgs),
        states[0].contents(q).len() == 0,
    ensures
        states.last().contents(q) == msgs.reverse(),
    decreases msgs.len(),
{
    if msgs.len() == 0 {
        assert(states.last() == states[0]);
        assert(states[0].contents(q) =~= msgs.reverse());
    } else {
        let shorter_states = states.drop_last();
        let shorter_msgs = msgs.drop_last();
        assert forall|i: int| 0 <= i < shorter_msgs.len() implies #[trigger] produced_one(
            shorter_states[i],
            shorter_states[i + 1],
            q,
            shorter_msgs[i],
        ) by {
            assert(produced_one(states[i], states[i + 1], q, msgs[i]));
            assert(shorter_states[i] == states[i]);
            assert(shorter_states[i + 1] == states[i + 1]);
            assert(shorter_msgs[i] == msgs[i]);
        }
        lemma_produce_order(shorter_states, q, shorter_msgs);
        let n = msgs.len() as int;
        assert(produced_one(states[n - 1], states[n], q, msgs[n - 1]));
        assert(shorter_states.last() == states[n - 1]);
        assert(states.last() == states[n]);
        assert(states.last().contents(q) =~= msgs.reverse()) by {
            assert(states[n - 1].contents(q) == shorter_msgs.reverse());
            assert(states[n].contents(q) == seq![msgs[n - 1]] + shorter_msgs.reverse());
            assert(forall|i: int|
                0 <= i < shorter_msgs.len() ==> #[trigger] shorter_msgs.reverse()[i]
                    == shorter_msgs[shorter_msgs.len() - 1 - i]);
            assert(forall|i: int|
                0 <= i < msgs.len() ==> #[trigger] msgs.reverse()[i] == msgs[msgs.len() - 1 - i]);
        }
    }
}

/// In a run that watches a single queue, every step delivers the tail
/// of that queue.
proof fn lemma_single_queue_step(
    trace: Seq<MemoryStore>,
    q: Seq<char>,
    infl: Seq<char>,
    outs: Seq<StepOutcome>,
    i: int,
)
    requires
        is_run(trace, seq![q], infl, outs),
        0 <= i < outs.len(),
    ensures
        step_transition(trace[i], trace[i + 1], seq![q], infl, outs[i]),
        outs[i].queue@ == q,
        trace[i].contents(q).len() > 0,
        outs[i].payload@ == trace[i].contents(q).last(),
{
    lemma_step_at(trace, seq![q], infl, outs, i);
    let j = choose|j: int| first_ready(trace[i], seq![q], outs[i].queue@, j);
    assert(j == 0);
}

/// Order preservation while draining one queue: a consumer watching a
/// single queue, with every message decoded and processed successfully,
/// delivers the queue's backlog oldest first — the reverse of its
/// head-first contents — and leaves the queue empty.
pub proof fn lemma_order_preservation(
    trace: Seq<MemoryStore>,
    q: Seq<char>,
    infl: Seq<char>,
    outs: Seq<StepOutcome>,
)
    requires
        is_run(trace, seq![q], infl, outs),
        all_succeed(outs),
        outs.len() == trace[0].contents(q).len(),
    ensures
        delivered(outs) == trace[0].contents(q).reverse(),
        trace.last().contents(q).len() == 0,
    decreases outs.len(),
{
    let c = trace[0].contents(q);
    if outs.len() == 0 {
        assert(delivered(outs) =~= c.reverse());
        assert(trace.last() == trace[0]);
    } else {
        lemma_single_queue_step(trace, q, infl, outs, 0);
        assert(outs[0].decoded && outs[0].processed) by {
            assert(0 <= 0 < outs.len());
        }
        assert(outs[0].action == ConsumeAction::Acknowledge);
        assert(trace[1].contents(q) == c.drop_last());
        lemma_run_tail(trace, seq![q], infl, outs);
        let t2 = trace.drop_first();
        let o2 = outs.drop_first();
        assert forall|i: int| 0 <= i < o2.len() implies (#[trigger] o2[i].decoded)
            && o2[i].processed by {
            assert(0 <= i + 1 < outs.len());
            assert(outs[i + 1].decoded && outs[i + 1].processed);
            assert(o2[i] == outs[i + 1]);
        }
        assert(all_succeed(o2));
        assert(t2[0] == trace[1]);
        lemma_order_preservation(t2, q, infl, o2);
        assert(trace.last() == t2.last());
        assert(delivered(o2) == c.drop_last().reverse());
        assert(delivered(outs).len() == c.reverse().len());
        assert forall|i: int| 0 <= i < c.len() implies delivered(outs)[i] == c.reverse()[i] by {
            assert(delivered(outs)[i] == outs[i].payload@);
            assert(c.reverse()[i] == c[c.len() - 1 - i]);
            if i == 0 {
                assert(outs[0].payload@ == c.last());
            } else {
                assert(o2[i - 1] == outs[i]);
                assert(delivered(o2)[i - 1] == o2[i - 1].payload@);
                assert(c.drop_last().reverse()[i - 1] == c.drop_last()[c.len() - 1 - i]);
                assert(c.drop_last()[c.len() - 1 - i] == c[c.len() - 1 - i]);
            }
        }
        assert(delivered(outs) =~= c.reverse());
    }
}

/// At-least-once delivery under failure: with a single message `m` on
/// the queue, a consumer whose processing fails `k` times and then
/// succeeds delivers `m` on every one of its `k + 1` iterations, the
/// message sits back on the queue before every retry — it is never
/// lost — and only after the final success has it left the queue.
pub proof fn lemma_at_least_once(
    trace: Seq<MemoryStore>,
    q: Seq<char>,
    infl: Seq<char>,
    m: Seq<char>,
    outs: Seq<StepOutcome>,
    k: int,
)
    requires
        is_run(trace, seq![q], infl, outs),
        outs.len() == k + 1,
        0 <= k,
        trace[0].contents(q) == seq![m],
        forall|i: int| 0 <= i < outs.len() ==> #[trigger] outs[i].decoded,
        forall|i: int| 0 <= i < k ==> !(#[trigger] outs[i].processed),
        outs[k].processed,
    ensures
        forall|i: int| 0 <= i <= k ==> #[trigger] outs[i].payload@ == m,
        forall|i: int| 0 <= i <= k ==> #[trigger] trace[i].contents(q) == seq![m],
        trace.last().contents(q).len() == 0,
    decreases k,
{
    lemma_single_queue_step(trace, q, infl, outs, 0);
    assert(trace[0].contents(q).last() == m);
    assert(outs[0].payload@ == m);
    assert(outs[0].decoded);
    if k == 0 {
        assert(outs[0].processed);
        assert(outs[0].action == ConsumeAction::Acknowledge);
        assert(trace[1].contents(q) == seq![m].drop_last());
        assert(trace.last() == trace[1]);
        assert(seq![m].drop_last().len() == 0);
        assert(forall|i: int| 0 <= i <= k ==> #[trigger] outs[i].payload@ == m);
        assert(forall|i: int| 0 <= i <= k ==> #[trigger] trace[i].contents(q) == seq![m]);
    } else {
        assert(!outs[0].processed);
        assert(outs[0].action == ConsumeAction::Requeue);
        assert(trace[1].contents(q) == seq![m] + seq![m].drop_last());
        assert(trace[1].contents(q) =~= seq![m]);
        lemma_run_tail(trace, seq![q], infl, outs);
        let t2 = trace.drop_first();
        let o2 = outs.drop_first();
        assert forall|i: int| 0 <= i < o2.len() implies #[trigger] o2[i].decoded by {
            assert(0 <= i + 1 < outs.len());
            assert(outs[i + 1].decoded);
            assert(o2[i] == outs[i + 1]);
        }
        assert forall|i: int| 0 <= i < k - 1 implies !(#[trigger] o2[i].processed) by {
            assert(0 <= i + 1 < k);
            assert(!outs[i + 1].processed);
            assert(o2[i] == outs[i + 1]);
        }
        assert(o2[k - 1] == outs[k]);
        assert(t2[0] == trace[1]);
        lemma_at_least_once(t2, q, infl, m, o2, k - 1);
        assert forall|i: int| 0 <= i <= k implies #[trigger] outs[i].payload@ == m by {
            if i >= 1 {
                assert(o2[i - 1].payload@ == m);
                assert(outs[i] == o2[i - 1]);
            }
        }
        assert forall|i: int| 0 <= i <= k implies #[trigger] trace[i].contents(q) == seq![m] by {
            if i >= 1 {
                assert(t2[i - 1].contents(q) == seq![m]);
                assert(trace[i] == t2[i - 1]);
            }
        }
        assert(trace.last() == t2.last());
    }
}

/// Fair draining of two queues: a consumer watching queue `a` first and
/// queue `b` second, with every message decoded and processed, delivers
/// every message of both queues — `a`'s whole backlog in its push
/// order, then `b`'s — and leaves both queues empty. Neither queue
/// starves: each backlog is finite and is worked off completely.
pub proof fn lemma_fair_draining(
    trace: Seq<MemoryStore>,
    a: Seq<char>,
    b: Seq<char>,
    infl: Seq<char>,
    outs: Seq<StepOutcome>,
)
    requires
        a != b,
        a != infl,
        b != infl,
        is_run(trace, seq![a, b], infl, outs),
        all_succeed(outs),
        outs.len() == trace[0].contents(a).len() + trace[0].contents(b).len(),
    ensures
        delivered(outs) == trace[0].contents(a).reverse() + trace[0].contents(b).reverse(),
        trace.last().contents(a).len() == 0,
        trace.last().contents(b).len() == 0,
    decreases outs.len(),
{
    let ca = trace[0].contents(a);
    let cb = trace[0].contents(b);
    if outs.len() == 0 {
        assert(delivered(outs) =~= ca.reverse() + cb.reverse());
        assert(trace.last() == trace[0]);
    } else {
        lemma_step_at(trace, seq![a, b], infl, outs, 0);
        let j = choose|j: int| first_ready(trace[0], seq![a, b], outs[0].queue@, j);
        assert(outs[0].decoded && outs[0].processed) by {
            assert(0 <= 0 < outs.len());
        }
        assert(outs[0].action == ConsumeAction::Acknowledge);
        lemma_run_tail(trace, seq![a, b], infl, outs);
        let t2 = trace.drop_first();
        let o2 = outs.drop_first();
        assert forall|i: int| 0 <= i < o2.len() implies (#[trigger] o2[i].decoded)
            && o2[i].processed by {
            assert(0 <= i + 1 < outs.len());
            assert(outs[i + 1].decoded && outs[i + 1].processed);
            assert(o2[i] == outs[i + 1]);
        }
        assert(all_succeed(o2));
        assert(t2[0] == trace[1]);
        if ca.len() > 0 {
            assert(j == 0) by {
                if j != 0 {
                    assert(trace[0].contents(seq![a, b][0]).len() == 0);
                }
            }
            assert(outs[0].queue@ == a);
            assert(outs[0].payload@ == ca.last());
            assert(trace[1].contents(a) == ca.drop_last());
            assert(trace[1].contents(b) == cb) by {
                assert(b != a && b != infl);
            }
            lemma_fair_draining(t2, a, b, infl, o2);
            assert(trace.last() == t2.last());
            let target = ca.reverse() + cb.reverse();
            assert(delivered(o2) == ca.drop_last().reverse() + cb.reverse());
            assert(delivered(outs).len() == target.len());
            assert forall|i: int| 0 <= i < outs.len() implies delivered(outs)[i] == target[i] by {
                assert(delivered(outs)[i] == outs[i].payload@);
                if i == 0 {
                    assert(outs[0].payload@ == ca.last());
                    assert(target[0] == ca.reverse()[0]);
                    assert(ca.reverse()[0] == ca[ca.len() - 1]);
                } else {
                    assert(o2[i - 1] == outs[i]);
                    assert(delivered(o2)[i - 1] == o2[i - 1].payload@);
                    let rest = ca.drop_last().reverse() + cb.reverse();
                    assert(delivered(o2)[i - 1] == rest[i - 1]);
                    if i - 1 < ca.len() - 1 {
                        assert(rest[i - 1] == ca.drop_last().reverse()[i - 1]);
                        assert(ca.drop_last().reverse()[i - 1] == ca.drop_last()[ca.len() - 1 - i]);
                        assert(ca.drop_last()[ca.len() - 1 - i] == ca[ca.len() - 1 - i]);
                        assert(target[i] == ca.reverse()[i]);
                        assert(ca.reverse()[i] == ca[ca.len() - 1 - i]);
                    } else {
                        assert(rest[i - 1] == cb.reverse()[i - ca.len()]);
                        assert(target[i] == cb.reverse()[i - ca.len()]);
                    }
                }
            }
            assert(delivered(outs) =~= target);
        } else {
            assert(outs[0].queue@ != a) by {
                if outs[0].queue@ == a {
                    assert(trace[0].contents(outs[0].queue@).len() > 0);
                }
            }
            assert(j == 1) by {
                if j == 0 {
                    assert(outs[0].queue@ == seq![a, b][0]);
                }
            }
            assert(outs[0].queue@ == b);
            assert(outs[0].payload@ == cb.last());
            assert(trace[1].contents(b) == cb.drop_last());
            assert(trace[1].contents(a) == ca);
            lemma_fair_draining(t2, a, b, infl, o2);
            assert(trace.last() == t2.last());
            let target = ca.reverse() + cb.reverse();
            assert(delivered(o2) == ca.reverse() + cb.drop_last().reverse());
            assert(ca.reverse().len() == 0);
            assert(delivered(outs).len() == target.len());
            assert forall|i: int| 0 <= i < outs.len() implies delivered(outs)[i] == target[i] by {
                assert(delivered(outs)[i] == outs[i].payload@);
                assert(target[i] == cb.reverse()[i]);
                assert(cb.reverse()[i] == cb[cb.len() - 1 - i]);
                if i == 0 {
                    assert(outs[0].payload@ == cb.last());
                } else {
                    assert(o2[i - 1] == outs[i]);
                    assert(delivered(o2)[i - 1] == o2[i - 1].payload@);
                    let rest = ca.reverse() + cb.drop_last().reverse();
                    assert(delivered(o2)[i - 1] == rest[i - 1]);
                    assert(rest[i - 1] == cb.drop_last().reverse()[i - 1]);
                    assert(cb.drop_last().reverse()[i - 1] == cb.drop_last()[cb.len() - 1 - i]);
                    assert(cb.drop_last()[cb.len() - 1 - i] == cb[cb.len() - 1 - i]);
                }
            }
            assert(delivered(outs) =~= target);
        }
    }
}

/// Malformed payload isolation: when the next message on the queue
/// cannot be decoded, that one message is dropped — not requeued — and
/// the rest of the backlog is delivered afterwards exactly as if the
/// malformed message had never been there.
pub proof fn lemma_malformed_isolation(
    trace: Seq<MemoryStore>,
    q: Seq<char>,
    infl: Seq<char>,
    outs: Seq<StepOutcome>,
)
    requires
        is_run(trace, seq![q], infl, outs),
        outs.len() >= 1,
        outs.len() == trace[0].contents(q).len(),
        !outs[0].decoded,
        all_succeed(outs.drop_first()),
    ensures
        outs[0].payload@ == trace[0].contents(q).last(),
        trace[1].contents(q) == trace[0].contents(q).drop_last(),
        delivered(outs.drop_first()) == trace[0].contents(q).drop_last().reverse(),
        trace.last().contents(q).len() == 0,
{
    lemma_single_queue_step(trace, q, infl, outs, 0);
    assert(outs[0].action == ConsumeAction::Discard);
    assert(trace[1].contents(q) == trace[0].contents(q).drop_last());
    lemma_run_tail(trace, seq![q], infl, outs);
    let t2 = trace.drop_first();
    let o2 = outs.drop_first();
    assert(t2[0] == trace[1]);
    lemma_order_preservation(t2, q, infl, o2);
    assert(trace.last() == t2.last());
}

/// Order preservation, end to end: messages produced one after another
/// onto a single empty queue and then drained by a fault-free consumer
/// come out in exactly the order they were produced.
pub proof fn lemma_produce_then_consume_order(
    states: Seq<MemoryStore>,
    trace: Seq<MemoryStore>,
    q: Seq<char>,
    infl: Seq<char>,
    msgs: Seq<Seq<char>>,
    outs: Seq<StepOutcome>,
)
    requires
        is_production(states, q, msgs),
        states[0].contents(q).len() == 0,
        trace.len() >= 1,
        trace[0] == states.last(),
        is_run(trace, seq![q], infl, outs),
        all_succeed(outs),
        outs.len() == msgs.len(),
    ensures
        delivered(outs) == msgs,
        trace.last().contents(q).len() == 0,
{
    lemma_produce_order(states, q, msgs);
    assert(trace[0].contents(q) == msgs.reverse());
    lemma_order_preservation(trace, q, infl, outs);
    assert(delivered(outs) =~= msgs) by {
        assert(delivered(outs) == msgs.reverse().reverse());
        assert(forall|i: int|
            0 <= i < msgs.len() ==> #[trigger] msgs.reverse()[i] == msgs[msgs.len() - 1 - i]);
        assert(forall|i: int|
            0 <= i < msgs.len() ==> #[trigger] msgs.reverse().reverse()[i] == msgs.reverse()[msgs.len()
                - 1 - i]);
    }
}

/// In a fault-free run over a single queue every iteration takes
/// exactly one message off it, so the backlog shrinks by one per step.
pub proof fn lemma_success_run_shrinks(
    trace: Seq<MemoryStore>,
    q: Seq<char>,
    infl: Seq<char>,
    outs: Seq<StepOutcome>,
)
    requires
        is_run(trace, seq![q], infl, outs),
        all_succeed(outs),
    ensures
        forall|i: int|
            0 <= i < trace.len() ==> #[trigger] trace[i].contents(q).len() == trace[0].contents(
                q,
            ).len() - i,
    decreases outs.len(),
{
    if outs.len() == 0 {
        assert(trace.len() == 1);
        assert forall|i: int| 0 <= i < trace.len() implies #[trigger] trace[i].contents(q).len()
            == trace[0].contents(q).len() - i by {
            assert(i == 0);
        }
    } else {
        lemma_single_queue_step(trace, q, infl, outs, 0);
        assert(outs[0].decoded && outs[0].processed) by {
            assert(0 <= 0 < outs.len());
        }
        assert(outs[0].action == ConsumeAction::Acknowledge);
        assert(trace[1].contents(q) == trace[0].contents(q).drop_last());
        lemma_run_tail(trace, seq![q], infl, outs);
        let t2 = trace.drop_first();
        let o2 = outs.drop_first();
        assert forall|i: int| 0 <= i < o2.len() implies (#[trigger] o2[i].decoded)
            && o2[i].processed by {
            assert(0 <= i + 1 < outs.len());
            assert(outs[i + 1].decoded && outs[i + 1].processed);
            assert(o2[i] == outs[i + 1]);
        }
        assert(all_succeed(o2));
        lemma_success_run_shrinks(t2, q, infl, o2);
        assert forall|i: int| 0 <= i < trace.len() implies #[trigger] trace[i].contents(q).len()
            == trace[0].contents(q).len() - i by {
            if i >= 1 {
                assert(t2[i - 1].contents(q).len() == t2[0].contents(q).len() - (i - 1));
                assert(trace[i] == t2[i - 1]);
                assert(t2[0] == trace[1]);
            }
        }
    }
}

/// When the caller's functions cannot fail — every result of the
/// deserialize function is Some, and the process function only ever
/// returns true — a run's outcomes all report success. This bridges the
/// consumer loop's reported outcomes to the drain laws above.
pub proof fn lemma_run_all_succeed<T, F: Fn(&str) -> Option<T>, G: Fn(T) -> bool>(
    deserialize_fn: F,
    process_fn: G,
    outs: Seq<StepOutcome>,
)
    requires
        forall|s: &str, r: Option<T>| call_ensures(deserialize_fn, (s,), r) ==> r is Some,
        forall|t: T, b: bool| call_ensures(process_fn, (t,), b) ==> b,
        forall|i: int|
            0 <= i < outs.len() ==> #[trigger] outcome_reflects(
                deserialize_fn,
                process_fn,
                outs[i],
            ),
    ensures
        all_succeed(outs),
{
    assert forall|i: int| 0 <= i < outs.len() implies (#[trigger] outs[i].decoded)
        && outs[i].processed by {
        assert(outcome_reflects(deserialize_fn, process_fn, outs[i]));
        if !outs[i].decoded {
            let s = choose|s: &str|
                {
                    &&& s@ == outs[i].payload@
                    &&& call_ensures(deserialize_fn, (s,), None::<T>)
                };
            assert(call_ensures(deserialize_fn, (s,), None::<T>));
            assert(false);
        } else {
            let (s, t) = choose|s: &str, t: T|
                {
                    &&& s@ == outs[i].payload@
                    &&& call_ensures(deserialize_fn, (s,), Some(t))
                    &&& call_ensures(process_fn, (t,), outs[i].processed)
                };
            assert(call_ensures(process_fn, (t,), outs[i].processed));
        }
    }
}

/// The drain laws, reached from the consumer loop's own contract: for
/// a run over a single queue whose deserialize function always answers
/// Some and whose process function always answers true, and which ran
/// until the queue was empty, the loop delivered the whole backlog,
/// oldest first — exactly production order.
pub proof fn lemma_loop_drains_in_order<T, F: Fn(&str) -> Option<T>, G: Fn(T) -> bool>(
    deserialize_fn: F,
    process_fn: G,
    trace: Seq<MemoryStore>,
    q: Seq<char>,
    infl: Seq<char>,
    outs: Seq<StepOutcome>,
)
    requires
        forall|s: &str, r: Option<T>| call_ensures(deserialize_fn, (s,), r) ==> r is Some,
        forall|t: T, b: bool| call_ensures(process_fn, (t,), b) ==> b,
        forall|i: int|
            0 <= i < outs.len() ==> #[trigger] outcome_reflects(
                deserialize_fn,
                process_fn,
                outs[i],
            ),
        is_run(trace, seq![q], infl, outs),
        trace.last().contents(q).len() == 0,
    ensures
        outs.len() == trace[0].contents(q).len(),
        delivered(outs) == trace[0].contents(q).reverse(),
{
    lemma_run_all_succeed(deserialize_fn, process_fn, outs);
    lemma_success_run_shrinks(trace, q, infl, outs);
    assert(trace.last().contents(q).len() == trace[0].contents(q).len() - outs.len()) by {
        assert(trace.last() == trace[trace.len() - 1]);
    }
    lemma_order_preservation(trace, q, infl, outs);
}

} // verus!
