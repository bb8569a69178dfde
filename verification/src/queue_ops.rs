use vstd::prelude::*;

use crate::payload::{json_text, render_json, JsonValue};
use crate::store::{is_first_hit, MemoryStore};

verus! {

/// The failure taxonomy of the queue layer. A processing failure is not
/// here: it is an ordinary return value of the caller's processing
/// function, not an error.
#[derive(Debug, PartialEq, Eq, Structural, Clone, Copy)]
pub enum QueueError {
    /// The backing store could not be reached when the connection was
    /// opened.
    Connection,
    /// A message could not be encoded to text.
    Serialization,
    /// A dequeued message could not be decoded into the expected type.
    Deserialization,
    /// A single store operation failed at the transport level.
    StoreOperation,
}

/// Answer of the consumer's failure policy for one delivered message.
#[derive(Debug, PartialEq, Eq, Structural, Clone, Copy)]
pub enum ConsumeAction {
    /// Processing reported failure: the raw payload goes back onto the
    /// producing end of its source queue.
    Requeue,
    /// Processing succeeded: the payload is removed from the in-flight
    /// list.
    Acknowledge,
    /// The payload could not be decoded: it is dropped, so that it cannot
    /// block the messages behind it.
    Discard,
}

/// The consumer's dispatch rule. `processed` only matters when `decoded`
/// holds.
pub open spec fn action_for(decoded: bool, processed: bool) -> ConsumeAction {
    if !decoded {
        ConsumeAction::Discard
    } else if processed {
        ConsumeAction::Acknowledge
    } else {
        ConsumeAction::Requeue
    }
}

/// Decides what happens to a delivered message, given whether it could
/// be decoded and whether the caller's processing function succeeded.
pub fn decide(decoded: bool, processed: bool) -> (r: ConsumeAction)
    ensures
        r == action_for(decoded, processed),
{
    if !decoded {
        ConsumeAction::Discard
    } else if processed {
        ConsumeAction::Acknowledge
    } else {
        ConsumeAction::Requeue
    }
}

/// The name of the in-flight list used for acknowledgment bookkeeping.
///
/// The list is only ever consulted when a message is acknowledged:
/// nothing here moves a message onto it when the message is taken off
/// its queue, so it does not yet guard against a crash mid-processing.
/// A message is protected by requeue-on-failure alone. This mirrors the
/// behaviour the layer is specified to have today; acknowledging a
/// message that is not on the list is deliberately a no-op.
pub open spec fn spec_inflight_list() -> Seq<char> {
    "processing_queue"@
}

/// The well-known name of the in-flight list.
pub fn inflight_list() -> (r: &'static str)
    ensures
        r@ == spec_inflight_list(),
{
    "processing_queue"
}

/// What one consumer iteration reported: where the message came from,
/// its raw text, how decoding and processing went, and the action that
/// was applied to the store.
pub struct StepOutcome {
    pub queue: String,
    pub payload: String,
    pub decoded: bool,
    pub processed: bool,
    pub action: ConsumeAction,
}

/// The outcome honestly reports the caller's functions: a decoded
/// outcome names a string equal to its payload that the deserialize
/// function maps to some value on which the process function returns
/// exactly the recorded flag; an undecodable outcome names a string the
/// deserialize function maps to None.
pub open spec fn outcome_reflects<T, F: Fn(&str) -> Option<T>, G: Fn(T) -> bool>(
    deserialize_fn: F,
    process_fn: G,
    o: StepOutcome,
) -> bool {
    &&& o.decoded ==> exists|s: &str, t: T|
        {
            &&& s@ == o.payload@
            &&& call_ensures(deserialize_fn, (s,), Some(t))
            &&& call_ensures(process_fn, (t,), o.processed)
        }
    &&& !o.decoded ==> exists|s: &str|
        {
            &&& s@ == o.payload@
            &&& call_ensures(deserialize_fn, (s,), None::<T>)
        }
}

/// `j` is the position in the watched list that a pop resolves to:
/// `queue` stands at it, and every queue listed earlier is empty.
pub open spec fn first_ready(
    pre: MemoryStore,
    watched: Seq<Seq<char>>,
    queue: Seq<char>,
    j: int,
) -> bool {
    &&& 0 <= j < watched.len()
    &&& queue == watched[j]
    &&& forall|k: int| 0 <= k < j ==> pre.contents(watched[k]).len() == 0
}

/// One consumer iteration, as a relation between the store before and
/// after it. The delivered message is the tail of the first listed
/// watched queue that is not empty; what then happens to the store is
/// fixed by the action, which itself is fixed by the decode and process
/// results.
pub open spec fn step_transition(
    pre: MemoryStore,
    post: MemoryStore,
    watched: Seq<Seq<char>>,
    inflight: Seq<char>,
    o: StepOutcome,
) -> bool {
    &&& exists|j: int| first_ready(pre, watched, o.queue@, j)
    &&& pre.contents(o.queue@).len() > 0
    &&& o.payload@ == pre.contents(o.queue@).last()
    &&& o.queue@ != inflight
    &&& o.action == action_for(o.decoded, o.processed)
    &&& (!o.decoded ==> !o.processed)
    &&& match o.action {
        ConsumeAction::Discard => {
            &&& post.contents(o.queue@) == pre.contents(o.queue@).drop_last()
            &&& forall|n: Seq<char>| n != o.queue@ ==> post.contents(n) == pre.contents(n)
        },
        ConsumeAction::Requeue => {
            &&& post.contents(o.queue@) == seq![o.payload@] + pre.contents(o.queue@).drop_last()
            &&& forall|n: Seq<char>| n != o.queue@ ==> post.contents(n) == pre.contents(n)
        },
        ConsumeAction::Acknowledge => {
            &&& post.contents(o.queue@) == pre.contents(o.queue@).drop_last()
            &&& if pre.contents(inflight).contains(o.payload@) {
                exists|i: int|
                    {
                        &&& is_first_hit(pre.contents(inflight), o.payload@, i)
                        &&& post.contents(inflight) == pre.contents(inflight).remove(i)
                    }
            } else {
                post.contents(inflight) == pre.contents(inflight)
            }
            &&& forall|n: Seq<char>|
                n != o.queue@ && n != inflight ==> post.contents(n) == pre.contents(n)
        },
    }
}

/// Step `i` of a run took the store from `trace[i]` to `trace[i + 1]`
/// and reported `outs[i]`.
pub open spec fn run_step(
    trace: Seq<MemoryStore>,
    watched: Seq<Seq<char>>,
    inflight: Seq<char>,
    outs: Seq<StepOutcome>,
    i: int,
) -> bool {
    step_transition(trace[i], trace[i + 1], watched, inflight, outs[i])
}

/// A run of the consumer: `trace` is the chain of store states, `outs`
/// what each iteration reported.
pub open spec fn is_run(
    trace: Seq<MemoryStore>,
    watched: Seq<Seq<char>>,
    inflight: Seq<char>,
    outs: Seq<StepOutcome>,
) -> bool {
    &&& trace.len() == outs.len() + 1
    &&& forall|i: int|
        0 <= i < outs.len() ==> #[trigger] run_step(trace, watched, inflight, outs, i)
}

/// Appends messages to a named queue. The store handle is passed in
/// explicitly, so that one store can be shared by producers and
/// consumers.
pub struct Producer {}

impl Producer {
    pub fn new() -> (r: Producer) {
        Producer {  }
    }

    /// Serializes the message to its canonical text encoding and pushes
    /// that text onto the producing end of the named queue. The queue
    /// grows by exactly one entry; identical messages are not
    /// deduplicated, each produce adds its own entry. Encoding a message
    /// value cannot fail and the in-process store cannot lose a push, so
    /// the result is always Ok; the error type is the one that a remote
    /// backend reports through.
    pub fn produce(&self, store: &mut MemoryStore, queue: &str, message: &JsonValue) -> (r: Result<
        (),
        QueueError,
    >)
        requires
            old(store).wf(),
            queue@.len() > 0,
        ensures
            final(store).wf(),
            r is Ok,
            final(store).contents(queue@) == seq![json_text(*message)] + old(store).contents(
                queue@,
            ),
            forall|n: Seq<char>|
                n != queue@ ==> final(store).contents(n) == old(store).contents(n),
    {
        let text = render_json(message);
        store.push_head(queue, text.as_str());
        Ok(())
    }
}

/// Drains messages from a set of named queues, deciding after each
/// delivery whether to acknowledge, requeue or discard it. The name of
/// the in-flight list it acknowledges against is caller-configurable;
/// `new` uses the well-known default.
pub struct Consumer {
    pub inflight: String,
}

impl Consumer {
    /// A consumer acknowledging against the well-known in-flight list.
    pub fn new() -> (r: Consumer)
        ensures
            r.inflight@ == spec_inflight_list(),
    {
        Consumer { inflight: inflight_list().to_owned() }
    }

    /// A consumer acknowledging against an in-flight list of the
    /// caller's choosing.
    pub fn with_inflight_list(name: &str) -> (r: Consumer)
        ensures
            r.inflight@ == name@,
    {
        Consumer { inflight: name.to_owned() }
    }

    /// One consumer iteration: take the next available message across
    /// the watched queues, decode it with the caller's function, run the
    /// caller's processing function, and apply the resulting action to
    /// the store. Returns None, leaving the store untouched, when every
    /// watched queue is empty; a remote consumer would block here
    /// instead.
    pub fn consume_step<T, F: Fn(&str) -> Option<T>, G: Fn(T) -> bool>(
        &self,
        store: &mut MemoryStore,
        queues: &Vec<String>,
        deserialize_fn: &F,
        process_fn: &G,
    ) -> (r: Option<StepOutcome>)
        requires
            old(store).wf(),
            forall|s: &str| call_requires(*deserialize_fn, (s,)),
            forall|t: T| call_requires(*process_fn, (t,)),
            forall|k: int| 0 <= k < queues@.len() ==> queues@[k]@ != self.inflight@,
        ensures
            final(store).wf(),
            match r {
                None => {
                    &&& *final(store) == *old(store)
                    &&& forall|k: int|
                        0 <= k < queues@.len() ==> old(store).contents(queues@[k]@).len() == 0
                },
                Some(o) => {
                    &&& step_transition(
                        *old(store),
                        *final(store),
                        queues.deep_view(),
                        self.inflight@,
                        o,
                    )
                    &&& outcome_reflects(*deserialize_fn, *process_fn, o)
                },
            },
    {
        let ghost pre = *old(store);
        let ghost watched = queues.deep_view();
        let popped = store.pop_any(queues);
        match popped {
            None => None,
            Some(d) => {
                let ghost mid = *store;
                proof {
                    assert(watched.len() == queues@.len());
                    assert(forall|k: int| 0 <= k < queues@.len() ==> watched[k] == queues@[k]@);
                    let j = choose|j: int|
                        {
                            &&& 0 <= j < queues@.len()
                            &&& d.queue@ == queues@[j]@
                            &&& forall|k: int|
                                0 <= k < j ==> pre.contents(queues@[k]@).len() == 0
                        };
                    assert(first_ready(pre, watched, d.queue@, j)) by {
                        assert(forall|k: int|
                            0 <= k < j ==> pre.contents(watched[k]).len() == 0);
                    }
                    assert(d.queue@ != self.inflight@);
                    assert(mid.contents(self.inflight@) == pre.contents(self.inflight@));
                }
                let decoded_value = deserialize_fn(d.payload.as_str());
                match decoded_value {
                    Some(t) => {
                        let ghost gt = t;
                        let ok = process_fn(t);
                        if ok {
                            let removed = store.remove_one(
                                self.inflight.as_str(),
                                d.payload.as_str(),
                            );
                            let o = StepOutcome {
                                queue: d.queue,
                                payload: d.payload,
                                decoded: true,
                                processed: true,
                                action: ConsumeAction::Acknowledge,
                            };
                            proof {
                                assert(store.contents(o.queue@) == mid.contents(o.queue@));
                                assert forall|n: Seq<char>|
                                    n != o.queue@ && n != self.inflight@ implies
                                    store.contents(n) == pre.contents(n) by {
                                    assert(store.contents(n) == mid.contents(n));
                                }
                                if pre.contents(self.inflight@).contains(o.payload@) {
                                    assert(removed);
                                } else {
                                    assert(!removed);
                                }
                                assert(step_transition(pre, *store, watched, self.inflight@, o));
                                assert(exists|s: &str, tt: T|
                                    {
                                        &&& s@ == o.payload@
                                        &&& call_ensures(*deserialize_fn, (s,), Some(tt))
                                        &&& call_ensures(*process_fn, (tt,), o.processed)
                                    });
                                assert(outcome_reflects(*deserialize_fn, *process_fn, o));
                            }
                            Some(o)
                        } else {
                            store.push_head(d.queue.as_str(), d.payload.as_str());
                            let o = StepOutcome {
                                queue: d.queue,
                                payload: d.payload,
                                decoded: true,
                                processed: false,
                                action: ConsumeAction::Requeue,
                            };
                            proof {
                                assert forall|n: Seq<char>| n != o.queue@ implies store.contents(
                                    n,
                                ) == pre.contents(n) by {
                                    assert(store.contents(n) == mid.contents(n));
                                }
                                assert(step_transition(pre, *store, watched, self.inflight@, o));
                                assert(exists|s: &str, tt: T|
                                    {
                                        &&& s@ == o.payload@
                                        &&& call_ensures(*deserialize_fn, (s,), Some(tt))
                                        &&& call_ensures(*process_fn, (tt,), o.processed)
                                    });
                                assert(outcome_reflects(*deserialize_fn, *process_fn, o));
                            }
                            Some(o)
                        }
                    },
                    None => {
                        let o = StepOutcome {
                            queue: d.queue,
                            payload: d.payload,
                            decoded: false,
                            processed: false,
                            action: ConsumeAction::Discard,
                        };
                        proof {
                            assert(step_transition(pre, *store, watched, self.inflight@, o));
                            assert(exists|s: &str|
                                {
                                    &&& s@ == o.payload@
                                    &&& call_ensures(*deserialize_fn, (s,), None::<T>)
                                });
                            assert(outcome_reflects(*deserialize_fn, *process_fn, o));
                        }
                        Some(o)
                    },
                }
            },
        }
    }

    /// Runs consumer iterations until every watched queue is empty or
    /// `max_steps` messages have been handled, and reports each
    /// iteration's outcome in order. A remote consumer loops forever,
    /// blocking when the queues are empty; over an in-process store the
    /// drained condition takes the place of blocking, and the step bound
    /// keeps a message that fails every time from spinning the loop
    /// without end.
    pub fn consume_multiple_queues<T, F: Fn(&str) -> Option<T>, G: Fn(T) -> bool>(
        &self,
        store: &mut MemoryStore,
        queues: &Vec<String>,
        deserialize_fn: F,
        process_fn: G,
        max_steps: usize,
    ) -> (outs: Vec<StepOutcome>)
        requires
            old(store).wf(),
            forall|s: &str| call_requires(deserialize_fn, (s,)),
            forall|t: T| call_requires(process_fn, (t,)),
            forall|k: int| 0 <= k < queues@.len() ==> queues@[k]@ != self.inflight@,
        ensures
            final(store).wf(),
            outs@.len() <= max_steps,
            exists|trace: Seq<MemoryStore>|
                {
                    &&& is_run(trace, queues.deep_view(), self.inflight@, outs@)
                    &&& trace[0] == *old(store)
                    &&& trace.last() == *final(store)
                },
            forall|i: int|
                0 <= i < outs@.len() ==> #[trigger] outcome_reflects(
                    deserialize_fn,
                    process_fn,
                    outs@[i],
                ),
            outs@.len() < max_steps ==> forall|k: int|
                0 <= k < queues@.len() ==> final(store).contents(queues@[k]@).len() == 0,
    {
        let mut outs: Vec<StepOutcome> = Vec::new();
        let ghost mut trace: Seq<MemoryStore> = seq![*store];
        let mut steps: usize = 0;
        let mut drained = false;
        while steps < max_steps
            invariant_except_break
                steps <= max_steps,
                !drained,
            invariant
                store.wf(),
                steps == outs@.len(),
                trace.len() == outs@.len() + 1,
                trace[0] == *old(store),
                trace.last() == *store,
                is_run(trace, queues.deep_view(), self.inflight@, outs@),
                forall|i: int|
                    0 <= i < outs@.len() ==> #[trigger] outcome_reflects(
                        deserialize_fn,
                        process_fn,
                        outs@[i],
                    ),
                forall|s: &str| call_requires(deserialize_fn, (s,)),
                forall|t: T| call_requires(process_fn, (t,)),
                forall|k: int| 0 <= k < queues@.len() ==> queues@[k]@ != self.inflight@,
                drained ==> forall|k: int|
                    0 <= k < queues@.len() ==> store.contents(queues@[k]@).len() == 0,
            ensures
                steps <= max_steps,
                steps < max_steps ==> drained,
            decreases max_steps - steps,
        {
            let ghost pre_store = *store;
            let r = self.consume_step(store, queues, &deserialize_fn, &process_fn);
            match r {
                Some(o) => {
                    let ghost prev_trace = trace;
                    let ghost prev_outs = outs@;
                    outs.push(o);
                    proof {
                        trace = trace.push(*store);
                        let w = queues.deep_view();
                        assert(outs@ == prev_outs.push(o));
                        assert forall|i: int| 0 <= i < outs@.len() implies #[trigger] run_step(
                            trace,
                            w,
                            self.inflight@,
                            outs@,
                            i,
                        ) by {
                            if i < prev_outs.len() {
                                assert(run_step(prev_trace, w, self.inflight@, prev_outs, i));
                                assert(prev_trace[i] == trace[i]);
                                assert(prev_trace[i + 1] == trace[i + 1]);
                                assert(prev_outs[i] == outs@[i]);
                            } else {
                                assert(trace[i] == prev_trace.last());
                                assert(prev_trace.last() == pre_store);
                                assert(trace[i + 1] == *store);
                                assert(outs@[i] == o);
                                assert(step_transition(pre_store, *store, w, self.inflight@, o));
                            }
                        }
                        assert(is_run(trace, w, self.inflight@, outs@));
                        assert forall|i: int| 0 <= i < outs@.len() implies #[trigger] outcome_reflects(
                            deserialize_fn,
                            process_fn,
                            outs@[i],
                        ) by {
                            if i < prev_outs.len() {
                                assert(outcome_reflects(deserialize_fn, process_fn, prev_outs[i]));
                                assert(prev_outs[i] == outs@[i]);
                            } else {
                                assert(outs@[i] == o);
                                assert(outcome_reflects(deserialize_fn, process_fn, o));
                            }
                        }
                    }
                    steps += 1;
                },
                None => {
                    drained = true;
                    break ;
                },
            }
        }
        outs
    }
}

} // verus!
