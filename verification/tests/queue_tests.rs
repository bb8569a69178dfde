use std::cell::Cell;

use workq::payload::JsonValue;
use workq::queue_ops::{decide, inflight_list, ConsumeAction, Consumer, Producer};
use workq::store::MemoryStore;

fn obj(fields: Vec<(&str, JsonValue)>) -> JsonValue {
    JsonValue::Obj(fields.into_iter().map(|(k, v)| (k.to_string(), v)).collect())
}

fn watched(names: &[&str]) -> Vec<String> {
    names.iter().map(|n| n.to_string()).collect()
}

fn parse_any(s: &str) -> Option<serde_json::Value> {
    serde_json::from_str(s).ok()
}

#[test]
fn decide_matches_policy() {
    assert_eq!(decide(false, false), ConsumeAction::Discard);
    assert_eq!(decide(false, true), ConsumeAction::Discard);
    assert_eq!(decide(true, false), ConsumeAction::Requeue);
    assert_eq!(decide(true, true), ConsumeAction::Acknowledge);
}

#[test]
fn produce_uses_exact_encoding() {
    let mut store = MemoryStore::new();
    let producer = Producer::new();
    let msg = obj(vec![("job", JsonValue::Str("parse".to_string())), ("id", JsonValue::Int(1))]);
    producer.produce(&mut store, "resumes", &msg).unwrap();
    assert_eq!(store.list_len("resumes"), 1);
    let got = store.pop_any(&watched(&["resumes"])).unwrap();
    assert_eq!(got.queue, "resumes");
    assert_eq!(got.payload, "{\"job\":\"parse\",\"id\":1}");
    // the wire text parses back with serde_json to the same value
    let as_serde: serde_json::Value = serde_json::from_str(&got.payload).unwrap();
    assert_eq!(as_serde["job"], serde_json::Value::String("parse".to_string()));
}

#[test]
fn produce_does_not_deduplicate() {
    let mut store = MemoryStore::new();
    let producer = Producer::new();
    let msg = JsonValue::Int(7);
    producer.produce(&mut store, "q", &msg).unwrap();
    producer.produce(&mut store, "q", &msg).unwrap();
    assert_eq!(store.list_len("q"), 2);
}

#[test]
fn order_preserved_without_failures() {
    let mut store = MemoryStore::new();
    let producer = Producer::new();
    for i in 0..5i64 {
        producer.produce(&mut store, "jobs", &JsonValue::Int(i)).unwrap();
    }
    let consumer = Consumer::new();
    let outs = consumer.consume_multiple_queues(
        &mut store,
        &watched(&["jobs"]),
        parse_any,
        |_v| true,
        100,
    );
    let texts: Vec<&str> = outs.iter().map(|o| o.payload.as_str()).collect();
    assert_eq!(texts, vec!["0", "1", "2", "3", "4"]);
    assert_eq!(store.list_len("jobs"), 0);
}

#[test]
fn failed_message_requeued_and_redelivered() {
    let mut store = MemoryStore::new();
    let producer = Producer::new();
    producer.produce(&mut store, "jobs", &JsonValue::Int(1)).unwrap();
    let consumer = Consumer::new();
    let failures_left = Cell::new(3u32);
    let outs = consumer.consume_multiple_queues(
        &mut store,
        &watched(&["jobs"]),
        parse_any,
        |_v| {
            if failures_left.get() > 0 {
                failures_left.set(failures_left.get() - 1);
                false
            } else {
                true
            }
        },
        100,
    );
    // three failures then one success: delivered exactly four times
    assert_eq!(outs.len(), 4);
    for o in &outs[..3] {
        assert_eq!(o.action, ConsumeAction::Requeue);
        assert_eq!(o.payload, "1");
    }
    assert_eq!(outs[3].action, ConsumeAction::Acknowledge);
    assert_eq!(outs[3].payload, "1");
    assert_eq!(store.list_len("jobs"), 0);
}

#[test]
fn acknowledging_absent_message_is_noop() {
    let mut store = MemoryStore::new();
    store.push_head(inflight_list(), "kept");
    // the message was never in the in-flight list: no error, no change
    let removed = store.remove_one(inflight_list(), "ghost");
    assert!(!removed);
    assert_eq!(store.list_len(inflight_list()), 1);
    // removing an existing entry takes exactly one occurrence
    store.push_head(inflight_list(), "kept");
    assert!(store.remove_one(inflight_list(), "kept"));
    assert_eq!(store.list_len(inflight_list()), 1);
    // and doing it again still works, then becomes a no-op
    assert!(store.remove_one(inflight_list(), "kept"));
    assert!(!store.remove_one(inflight_list(), "kept"));
    assert_eq!(store.list_len(inflight_list()), 0);
}

#[test]
fn two_queues_both_drain() {
    let mut store = MemoryStore::new();
    let producer = Producer::new();
    producer.produce(&mut store, "a", &JsonValue::Int(1)).unwrap();
    producer.produce(&mut store, "a", &JsonValue::Int(2)).unwrap();
    producer.produce(&mut store, "b", &JsonValue::Int(3)).unwrap();
    producer.produce(&mut store, "b", &JsonValue::Int(4)).unwrap();
    let consumer = Consumer::new();
    let outs = consumer.consume_multiple_queues(
        &mut store,
        &watched(&["a", "b"]),
        parse_any,
        |_v| true,
        100,
    );
    let pairs: Vec<(&str, &str)> =
        outs.iter().map(|o| (o.queue.as_str(), o.payload.as_str())).collect();
    // the first-listed queue drains first, each in push order
    assert_eq!(pairs, vec![("a", "1"), ("a", "2"), ("b", "3"), ("b", "4")]);
    assert_eq!(store.list_len("a"), 0);
    assert_eq!(store.list_len("b"), 0);
}

#[test]
fn malformed_payload_does_not_block_queue() {
    let mut store = MemoryStore::new();
    // raw garbage lands on the queue ahead of a good message
    store.push_head("jobs", "{not json");
    let producer = Producer::new();
    producer.produce(&mut store, "jobs", &JsonValue::Int(42)).unwrap();
    let consumer = Consumer::new();
    let outs = consumer.consume_multiple_queues(
        &mut store,
        &watched(&["jobs"]),
        parse_any,
        |_v| true,
        100,
    );
    assert_eq!(outs.len(), 2);
    assert_eq!(outs[0].action, ConsumeAction::Discard);
    assert_eq!(outs[0].payload, "{not json");
    assert!(!outs[0].decoded);
    assert_eq!(outs[1].action, ConsumeAction::Acknowledge);
    assert_eq!(outs[1].payload, "42");
    assert_eq!(store.list_len("jobs"), 0);
}

#[test]
fn retry_then_later_message_scenario() {
    // produce {"job":"parse","id":1} to "resumes"; processing fails on
    // the first delivery and succeeds on the second; a later message
    // {"id":2} is delivered only after that cycle completes
    let mut store = MemoryStore::new();
    let producer = Producer::new();
    let first = obj(vec![("job", JsonValue::Str("parse".to_string())), ("id", JsonValue::Int(1))]);
    producer.produce(&mut store, "resumes", &first).unwrap();

    let consumer = Consumer::new();
    let queues = watched(&["resumes"]);
    let deliveries: Cell<u32> = Cell::new(0);

    let process = |_v: serde_json::Value| {
        let n = deliveries.get();
        deliveries.set(n + 1);
        n > 0
    };

    // first delivery: fails, requeued
    let step1 = consumer
        .consume_step(&mut store, &queues, &parse_any, &process)
        .unwrap();
    assert_eq!(step1.payload, "{\"job\":\"parse\",\"id\":1}");
    assert_eq!(step1.action, ConsumeAction::Requeue);
    assert_eq!(store.list_len("resumes"), 1);

    // a second message arrives behind the retry
    let second = obj(vec![("id", JsonValue::Int(2))]);
    producer.produce(&mut store, "resumes", &second).unwrap();

    // second delivery: the retried message again, now succeeding
    let step2 = consumer
        .consume_step(&mut store, &queues, &parse_any, &process)
        .unwrap();
    assert_eq!(step2.payload, "{\"job\":\"parse\",\"id\":1}");
    assert_eq!(step2.action, ConsumeAction::Acknowledge);
    assert_eq!(deliveries.get(), 2);

    // only now is the later message delivered
    let step3 = consumer
        .consume_step(&mut store, &queues, &parse_any, &process)
        .unwrap();
    assert_eq!(step3.payload, "{\"id\":2}");
    assert_eq!(step3.action, ConsumeAction::Acknowledge);

    // and the queue is drained
    assert!(consumer
        .consume_step(&mut store, &queues, &parse_any, &process)
        .is_none());
    assert_eq!(store.list_len("resumes"), 0);
}

#[test]
fn always_failing_message_is_never_lost() {
    let mut store = MemoryStore::new();
    let producer = Producer::new();
    producer.produce(&mut store, "jobs", &JsonValue::Int(9)).unwrap();
    let consumer = Consumer::new();
    // processing never succeeds: the step bound stops the loop, and the
    // message is back on the queue every time rather than dropped
    let outs = consumer.consume_multiple_queues(
        &mut store,
        &watched(&["jobs"]),
        parse_any,
        |_v| false,
        5,
    );
    assert_eq!(outs.len(), 5);
    for o in &outs {
        assert_eq!(o.action, ConsumeAction::Requeue);
        assert_eq!(o.payload, "9");
    }
    assert_eq!(store.list_len("jobs"), 1);
}

#[test]
fn empty_queues_deliver_nothing() {
    let mut store = MemoryStore::new();
    let consumer = Consumer::new();
    assert!(consumer
        .consume_step(&mut store, &watched(&["a", "b"]), &parse_any, &|_v: serde_json::Value| true)
        .is_none());
    assert_eq!(store.list_len("a"), 0);
    assert!(store.pop_any(&watched(&["nowhere"])).is_none());
}

#[test]
fn custom_inflight_list_is_respected() {
    let mut store = MemoryStore::new();
    store.push_head("acks", "5");
    let producer = Producer::new();
    producer.produce(&mut store, "jobs", &JsonValue::Int(5)).unwrap();
    let consumer = Consumer::with_inflight_list("acks");
    let outs = consumer.consume_multiple_queues(
        &mut store,
        &watched(&["jobs"]),
        parse_any,
        |_v| true,
        10,
    );
    assert_eq!(outs.len(), 1);
    assert_eq!(outs[0].action, ConsumeAction::Acknowledge);
    // the acknowledgment removed the payload from the caller's list,
    // and left the default well-known list alone
    assert_eq!(store.list_len("acks"), 0);
    assert_eq!(store.list_len(inflight_list()), 0);
}
