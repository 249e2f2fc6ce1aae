//! The laws of the dispatcher, stated over the models and proved once for
//! all messages.

use vstd::prelude::*;

use crate::decode::lossy_utf8;
use crate::dispatch::log_line;
use crate::dispatch::plan_model;
use crate::dispatch::ActionModel;
use crate::route::last_segment;
use crate::route::power_key;
use crate::route::SLASH;

verus! {

/// The number of store writes that a sequence of actions asks for: one for
/// each insert, none for a log line.
pub open spec fn insert_count(actions: Seq<ActionModel>) -> nat
    decreases actions.len(),
{
    if actions.len() == 0 {
        0
    } else {
        insert_count(actions.drop_last()) + match actions.last() {
            ActionModel::Insert { .. } => 1nat,
            ActionModel::Log { .. } => 0nat,
        }
    }
}

/// Law: a message whose routing key is not the power sentinel never asks for
/// a store write; it asks for exactly one log line, and that line carries
/// the routing key and the decoded payload text.
pub proof fn lemma_non_power_message_logs(topic: Seq<u8>, payload: Seq<u8>, ts: Seq<u8>)
    requires
        topic.len() > 0,
        last_segment(topic) != power_key(),
    ensures
        plan_model(topic, payload, ts) == (ActionModel::Log {
            line: log_line(ts, last_segment(topic), lossy_utf8(payload)),
        }),
        insert_count(seq![plan_model(topic, payload, ts)]) == 0,
        log_line(ts, last_segment(topic), lossy_utf8(payload)).subrange(
            ts.len() as int + 3,
            ts.len() as int + 3 + last_segment(topic).len() as int,
        ) == last_segment(topic),
        log_line(ts, last_segment(topic), lossy_utf8(payload)).subrange(
            log_line(ts, last_segment(topic), lossy_utf8(payload)).len()
                - lossy_utf8(payload).len(),
            log_line(ts, last_segment(topic), lossy_utf8(payload)).len() as int,
        ) == lossy_utf8(payload),
{
    let a = plan_model(topic, payload, ts);
    assert(insert_count(Seq::<ActionModel>::empty()) == 0);
    assert(seq![a].drop_last() =~= Seq::<ActionModel>::empty());
    assert(insert_count(seq![a]) == 0);
    let key = last_segment(topic);
    let text = lossy_utf8(payload);
    let line = log_line(ts, key, text);
    assert(line.subrange(ts.len() as int + 3, ts.len() as int + 3 + key.len() as int) =~= key);
    assert(line.subrange(line.len() - text.len(), line.len() as int) =~= text);
}

/// Law: a message whose routing key is the power sentinel asks for exactly
/// one store write, of the decoded payload text, and for no log line.
pub proof fn lemma_power_message_inserts(topic: Seq<u8>, payload: Seq<u8>, ts: Seq<u8>)
    requires
        topic.len() > 0,
        last_segment(topic) == power_key(),
    ensures
        plan_model(topic, payload, ts) == (ActionModel::Insert { text: lossy_utf8(payload) }),
        insert_count(seq![plan_model(topic, payload, ts)]) == 1,
{
    let a = plan_model(topic, payload, ts);
    assert(insert_count(Seq::<ActionModel>::empty()) == 0);
    assert(seq![a].drop_last() =~= Seq::<ActionModel>::empty());
    assert(insert_count(seq![a]) == 1);
}

/// Law: delivery is not idempotent. Handling the same power message twice,
/// at any two timestamps, plans two store writes on top of whatever came
/// before: one new row for each delivery, with no deduplication.
pub proof fn lemma_duplicate_power_message_two_rows(
    prior: Seq<ActionModel>,
    topic: Seq<u8>,
    payload: Seq<u8>,
    ts1: Seq<u8>,
    ts2: Seq<u8>,
)
    requires
        topic.len() > 0,
        last_segment(topic) == power_key(),
    ensures
        insert_count(
            prior.push(plan_model(topic, payload, ts1)).push(plan_model(topic, payload, ts2)),
        ) == insert_count(prior) + 2,
{
    let a1 = plan_model(topic, payload, ts1);
    let a2 = plan_model(topic, payload, ts2);
    assert(a1 is Insert);
    assert(a2 is Insert);
    assert(prior.push(a1).drop_last() =~= prior);
    assert(prior.push(a1).last() == a1);
    assert(insert_count(prior.push(a1)) == insert_count(prior) + 1);
    assert(prior.push(a1).push(a2).drop_last() =~= prior.push(a1));
    assert(prior.push(a1).push(a2).last() == a2);
    assert(insert_count(prior.push(a1).push(a2)) == insert_count(prior.push(a1)) + 1);
}

/// Law: a single-segment topic routes as itself — when no separator occurs
/// in the topic, the routing key is the whole topic.
pub proof fn lemma_single_segment_topic(topic: Seq<u8>)
    requires
        forall|j: int| 0 <= j < topic.len() ==> topic[j] != SLASH,
    ensures
        last_segment(topic) == topic,
    decreases topic.len(),
{
    if topic.len() == 0 {
    } else {
        assert(forall|j: int|
            0 <= j < topic.drop_last().len() ==> topic.drop_last()[j] != SLASH);
        lemma_single_segment_topic(topic.drop_last());
        assert(last_segment(topic.drop_last()).push(topic.last()) =~= topic);
    }
}

} // verus!
