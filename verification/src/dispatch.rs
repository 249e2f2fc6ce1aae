//! Dispatch: one inbound message becomes one action. A message whose
//! routing key is the power sentinel yields the decoded payload text to be
//! stored; any other message yields the log line to be printed.

use vstd::prelude::*;

use crate::clock::now_utc;
use crate::decode::lossy_decode;
use crate::decode::lossy_utf8;
use crate::route::is_power;
use crate::route::last_segment;
use crate::route::power_key;
use crate::route::route_key;

verus! {

/// What handling one message asks the surrounding program to do.
#[derive(Debug, PartialEq, Eq)]
pub enum Action {
    /// Parse the decoded payload text as a reading and store it as one new
    /// row.
    Insert { text: Vec<u8> },
    /// Print the line to standard output.
    Log { line: Vec<u8> },
}

/// The mathematical form of an action, over byte sequences.
pub enum ActionModel {
    Insert { text: Seq<u8> },
    Log { line: Seq<u8> },
}

impl View for Action {
    type V = ActionModel;

    open spec fn view(&self) -> ActionModel {
        match self {
            Action::Insert { text } => ActionModel::Insert { text: text@ },
            Action::Log { line } => ActionModel::Log { line: line@ },
        }
    }
}

/// The log line for a message: "[<timestamp>] <routing key>: <payload text>".
pub open spec fn log_line(ts: Seq<u8>, key: Seq<u8>, text: Seq<u8>) -> Seq<u8> {
    seq![91u8] + ts + seq![93u8, 32u8] + key + seq![58u8, 32u8] + text
}

/// The action for a message with the given topic and payload, were it
/// handled at the given timestamp.
pub open spec fn plan_model(topic: Seq<u8>, payload: Seq<u8>, ts: Seq<u8>) -> ActionModel {
    if last_segment(topic) == power_key() {
        ActionModel::Insert { text: lossy_utf8(payload) }
    } else {
        ActionModel::Log { line: log_line(ts, last_segment(topic), lossy_utf8(payload)) }
    }
}

/// Appends the bytes of a slice to a vector.
fn push_all(out: &mut Vec<u8>, src: &[u8])
    ensures
        final(out)@ == old(out)@ + src@,
{
    let mut j: usize = 0;
    while j < src.len()
        invariant
            j <= src@.len(),
            out@ == old(out)@ + src@.subrange(0, j as int),
        decreases src@.len() - j,
    {
        out.push(src[j]);
        proof {
            assert(old(out)@ + src@.subrange(0, j as int + 1) =~= (old(out)@ + src@.subrange(
                0,
                j as int,
            )).push(src@[j as int]));
        }
        j = j + 1;
    }
    proof {
        assert(src@.subrange(0, src@.len() as int) =~= src@);
    }
}

/// Builds the log line for a routing key and a decoded payload text at a
/// timestamp.
pub fn format_log_line(ts: &[u8], key: &[u8], text: &[u8]) -> (r: Vec<u8>)
    ensures
        r@ == log_line(ts@, key@, text@),
{
    let mut line: Vec<u8> = Vec::new();
    line.push(91);
    push_all(&mut line, ts);
    line.push(93);
    line.push(32);
    push_all(&mut line, key);
    line.push(58);
    line.push(32);
    push_all(&mut line, text);
    proof {
        assert(line@ =~= log_line(ts@, key@, text@));
    }
    line
}

/// Decides what to do with one message, were it handled at the given
/// timestamp: a power reading is stored, anything else is logged.
pub fn plan(topic: &[u8], payload: &[u8], ts: &[u8]) -> (r: Action)
    requires
        topic@.len() > 0,
    ensures
        r@ == plan_model(topic@, payload@, ts@),
{
    let key = route_key(topic);
    let text = lossy_decode(payload);
    if is_power(key.as_slice()) {
        Action::Insert { text }
    } else {
        let line = format_log_line(ts, key.as_slice(), text.as_slice());
        Action::Log { line }
    }
}

/// Decides what to do with one message, stamped with the current time: the
/// power case does not depend on the clock, the log line does.
pub fn handle_event(topic: &[u8], payload: &[u8]) -> (r: Action)
    requires
        topic@.len() > 0,
    ensures
        exists|ts: Seq<u8>| r@ == plan_model(topic@, payload@, ts),
        last_segment(topic@) == power_key() ==> r@ == (ActionModel::Insert {
            text: lossy_utf8(payload@),
        }),
{
    let ts = now_utc();
    let r = plan(topic, payload, ts.as_slice());
    proof {
        let w = ts@;
        assert(r@ == plan_model(topic@, payload@, w));
    }
    r
}

} // verus!
