//! Routing: a topic is a '/'-delimited byte string, and its routing key is
//! the final segment, the part after the last '/' (the whole topic when it
//! has no '/').

use vstd::prelude::*;

verus! {

/// The byte that separates topic segments: '/'.
pub const SLASH: u8 = 47;

/// The routing key of a topic: the suffix that follows the last separator,
/// or the whole topic when no separator occurs in it.
pub open spec fn last_segment(topic: Seq<u8>) -> Seq<u8>
    decreases topic.len(),
{
    if topic.len() == 0 {
        topic
    } else if topic.last() == SLASH {
        Seq::empty()
    } else {
        last_segment(topic.drop_last()).push(topic.last())
    }
}

/// Splits the topic at its last separator and returns the routing key.
pub fn route_key(topic: &[u8]) -> (r: Vec<u8>)
    ensures
        r@ == last_segment(topic@),
{
    let n = topic.len();
    let mut i = n;
    proof {
        assert(topic@.subrange(0, n as int) =~= topic@);
        assert(last_segment(topic@) + topic@.subrange(n as int, n as int) =~= last_segment(
            topic@,
        ));
    }
    while i > 0 && topic[i - 1] != SLASH
        invariant
            0 <= i <= n,
            n == topic@.len(),
            last_segment(topic@) == last_segment(topic@.subrange(0, i as int))
                + topic@.subrange(i as int, n as int),
        decreases i,
    {
        proof {
            let pre = topic@.subrange(0, i as int);
            assert(pre.drop_last() =~= topic@.subrange(0, i as int - 1));
            assert(pre.last() == topic@[i as int - 1]);
            assert(last_segment(topic@.subrange(0, i as int - 1)).push(topic@[i as int - 1])
                + topic@.subrange(i as int, n as int)
                =~= last_segment(topic@.subrange(0, i as int - 1))
                + topic@.subrange(i as int - 1, n as int));
        }
        i = i - 1;
    }
    proof {
        if i == 0 {
            assert(topic@.subrange(0, 0).len() == 0);
            assert(last_segment(topic@.subrange(0, 0)) + topic@.subrange(0, n as int)
                =~= topic@.subrange(0, n as int));
        } else {
            let pre = topic@.subrange(0, i as int);
            assert(pre.last() == topic@[i as int - 1]);
            assert(last_segment(pre) =~= Seq::<u8>::empty());
            assert(last_segment(pre) + topic@.subrange(i as int, n as int)
                =~= topic@.subrange(i as int, n as int));
        }
    }
    let mut out: Vec<u8> = Vec::new();
    let mut j = i;
    while j < n
        invariant
            i <= j <= n,
            n == topic@.len(),
            out@ == topic@.subrange(i as int, j as int),
        decreases n - j,
    {
        out.push(topic[j]);
        proof {
            assert(topic@.subrange(i as int, j as int).push(topic@[j as int])
                =~= topic@.subrange(i as int, j as int + 1));
        }
        j = j + 1;
    }
    out
}

/// The routing key that marks a power reading: the bytes of "power".
pub open spec fn power_key() -> Seq<u8> {
    seq![112u8, 111u8, 119u8, 101u8, 114u8]
}

/// Decides whether a routing key is the power sentinel.
pub fn is_power(key: &[u8]) -> (r: bool)
    ensures
        r == (key@ == power_key()),
{
    let hit = key.len() == 5
        && key[0] == 112
        && key[1] == 111
        && key[2] == 119
        && key[3] == 101
        && key[4] == 114;
    proof {
        if hit {
            assert(key@ =~= power_key());
        } else {
            assert(key@ != power_key());
        }
    }
    hit
}

} // verus!
