//! Delivery of each event to every registered consumer.
//!
//! Each consumer owns the receiving end of an unbounded channel, so sending
//! never waits on it. A consumer whose receiving end is gone has stopped for
//! good: it is removed from the fanout and later events skip it.
use vstd::prelude::*;

use crate::event::Event;
use std::sync::mpsc::Sender;

verus! {

#[verifier::external_type_specification]
#[verifier::external_body]
#[verifier::reject_recursive_types(T)]
pub struct ExSender<T>(std::sync::mpsc::Sender<T>);

/// The events sent through a consumer's sender so far, in the order they
/// were sent.
pub uninterp spec fn queued(consumer: Sender<Event>) -> Seq<Event>;

/// Relies on `std::sync::mpsc::Sender::send`: it never blocks, and it fails
/// only when the receiving end has been dropped. On success `event` is
/// queued after everything sent before; on failure nothing is queued.
/// Whether it succeeds depends on the consumer's thread.
#[verifier::external_body]
fn deliver(consumer: &mut Sender<Event>, event: Event) -> (r: bool)
    ensures
        queued(*final(consumer)) == (if r {
            queued(*old(consumer)).push(event)
        } else {
            queued(*old(consumer))
        }),
{
    consumer.send(event).is_ok()
}

/// What each consumer of `s` has been sent.
pub open spec fn queues(s: Seq<Sender<Event>>) -> Seq<Seq<Event>> {
    s.map_values(|c: Sender<Event>| queued(c))
}

/// Each queue with `event` appended.
pub open spec fn with_event(qs: Seq<Seq<Event>>, event: Event) -> Seq<Seq<Event>> {
    qs.map_values(|q: Seq<Event>| q.push(event))
}

/// The items of `s` whose flag in `ok` is set, in their order.
pub open spec fn kept<T>(s: Seq<T>, ok: Seq<bool>) -> Seq<T>
    decreases s.len(),
{
    if s.len() == 0 {
        Seq::empty()
    } else {
        let p = kept(s.drop_last(), ok.drop_last());
        if ok.last() {
            p.push(s.last())
        } else {
            p
        }
    }
}

/// Whether `after` is what publishing `event` to the consumers `before`
/// leaves: each consumer either received `event` after everything it had
/// received before and stays, in its place in the order, or is removed;
/// `dropped` is the number removed.
pub open spec fn delivered(
    before: Seq<Sender<Event>>,
    after: Seq<Sender<Event>>,
    event: Event,
    dropped: nat,
) -> bool {
    exists|ok: Seq<bool>|
        #![trigger kept(with_event(queues(before), event), ok)]
        {
            &&& ok.len() == before.len()
            &&& queues(after) == kept(with_event(queues(before), event), ok)
            &&& dropped + after.len() == before.len()
        }
}

proof fn lemma_kept_len<T>(s: Seq<T>, ok: Seq<bool>)
    ensures
        kept(s, ok).len() <= s.len(),
    decreases s.len(),
{
    if s.len() > 0 {
        lemma_kept_len(s.drop_last(), ok.drop_last());
    }
}

/// Keeping as many items as there are keeps all of them.
proof fn lemma_kept_all<T>(s: Seq<T>, ok: Seq<bool>)
    requires
        kept(s, ok).len() == s.len(),
    ensures
        kept(s, ok) == s,
    decreases s.len(),
{
    if s.len() > 0 {
        lemma_kept_len(s.drop_last(), ok.drop_last());
        if !ok.last() {
            assert(false);
        }
        lemma_kept_all(s.drop_last(), ok.drop_last());
        assert(s.drop_last().push(s.last()) =~= s);
    }
}

/// Publishing in turn to consumers that all stay, each consumer receives
/// the events in the order they were published, none lost and none added.
pub proof fn lemma_fanout_ordering(
    s0: Seq<Sender<Event>>,
    s1: Seq<Sender<Event>>,
    s2: Seq<Sender<Event>>,
    s3: Seq<Sender<Event>>,
    e1: Event,
    e2: Event,
    e3: Event,
)
    requires
        delivered(s0, s1, e1, 0),
        delivered(s1, s2, e2, 0),
        delivered(s2, s3, e3, 0),
    ensures
        s3.len() == s0.len(),
        forall|j: int| 0 <= j < s0.len() ==> queued(#[trigger] s3[j]) == queued(s0[j]) + seq![e1, e2, e3],
{
    lemma_all_stay(s0, s1, e1);
    lemma_all_stay(s1, s2, e2);
    lemma_all_stay(s2, s3, e3);
    assert forall|j: int| 0 <= j < s0.len() implies queued(#[trigger] s3[j]) == queued(s0[j]) + seq![e1, e2, e3] by {
        assert(queued(s0[j]).push(e1).push(e2).push(e3) =~= queued(s0[j]) + seq![e1, e2, e3]);
    }
}

/// When no consumer is removed, each one received `event`.
proof fn lemma_all_stay(before: Seq<Sender<Event>>, after: Seq<Sender<Event>>, event: Event)
    requires
        delivered(before, after, event, 0),
    ensures
        after.len() == before.len(),
        forall|j: int| 0 <= j < before.len() ==> queued(#[trigger] after[j]) == queued(before[j]).push(event),
{
    let ok = choose|ok: Seq<bool>|
        {
            &&& ok.len() == before.len()
            &&& queues(after) == kept(with_event(queues(before), event), ok)
            &&& 0 + after.len() == before.len()
        };
    let w = with_event(queues(before), event);
    assert(queues(after).len() == after.len());
    lemma_kept_all(w, ok);
    assert forall|j: int| 0 <= j < before.len() implies queued(#[trigger] after[j]) == queued(before[j]).push(event) by {
        assert(queues(after)[j] == w[j]);
    }
}

/// The registered consumers of events.
pub struct Fanout {
    pub consumers: Vec<Sender<Event>>,
}

impl Fanout {
    /// A fanout to the given consumers, in their order.
    pub fn new(consumers: Vec<Sender<Event>>) -> (r: Fanout)
        ensures
            r.consumers@ == consumers@,
    {
        Fanout { consumers }
    }

    /// The number of consumers still registered.
    pub fn len(&self) -> (r: usize)
        ensures
            r == self.consumers@.len(),
    {
        self.consumers.len()
    }

    /// Settles consumer `i` once its delivery is known: one that received
    /// the event stays and the next index is `i + 1`; one that did not is
    /// removed, and the next consumer takes index `i`.
    pub fn settle(&mut self, i: usize, received: bool) -> (next: usize)
        requires
            i < old(self).consumers@.len(),
        ensures
            received ==> final(self).consumers@ == old(self).consumers@ && next == i + 1,
            !received ==> final(self).consumers@ == old(self).consumers@.remove(i as int) && next == i,
    {
        let len = self.consumers.len();
        if received {
            assert(i < len);
            i + 1
        } else {
            self.consumers.remove(i);
            i
        }
    }

    /// Sends a copy of `event` to every consumer, in registration order,
    /// and removes those whose receiving end is gone. Returns how many were
    /// removed.
    pub fn publish(&mut self, event: Event) -> (dropped: usize)
        ensures
            delivered(old(self).consumers@, final(self).consumers@, event, dropped as nat),
    {
        let ghost orig = self.consumers@;
        let ghost target = with_event(queues(orig), event);
        let total = self.consumers.len();
        proof {
            assert(target.len() == orig.len());
            assert(self.consumers@.take(0) =~= Seq::<Sender<Event>>::empty());
            assert(target.take(0) =~= Seq::<Seq<Event>>::empty());
            assert(queues(Seq::<Sender<Event>>::empty()) =~= Seq::<Seq<Event>>::empty());
        }
        let ghost mut ok: Seq<bool> = Seq::empty();
        let ghost mut j: int = 0;
        let mut i: usize = 0;
        let mut dropped: usize = 0;
        while i < self.consumers.len()
            invariant
                0 <= j <= orig.len(),
                orig.len() == total,
                target == with_event(queues(orig), event),
                target.len() == orig.len(),
                ok.len() == j,
                self.consumers@.len() == i + (orig.len() - j),
                queues(self.consumers@.take(i as int)) == kept(target.take(j), ok),
                self.consumers@.skip(i as int) == orig.skip(j),
                i == kept(target.take(j), ok).len(),
                dropped + i == j,
            decreases self.consumers@.len() - i,
        {
            let ghost before = self.consumers@;
            proof {
                assert(j < orig.len());
                assert(queues(orig)[j] == queued(orig[j]));
                assert(target[j] == queued(orig[j]).push(event));
                assert(before[i as int] == orig[j]) by {
                    assert(before.skip(i as int)[0] == orig.skip(j)[0]);
                }
            }
            let received = deliver(&mut self.consumers[i], event);
            let ghost sent = self.consumers@;
            proof {
                assert(sent == before.update(i as int, sent[i as int]));
            }
            let next = self.settle(i, received);
            proof {
                let prev = kept(target.take(j), ok);
                assert(target.take(j + 1).drop_last() =~= target.take(j));
                assert(ok.push(received).drop_last() =~= ok);
                assert(target.take(j + 1).last() == queued(orig[j]).push(event));
                assert(sent.take(i as int) =~= before.take(i as int));
                if received {
                    assert(self.consumers@.take(next as int) =~= sent.take(i as int).push(sent[i as int]));
                    assert(queues(self.consumers@.take(next as int)) =~= prev.push(queued(orig[j]).push(event)));
                    assert(self.consumers@.skip(next as int) =~= orig.skip(j + 1)) by {
                        assert(before.skip(i as int).skip(1) =~= before.skip(i + 1));
                        assert(orig.skip(j).skip(1) =~= orig.skip(j + 1));
                    }
                } else {
                    assert(self.consumers@.take(next as int) =~= before.take(i as int));
                    assert(self.consumers@.skip(next as int) =~= orig.skip(j + 1)) by {
                        assert(before.skip(i as int).skip(1) =~= before.skip(i + 1));
                        assert(orig.skip(j).skip(1) =~= orig.skip(j + 1));
                    }
                }
                ok = ok.push(received);
                j = j + 1;
            }
            if !received {
                dropped = dropped + 1;
            }
            i = next;
        }
        proof {
            assert(target.take(j) =~= target);
            assert(j == orig.len());
            assert(self.consumers@.take(i as int) =~= self.consumers@);
            assert(queues(self.consumers@) == kept(target, ok));
            assert(queues(self.consumers@).len() == self.consumers@.len());
        }
        dropped
    }
}

} // verus!
