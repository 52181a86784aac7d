use vstd::prelude::*;

use std::collections::VecDeque;

use crate::morse::{encode, encode_byte, encode_bytes, lemma_encode_concat, MorseCode};

verus! {

/// Something that accepts Morse symbols one at a time, in order.
///
/// `queue_code` is the one primitive; `queue_char` and `queue_string`
/// encode input and hand the resulting symbols to it.
pub trait Queue {
    /// The symbols accepted so far, oldest first.
    spec fn queued(&self) -> Seq<MorseCode>;

    /// Appends one symbol.
    fn queue_code(&mut self, code: MorseCode)
        ensures
            final(self).queued() == old(self).queued().push(code),
    ;

    /// Encodes one byte and appends its symbols.
    fn queue_char(&mut self, c: u8)
        ensures
            final(self).queued() == old(self).queued() + encode_byte(c),
    {
        let codes = encode(c);
        let mut j: usize = 0;
        while j < codes.len()
            invariant
                j <= codes@.len(),
                codes@ == encode_byte(c),
                self.queued() == old(self).queued() + codes@.take(j as int),
            decreases codes@.len() - j,
        {
            self.queue_code(codes[j]);
            proof {
                assert(codes@.take(j as int).push(codes@[j as int]) =~= codes@.take(j + 1));
                assert(old(self).queued() + codes@.take(j + 1) =~= (old(self).queued()
                    + codes@.take(j as int)).push(codes@[j as int]));
            }
            j = j + 1;
        }
        proof {
            assert(codes@.take(j as int) =~= codes@);
        }
    }

    /// Encodes a whole message and appends its symbols.
    fn queue_string(&mut self, s: &[u8])
        ensures
            final(self).queued() == old(self).queued() + encode_bytes(s@),
    {
        let mut i: usize = 0;
        while i < s.len()
            invariant
                i <= s@.len(),
                self.queued() == old(self).queued() + encode_bytes(s@.take(i as int)),
            decreases s@.len() - i,
        {
            self.queue_char(s[i]);
            proof {
                assert(s@.take(i + 1).drop_last() =~= s@.take(i as int));
                assert(old(self).queued() + encode_bytes(s@.take(i + 1)) =~= old(self).queued()
                    + encode_bytes(s@.take(i as int)) + encode_byte(s@[i as int]));
            }
            i = i + 1;
        }
        proof {
            assert(s@.take(i as int) =~= s@);
        }
    }
}

/// A plain buffer collects the symbols handed to it.
impl Queue for Vec<MorseCode> {
    open spec fn queued(&self) -> Seq<MorseCode> {
        self@
    }

    fn queue_code(&mut self, code: MorseCode) {
        self.push(code);
    }
}

/// Two messages handed over one after the other, each as a whole, leave the
/// symbols of the first followed by those of the second: the same symbols as
/// the two messages sent as one, with nothing of either in between the other.
pub proof fn lemma_messages_not_interleaved(queued: Seq<MorseCode>, a: Seq<u8>, b: Seq<u8>)
    ensures
        ({
            let all = queued + encode_bytes(a) + encode_bytes(b);
            let n = queued.len() as int;
            let la = encode_bytes(a).len() as int;
            let lb = encode_bytes(b).len() as int;
            &&& all == queued + encode_bytes(a + b)
            &&& all.subrange(n, n + la) == encode_bytes(a)
            &&& all.subrange(n + la, n + la + lb) == encode_bytes(b)
        }),
{
    lemma_encode_concat(a, b);
    let all = queued + encode_bytes(a) + encode_bytes(b);
    let n = queued.len() as int;
    let la = encode_bytes(a).len() as int;
    let lb = encode_bytes(b).len() as int;
    assert(all =~= queued + encode_bytes(a + b));
    assert(all.subrange(n, n + la) =~= encode_bytes(a));
    assert(all.subrange(n + la, n + la + lb) =~= encode_bytes(b));
}

/// A bounded first-in first-out buffer of symbols, with a capacity fixed when
/// it is made.
///
/// A producer that finds it full has to wait for the consumer to take a
/// symbol; a consumer that finds it empty has to wait for a producer.
pub struct SymbolQueue {
    buf: VecDeque<MorseCode>,
    capacity: usize,
}

impl View for SymbolQueue {
    type V = Seq<MorseCode>;

    /// The symbols held, oldest first.
    closed spec fn view(&self) -> Seq<MorseCode> {
        self.buf@
    }
}

impl SymbolQueue {
    /// The fixed number of symbols the queue can hold.
    pub closed spec fn cap(&self) -> nat {
        self.capacity as nat
    }

    /// The queue never holds more symbols than its capacity.
    pub open spec fn wf(&self) -> bool {
        self@.len() <= self.cap()
    }

    /// An empty queue that holds at most `capacity` symbols.
    pub fn new(capacity: usize) -> (r: SymbolQueue)
        ensures
            r.wf(),
            r@ == Seq::<MorseCode>::empty(),
            r.cap() == capacity,
    {
        SymbolQueue { buf: VecDeque::new(), capacity }
    }

    /// The number of symbols the queue can hold.
    pub fn capacity(&self) -> (r: usize)
        ensures
            r == self.cap(),
    {
        self.capacity
    }

    /// The number of symbols held.
    pub fn len(&self) -> (r: usize)
        ensures
            r == self@.len(),
    {
        self.buf.len()
    }

    /// Whether no symbol is held.
    pub fn is_empty(&self) -> (r: bool)
        ensures
            r == (self@.len() == 0),
    {
        self.buf.len() == 0
    }

    /// Whether an enqueue would have to wait.
    pub fn is_full(&self) -> (r: bool)
        requires
            self.wf(),
        ensures
            r == (self@.len() == self.cap()),
    {
        self.buf.len() == self.capacity
    }

    /// Appends `code` if there is room and says whether it did; a full queue
    /// is left as it was, and the producer must wait and try again.
    pub fn try_enqueue(&mut self, code: MorseCode) -> (r: bool)
        requires
            old(self).wf(),
        ensures
            final(self).wf(),
            final(self).cap() == old(self).cap(),
            r == (old(self)@.len() < old(self).cap()),
            final(self)@ == enqueue_step(old(self)@, old(self).cap(), code),
    {
        if self.buf.len() < self.capacity {
            self.buf.push_back(code);
            true
        } else {
            false
        }
    }

    /// Removes and returns the oldest symbol, or `None` when the queue is
    /// empty and the consumer must wait.
    pub fn try_dequeue(&mut self) -> (r: Option<MorseCode>)
        requires
            old(self).wf(),
        ensures
            final(self).wf(),
            final(self).cap() == old(self).cap(),
            r == (if old(self)@.len() == 0 {
                None
            } else {
                Some(old(self)@[0])
            }),
            final(self)@ == dequeue_step(old(self)@),
    {
        self.buf.pop_front()
    }
}

/// The contents after one enqueue of `code` on a queue of capacity `cap`.
pub open spec fn enqueue_step(q: Seq<MorseCode>, cap: nat, code: MorseCode) -> Seq<MorseCode> {
    if q.len() < cap {
        q.push(code)
    } else {
        q
    }
}

/// The contents after one dequeue.
pub open spec fn dequeue_step(q: Seq<MorseCode>) -> Seq<MorseCode> {
    if q.len() == 0 {
        q
    } else {
        q.drop_first()
    }
}

/// The contents after enqueuing `items` one by one.
pub open spec fn enqueue_run(q: Seq<MorseCode>, cap: nat, items: Seq<MorseCode>) -> Seq<
    MorseCode,
>
    decreases items.len(),
{
    if items.len() == 0 {
        q
    } else {
        enqueue_run(enqueue_step(q, cap, items[0]), cap, items.drop_first())
    }
}

/// The symbols returned by `n` dequeues in a row, in the order they come out.
pub open spec fn dequeue_run(q: Seq<MorseCode>, n: nat) -> Seq<MorseCode>
    decreases n,
{
    if n == 0 || q.len() == 0 {
        Seq::empty()
    } else {
        seq![q[0]].add(dequeue_run(dequeue_step(q), (n - 1) as nat))
    }
}

/// Enqueuing symbols into a queue with room for all of them appends them in
/// order, none dropped.
pub proof fn lemma_enqueue_run(q: Seq<MorseCode>, cap: nat, items: Seq<MorseCode>)
    requires
        q.len() + items.len() <= cap,
    ensures
        enqueue_run(q, cap, items) == q + items,
    decreases items.len(),
{
    if items.len() == 0 {
        assert(q + items =~= q);
    } else {
        lemma_enqueue_run(q.push(items[0]), cap, items.drop_first());
        assert(q.push(items[0]) + items.drop_first() =~= q + items);
    }
}

/// Dequeuing as many symbols as a queue holds returns all of them, oldest
/// first, and leaves it empty.
pub proof fn lemma_dequeue_run(q: Seq<MorseCode>)
    ensures
        dequeue_run(q, q.len()) == q,
    decreases q.len(),
{
    if q.len() > 0 {
        lemma_dequeue_run(q.drop_first());
        assert(seq![q[0]].add(q.drop_first()) =~= q);
    }
}

/// First in, first out: `n` enqueues into an empty queue with room for them,
/// followed by `n` dequeues, return the symbols in the order they went in.
pub proof fn lemma_fifo(cap: nat, items: Seq<MorseCode>)
    requires
        items.len() <= cap,
    ensures
        dequeue_run(enqueue_run(Seq::empty(), cap, items), items.len()) == items,
{
    lemma_enqueue_run(Seq::empty(), cap, items);
    assert(Seq::<MorseCode>::empty() + items =~= items);
    lemma_dequeue_run(items);
}

/// An enqueue never takes a queue past its capacity, and one made at capacity
/// changes nothing.
pub proof fn lemma_capacity_bound(q: Seq<MorseCode>, cap: nat, code: MorseCode)
    requires
        q.len() <= cap,
    ensures
        enqueue_step(q, cap, code).len() <= cap,
        q.len() == cap ==> enqueue_step(q, cap, code) == q,
{
}

} // verus!
