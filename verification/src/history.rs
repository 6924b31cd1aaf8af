//! Bounded histories of samples for charting.

use vstd::prelude::*;

verus! {

/// Number of samples a history retains.
pub const HISTORY_CAPACITY: usize = 60;

/// The last `n` elements of `s`, or all of `s` when it is shorter.
pub open spec fn last_n<T>(s: Seq<T>, n: nat) -> Seq<T> {
    if s.len() <= n {
        s
    } else {
        s.subrange(s.len() - n, s.len() as int)
    }
}

/// A first-in, first-out window over the most recent samples.
///
/// The window never holds more than [`HISTORY_CAPACITY`] samples; a push
/// into a full window drops the oldest sample first.
pub struct History {
    samples: Vec<u64>,
}

impl View for History {
    type V = Seq<u64>;

    closed spec fn view(&self) -> Seq<u64> {
        self.samples@
    }
}

impl History {
    #[verifier::type_invariant]
    spec fn bounded(&self) -> bool {
        self.samples@.len() <= HISTORY_CAPACITY
    }

    /// An empty history.
    pub fn new() -> (h: History)
        ensures
            h@ == Seq::<u64>::empty(),
    {
        History { samples: Vec::new() }
    }

    /// A history holding the single sample `value`.
    pub fn seeded(value: u64) -> (h: History)
        ensures
            h@ == seq![value],
    {
        let mut samples: Vec<u64> = Vec::new();
        samples.push(value);
        History { samples }
    }

    /// A full history in which every sample is `value`.
    pub fn filled(value: u64) -> (h: History)
        ensures
            h@ == Seq::new(HISTORY_CAPACITY as nat, |i: int| value),
    {
        let mut samples: Vec<u64> = Vec::new();
        let mut i: usize = 0;
        while i < HISTORY_CAPACITY
            invariant
                i <= HISTORY_CAPACITY,
                samples@ == Seq::new(i as nat, |j: int| value),
            decreases HISTORY_CAPACITY - i,
        {
            samples.push(value);
            i += 1;
        }
        History { samples }
    }

    /// The samples, oldest first.
    pub fn samples(&self) -> (v: &Vec<u64>)
        ensures
            v@ == self@,
            v@.len() <= HISTORY_CAPACITY,
    {
        proof {
            use_type_invariant(self);
        }
        &self.samples
    }

    /// Number of samples held, never more than [`HISTORY_CAPACITY`].
    pub fn len(&self) -> (n: usize)
        ensures
            n == self@.len(),
            n <= HISTORY_CAPACITY,
    {
        proof {
            use_type_invariant(self);
        }
        self.samples.len()
    }

    /// Appends `value`, dropping the oldest sample when the window is full.
    pub fn push(&mut self, value: u64)
        ensures
            final(self)@ == last_n(old(self)@.push(value), HISTORY_CAPACITY as nat),
    {
        proof {
            use_type_invariant(&*self);
        }
        let n: usize = self.samples.len();
        let start: usize = if n >= HISTORY_CAPACITY { 1 } else { 0 };
        let mut kept: Vec<u64> = Vec::new();
        let mut i: usize = start;
        while i < n
            invariant
                start <= i <= n,
                n == self.samples@.len(),
                kept@ == self.samples@.subrange(start as int, i as int),
            decreases n - i,
        {
            kept.push(self.samples[i]);
            i += 1;
        }
        kept.push(value);
        self.samples = kept;
    }
}

impl Clone for History {
    fn clone(&self) -> (h: History)
        ensures
            h@ == self@,
    {
        proof {
            use_type_invariant(self);
        }
        let samples = self.samples.clone();
        assert(samples@ =~= self.samples@);
        History { samples }
    }
}

/// The history reached from `start` by pushing the samples of `pushed` in order.
pub open spec fn after_pushes(start: Seq<u64>, pushed: Seq<u64>) -> Seq<u64>
    decreases pushed.len(),
{
    if pushed.len() == 0 {
        start
    } else {
        last_n(after_pushes(start, pushed.drop_last()).push(pushed.last()), HISTORY_CAPACITY as nat)
    }
}

/// A bounded history is the tail of everything it was ever given: pushing
/// `pushed` onto a history that holds `start` leaves the last
/// [`HISTORY_CAPACITY`] samples of `start + pushed`, in arrival order.
pub proof fn lemma_pushes_keep_tail(start: Seq<u64>, pushed: Seq<u64>)
    requires
        start.len() <= HISTORY_CAPACITY,
    ensures
        after_pushes(start, pushed) == last_n(start + pushed, HISTORY_CAPACITY as nat),
    decreases pushed.len(),
{
    if pushed.len() == 0 {
        assert(start + pushed =~= start);
    } else {
        let front = pushed.drop_last();
        lemma_pushes_keep_tail(start, front);
        assert(start + pushed =~= (start + front).push(pushed.last()));
        assert(last_n(last_n(start + front, HISTORY_CAPACITY as nat).push(pushed.last()), HISTORY_CAPACITY as nat)
            =~= last_n((start + front).push(pushed.last()), HISTORY_CAPACITY as nat));
    }
}

/// After at least [`HISTORY_CAPACITY`] pushes a history holds exactly the
/// last [`HISTORY_CAPACITY`] pushed samples, whatever it held before.
pub proof fn lemma_history_bound(start: Seq<u64>, pushed: Seq<u64>)
    requires
        start.len() <= HISTORY_CAPACITY,
        pushed.len() >= HISTORY_CAPACITY,
    ensures
        after_pushes(start, pushed).len() == HISTORY_CAPACITY,
        after_pushes(start, pushed) == pushed.subrange(
            pushed.len() - HISTORY_CAPACITY,
            pushed.len() as int,
        ),
{
    lemma_pushes_keep_tail(start, pushed);
    assert(last_n(start + pushed, HISTORY_CAPACITY as nat) =~= pushed.subrange(
        pushed.len() - HISTORY_CAPACITY,
        pushed.len() as int,
    ));
}

} // verus!
