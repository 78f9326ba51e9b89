//! A source of ever larger numbers.

use vstd::prelude::*;

verus! {

/// Hands out 0, 1, 2 and so on.
pub struct Counter(usize);

impl View for Counter {
    type V = nat;

    /// The number that the next call of `next` hands out.
    closed spec fn view(&self) -> nat {
        self.0 as nat
    }
}

impl Counter {
    pub fn new() -> (counter: Self)
        ensures
            counter@ == 0,
    {
        Counter(0)
    }

    /// Hands out the current number and moves on to the one after it.
    pub fn next(&mut self) -> (seq: usize)
        requires
            old(self)@ < usize::MAX,
        ensures
            seq == old(self)@,
            final(self)@ == old(self)@ + 1,
    {
        let seq = self.0;
        self.0 += 1;
        seq
    }

    /// Whether the numbers have run out, so that `next` may not be called.
    pub fn is_exhausted(&self) -> (exhausted: bool)
        ensures
            exhausted <==> self@ >= usize::MAX,
    {
        self.0 == usize::MAX
    }
}

/// A counter hands out the numbers from zero on, each once, as long as there are any left.
pub proof fn law_counters_count(
    first: Counter,
    counter: &mut Counter,
    seq: usize,
    asked: Counter,
    exhausted: bool,
)
    requires
        call_ensures(Counter::new, (), first),
        call_ensures(Counter::next, (counter,), seq),
        call_ensures(Counter::is_exhausted, (&asked,), exhausted),
    ensures
        first@ == 0,
        seq == old(counter)@,
        final(counter)@ == seq + 1,
        exhausted <==> asked@ >= usize::MAX,
        old(counter)@ < usize::MAX ==> call_requires(Counter::next, (counter,)),
{
}

} // verus!
