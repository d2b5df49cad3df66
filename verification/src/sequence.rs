use vstd::prelude::*;

verus! {

/// A cyclic source of values: it hands out the values it was made with,
/// in order, and starts over after the last one.
#[derive(Debug, PartialEq)]
pub struct Sequence<T: Copy> {
    values: Vec<T>,
    index: usize,
}

impl<T: Copy> Sequence<T> {
    /// The values that are handed out, in order.
    pub closed spec fn values(&self) -> Seq<T> {
        self.values@
    }

    /// How many values have been handed out since the last wrap: the
    /// position in `values()` that follows the one handed out last.
    pub closed spec fn position(&self) -> nat {
        self.index as nat
    }

    /// The position never runs past the end of the values.
    #[verifier::type_invariant]
    spec fn well_formed(&self) -> bool {
        self.index <= self.values.len()
    }

    /// The place in `values()` that the next call of `next` reads.
    pub open spec fn cursor(&self) -> int {
        if self.position() >= self.values().len() {
            0
        } else {
            self.position() as int
        }
    }

    /// The value that the call after the next `ahead` calls of `next` hands
    /// out.
    pub open spec fn drawn(&self, ahead: int) -> T {
        self.values()[(self.cursor() + ahead) % (self.values().len() as int)]
    }

    pub fn new(values: Vec<T>) -> (seq: Self)
        ensures
            seq.values() == values@,
            seq.position() == 0,
    {
        Self { values, index: 0 }
    }

    /// How many values the cycle has.
    pub fn len(&self) -> (n: usize)
        ensures
            n == self.values().len(),
    {
        self.values.len()
    }

    /// Hands out the value under the cursor and moves on by one place.
    /// A sequence without values has nothing to hand out.
    pub fn next(&mut self) -> (value: Option<T>)
        requires
            old(self).values().len() > 0,
        ensures
            final(self).values() == old(self).values(),
            value == Some(old(self).values()[old(self).cursor()]),
            value == Some(old(self).drawn(0)),
            final(self).position() == old(self).cursor() + 1,
            forall|ahead: int| 0 <= ahead ==> #[trigger] final(self).drawn(ahead) == old(self).drawn(
                ahead + 1,
            ),
    {
        proof {
            use_type_invariant(&*self);
        }
        let ghost n = self.values@.len() as int;
        let ghost c = self.cursor();
        proof {
            vstd::arithmetic::div_mod::lemma_small_mod(c as nat, n as nat);
        }
        if self.index >= self.values.len() {
            self.index = 0;
        }
        let result = Some(self.values[self.index]);
        self.index += 1;
        proof {
            assert forall|ahead: int| 0 <= ahead implies #[trigger] self.drawn(ahead) == old(
                self,
            ).drawn(ahead + 1) by {
                lemma_wrapped_sum(c + 1, ahead, n);
                if c + 1 < n {
                    vstd::arithmetic::div_mod::lemma_small_mod((c + 1) as nat, n as nat);
                } else {
                    vstd::arithmetic::div_mod::lemma_mod_self_0(n);
                }
            }
        }
        result
    }
}

/// Wrapping one term of a sum before the sum is wrapped changes nothing.
proof fn lemma_wrapped_sum(a: int, b: int, n: int)
    requires
        0 <= a,
        0 <= b,
        0 < n,
    ensures
        ((a % n) + b) % n == (a + b) % n,
{
    vstd::arithmetic::div_mod::lemma_add_mod_noop(a, b, n);
    vstd::arithmetic::div_mod::lemma_add_mod_noop(a % n, b, n);
    vstd::arithmetic::div_mod::lemma_mod_twice(a, n);
}

impl<T: Copy> Clone for Sequence<T> {
    /// A sequence of the same values at the same position.
    fn clone(&self) -> (copy: Self)
        ensures
            copy.values() == self.values(),
            copy.position() == self.position(),
    {
        proof {
            use_type_invariant(self);
        }
        let mut values: Vec<T> = Vec::with_capacity(self.values.len());
        let mut k: usize = 0;
        while k < self.values.len()
            invariant
                k <= self.values.len(),
                values@ == self.values@.take(k as int),
            decreases self.values.len() - k,
        {
            values.push(self.values[k]);
            assert(self.values@.take(k + 1) =~= self.values@.take(k as int).push(self.values@[k as int]));
            k += 1;
        }
        assert(self.values@.take(k as int) =~= self.values@);
        Self { values, index: self.index }
    }
}

} // verus!
