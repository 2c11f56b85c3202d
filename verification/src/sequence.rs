//! Packet identifiers: a 16-bit counter that hands out consecutive values.

use vstd::prelude::*;

verus! {

/// How many identifiers exist before the counter comes round again.
pub open spec fn sequence_space() -> nat {
    65536
}

/// The identifier handed out by the `k`-th call (counting from zero) made on
/// a generator whose next identifier is `start`.
pub open spec fn issued(start: u16, k: nat) -> u16 {
    ((start as nat + k) % sequence_space()) as u16
}

/// Source of packet identifiers.
///
/// A generator starts at zero and hands out each 16-bit value in turn,
/// wrapping to zero after 65535.  Exclusive access (`&mut`) makes each
/// increment-and-read indivisible.
pub struct SequenceGenerator {
    counter: u16,
}

impl View for SequenceGenerator {
    type V = u16;

    /// The identifier that the next call will hand out.
    closed spec fn view(&self) -> u16 {
        self.counter
    }
}

impl SequenceGenerator {
    /// A generator whose first identifier is zero.
    pub fn new() -> (generator: SequenceGenerator)
        ensures
            generator@ == 0,
    {
        SequenceGenerator { counter: 0 }
    }

    /// Hands out the current identifier and advances the counter by one,
    /// wrapping at 16 bits.
    pub fn next(&mut self) -> (number: u16)
        ensures
            number == old(self)@,
            final(self)@ == issued(old(self)@, 1),
    {
        let number: u16 = self.counter;
        self.counter = if number == u16::MAX { 0 } else { number + 1 };
        number
    }
}

/// Takes a fresh identifier from `counter`.
pub fn next_number(counter: &mut SequenceGenerator) -> (number: u16)
    ensures
        number == old(counter)@,
        final(counter)@ == issued(old(counter)@, 1),
{
    counter.next()
}

/// Calls compose: the `b`-th identifier of a generator that has made `a`
/// calls is the `a + b`-th identifier of the generator before those calls.
pub proof fn lemma_issued_compose(start: u16, a: nat, b: nat)
    ensures
        issued(issued(start, a), b) == issued(start, a + b),
{
    let m = sequence_space() as int;
    let s = start as int;
    assert(((s + a) % m + b) % m == (s + a + b) % m) by {
        vstd::arithmetic::div_mod::lemma_add_mod_noop_right(b as int, s + a, m);
        vstd::arithmetic::div_mod::lemma_add_mod_noop_right(b as int, (s + a) % m, m);
        vstd::arithmetic::div_mod::lemma_mod_twice(s + a, m);
    }
}

/// Any run of at most 65536 consecutive calls yields pairwise distinct
/// identifiers.
pub proof fn lemma_issued_distinct(start: u16, i: nat, j: nat)
    requires
        i < j,
        j - i < sequence_space(),
    ensures
        issued(start, i) != issued(start, j),
{
    let m = sequence_space() as int;
    let x = start as int + i;
    let y = start as int + j;
    if x % m == y % m {
        vstd::arithmetic::div_mod::lemma_fundamental_div_mod(x, m);
        vstd::arithmetic::div_mod::lemma_fundamental_div_mod(y, m);
        let d = y / m - x / m;
        assert(y - x == m * d) by (nonlinear_arith)
            requires
                x == m * (x / m) + x % m,
                y == m * (y / m) + y % m,
                x % m == y % m,
                d == y / m - x / m,
        ;
        assert(false) by (nonlinear_arith)
            requires
                0 < y - x < m,
                y - x == m * d,
        ;
    }
}

/// Identifiers come out in increasing order: each is one more than the one
/// before it, except that 65535 is followed by zero.
pub proof fn lemma_issued_increasing(start: u16, k: nat)
    ensures
        issued(start, k) < 65535 ==> issued(start, k + 1) == issued(start, k) + 1,
        issued(start, k) == 65535 ==> issued(start, k + 1) == 0,
{
    lemma_issued_compose(start, k, 1);
}

} // verus!
