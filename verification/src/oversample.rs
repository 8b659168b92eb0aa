use vstd::prelude::*;

use vstd::arithmetic::div_mod::lemma_fundamental_div_mod_converse;

verus! {

/// A stream with every element repeated `factor` times in place, adapting one
/// logical offset-bit stream to a faster transmit clock.
pub open spec fn oversampled(bits: Seq<u8>, factor: int) -> Seq<u8> {
    Seq::new((bits.len() * factor) as nat, |i: int| bits[i / factor])
}

/// Oversampling repeats values, so it preserves the 2-bit bound on the stream.
pub proof fn lemma_oversampled_bounds(bits: Seq<u8>, factor: int)
    requires
        factor >= 1,
        forall|i: int| 0 <= i < bits.len() ==> bits[i] < 4,
    ensures
        forall|i: int|
            0 <= i < oversampled(bits, factor).len() ==> oversampled(bits, factor)[i] < 4,
{
    let ov = oversampled(bits, factor);
    assert forall|i: int| 0 <= i < ov.len() implies ov[i] < 4 by {
        vstd::arithmetic::div_mod::lemma_fundamental_div_mod(i, factor);
        let j = i / factor;
        assert(0 <= j);
        assert(j < bits.len()) by (nonlinear_arith)
            requires
                i == factor * j + i % factor,
                0 <= i % factor < factor,
                i < bits.len() * factor,
                factor >= 1,
                0 <= j,
        ;
    }
}

/// `n` repeated `repeats` times.
pub fn repeater(repeats: u8, n: u8) -> (r: Vec<u8>)
    ensures
        r@ == Seq::new(repeats as nat, |i: int| n),
{
    let mut r: Vec<u8> = Vec::new();
    let mut i: usize = 0;
    while i < repeats as usize
        invariant
            i <= repeats as usize,
            r@.len() == i,
            forall|k: int| 0 <= k < i ==> r@[k] == n,
        decreases repeats as usize - i,
    {
        r.push(n);
        i = i + 1;
    }
    proof {
        assert(r@ =~= Seq::new(repeats as nat, |i: int| n));
    }
    r
}

/// One offset bit as the four repeated transmit bits of the four-times
/// oversampled profiles.
pub fn repeat4(n: u8) -> (r: Vec<u8>)
    ensures
        r@ == Seq::new(4, |i: int| n),
{
    repeater(4, n)
}

/// One offset bit passed through unchanged, for the non-oversampled profile.
pub fn repeat1(n: u8) -> (r: Vec<u8>)
    ensures
        r@ == Seq::new(1, |i: int| n),
{
    repeater(1, n)
}

/// Repeats every element of the offset stream exactly `factor` times.
pub fn oversample(bits: &Vec<u8>, factor: u8) -> (r: Vec<u8>)
    requires
        factor >= 1,
        bits@.len() * factor <= usize::MAX,
    ensures
        r@ == oversampled(bits@, factor as int),
        r@.len() == bits@.len() * factor,
{
    let mut r: Vec<u8> = Vec::new();
    let mut i: usize = 0;
    while i < bits.len()
        invariant
            i <= bits@.len(),
            factor >= 1,
            bits@.len() * factor <= usize::MAX,
            r@.len() == i * factor,
            forall|k: int| 0 <= k < r@.len() ==> r@[k] == bits@[k / (factor as int)],
        decreases bits@.len() - i,
    {
        proof {
            assert(i * factor <= bits@.len() * factor) by (nonlinear_arith)
                requires
                    i < bits@.len(),
                    factor >= 1,
            ;
        }
        let mut rep = repeater(factor, bits[i]);
        let ghost before = r@;
        r.append(&mut rep);
        proof {
            assert forall|k: int| 0 <= k < r@.len() implies r@[k] == bits@[k / (factor as int)] by {
                if k >= before.len() {
                    lemma_fundamental_div_mod_converse(
                        k,
                        factor as int,
                        i as int,
                        k - i * factor,
                    );
                }
            }
            assert((i + 1) * factor == i * factor + factor) by (nonlinear_arith);
        }
        i = i + 1;
    }
    proof {
        assert(r@ =~= oversampled(bits@, factor as int));
    }
    r
}

} // verus!
