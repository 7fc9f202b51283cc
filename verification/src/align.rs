//! Deriving the alignment that a runtime address actually offers.
//!
//! The alignment of a memory location is a property of the concrete address,
//! not of any type: it is the largest power of two that evenly divides the
//! address.  A buffer embedded at an arbitrary offset inside an enclosing
//! structure can therefore offer less alignment than its element type needs,
//! and the value must be recomputed from the live address on every use.

use vstd::prelude::*;
use vstd::arithmetic::power2::is_pow2;
use vstd::arithmetic::div_mod::{lemma_fundamental_div_mod, lemma_mod_multiples_basic};

verus! {

/// The alignment offered by the address `addr`: the largest power of two
/// that evenly divides it.  An address with a low bit set offers only byte
/// alignment; each further trailing zero bit doubles the guarantee.
/// The value for address zero is arbitrary; no allocation lives there.
pub open spec fn addr_alignment(addr: nat) -> nat
    recommends
        addr > 0,
    decreases addr,
{
    if addr == 0 {
        1
    } else if addr % 2 == 1 {
        1
    } else {
        2 * addr_alignment(addr / 2)
    }
}

/// The derived alignment is at least byte alignment.
pub proof fn lemma_addr_alignment_pos(addr: nat)
    ensures
        addr_alignment(addr) >= 1,
    decreases addr,
{
    if addr != 0 && addr % 2 == 0 {
        lemma_addr_alignment_pos(addr / 2);
    }
}

/// The derived alignment never exceeds the address itself.
pub proof fn lemma_addr_alignment_le(addr: nat)
    requires
        addr > 0,
    ensures
        addr_alignment(addr) <= addr,
    decreases addr,
{
    if addr % 2 == 0 {
        lemma_addr_alignment_le(addr / 2);
    }
}

/// The derived alignment is a power of two and evenly divides the address.
pub proof fn lemma_addr_alignment_divides(addr: nat)
    requires
        addr > 0,
    ensures
        is_pow2(addr_alignment(addr) as int),
        addr % addr_alignment(addr) == 0,
    decreases addr,
{
    reveal(is_pow2);
    if addr % 2 == 1 {
        assert(is_pow2(1int));
    } else {
        let al2: nat = addr_alignment(addr / 2);
        lemma_addr_alignment_divides(addr / 2);
        lemma_addr_alignment_pos(addr / 2);
        assert(is_pow2(2 * al2 as int));
        let q: int = (addr / 2) as int / al2 as int;
        lemma_fundamental_div_mod((addr / 2) as int, al2 as int);
        assert((addr / 2) as int == al2 as int * q);
        assert(addr as int == q * (2 * al2 as int)) by (nonlinear_arith)
            requires
                addr as int == 2 * ((addr / 2) as int),
                (addr / 2) as int == al2 as int * q,
        ;
        lemma_mod_multiples_basic(q, 2 * al2 as int);
    }
}

/// No power of two that divides the address is larger than the derived
/// alignment: the derivation really finds the strongest guarantee.
pub proof fn lemma_addr_alignment_largest(addr: nat, d: nat)
    requires
        addr > 0,
        is_pow2(d as int),
        addr % d == 0,
    ensures
        d <= addr_alignment(addr),
    decreases addr,
{
    reveal(is_pow2);
    lemma_addr_alignment_pos(addr);
    if d > 1 {
        let e: nat = d / 2;
        assert(d % 2 == 0 && is_pow2(e as int));
        let q: int = addr as int / d as int;
        lemma_fundamental_div_mod(addr as int, d as int);
        assert(addr as int == d as int * q);
        assert(q >= 1) by (nonlinear_arith)
            requires
                addr as int == d as int * q,
                addr > 0,
                d > 1,
        ;
        assert(addr as int == 2 * (e as int * q)) by (nonlinear_arith)
            requires
                addr as int == d as int * q,
                d == 2 * e,
        ;
        lemma_mod_multiples_basic(e as int * q, 2);
        assert(addr % 2 == 0);
        assert((addr / 2) as int == e as int * q);
        lemma_mod_multiples_basic(q, e as int);
        assert((addr / 2) % e == 0);
        lemma_addr_alignment_largest(addr / 2, e);
        assert(addr_alignment(addr) == 2 * addr_alignment(addr / 2));
    }
}

/// One power of two divides any larger power of two.
pub proof fn lemma_pow2_divides_pow2(a: nat, b: nat)
    requires
        is_pow2(a as int),
        is_pow2(b as int),
        a <= b,
    ensures
        b % a == 0,
    decreases a,
{
    reveal(is_pow2);
    if a > 1 {
        let h: nat = a / 2;
        assert(b % 2 == 0 && is_pow2((b / 2) as int));
        let q: int = (b / 2) as int / h as int;
        lemma_fundamental_div_mod((b / 2) as int, h as int);
        lemma_pow2_divides_pow2(h, b / 2);
        assert((b / 2) as int == h as int * q);
        assert(b as int == a as int * q) by (nonlinear_arith)
            requires
                b as int == 2 * ((b / 2) as int),
                (b / 2) as int == h as int * q,
                a == 2 * h,
        ;
        lemma_mod_multiples_basic(q, a as int);
    }
}

/// Comparing a required power-of-two alignment against the derived alignment
/// of an address decides exactly whether the address is a multiple of it.
pub proof fn lemma_aligned_iff_divides(addr: nat, a: nat)
    requires
        addr > 0,
        is_pow2(a as int),
    ensures
        a <= addr_alignment(addr) <==> addr % a == 0,
{
    reveal(is_pow2);
    let al: nat = addr_alignment(addr);
    lemma_addr_alignment_pos(addr);
    lemma_addr_alignment_divides(addr);
    if addr % a == 0 {
        lemma_addr_alignment_largest(addr, a);
    }
    if a <= al {
        lemma_pow2_divides_pow2(a, al);
        let p: int = addr as int / al as int;
        let q: int = al as int / a as int;
        lemma_fundamental_div_mod(addr as int, al as int);
        lemma_fundamental_div_mod(al as int, a as int);
        assert(addr as int == a as int * (q * p)) by (nonlinear_arith)
            requires
                addr as int == al as int * p,
                al as int == a as int * q,
        ;
        lemma_mod_multiples_basic(q * p, a as int);
    }
}

/// Computes the alignment offered by `addr`, peeling one factor of two per
/// step exactly as the specification does.  Address zero is excluded: no
/// live buffer has it, and every power of two would divide it.
pub fn alignment_of_address(addr: usize) -> (r: usize)
    requires
        addr != 0,
    ensures
        r as nat == addr_alignment(addr as nat),
    decreases addr,
{
    if addr % 2 == 1 {
        1
    } else {
        let half: usize = alignment_of_address(addr / 2);
        proof {
            lemma_addr_alignment_le((addr / 2) as nat);
        }
        2 * half
    }
}

} // verus!
