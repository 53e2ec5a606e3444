//! 256-bit unsigned words with wrapping arithmetic, and their big-endian bytes.

use vstd::prelude::*;
use ethereum_types::U256;
use vstd::arithmetic::div_mod::{lemma_breakdown, lemma_small_mod};

verus! {

/// One limb: 2^64.
pub open spec fn limb_base() -> nat {
    0x1_0000_0000_0000_0000
}

/// 256^n.
pub open spec fn pow256(n: nat) -> nat
    decreases n,
{
    if n == 0 {
        1
    } else {
        256 * pow256((n - 1) as nat)
    }
}

/// 2^256: words wrap around this modulus.
pub open spec fn word_modulus() -> nat {
    pow256(32)
}

/// Unsigned value of a big-endian byte string.
pub open spec fn be_value(s: Seq<u8>) -> nat
    decreases s.len(),
{
    if s.len() == 0 {
        0
    } else {
        be_value(s.drop_last()) * 256 + s.last() as nat
    }
}

/// The low `n` bytes of `v`, most significant first.
pub open spec fn be_bytes(v: nat, n: nat) -> Seq<u8>
    decreases n,
{
    if n == 0 {
        Seq::empty()
    } else {
        be_bytes(v / 256, (n - 1) as nat).push((v % 256) as u8)
    }
}

/// A 256-bit unsigned integer, as four 64-bit limbs, least significant first.
#[derive(Clone, Copy, Debug, PartialEq, Eq, Structural, Hash)]
pub struct Word {
    pub l0: u64,
    pub l1: u64,
    pub l2: u64,
    pub l3: u64,
}

impl Word {
    pub open spec fn val(&self) -> nat {
        self.l0 as nat + self.l1 as nat * limb_base() + self.l2 as nat * limb_base() * limb_base()
            + self.l3 as nat * limb_base() * limb_base() * limb_base()
    }

    /// The word whose value is `v`.
    pub fn from_u64(v: u64) -> (r: Word)
        ensures
            r.val() == v as nat,
    {
        Word { l0: v, l1: 0, l2: 0, l3: 0 }
    }

    pub fn zero() -> (r: Word)
        ensures
            r.val() == 0,
    {
        Word { l0: 0, l1: 0, l2: 0, l3: 0 }
    }

    pub fn one() -> (r: Word)
        ensures
            r.val() == 1,
    {
        Word { l0: 1, l1: 0, l2: 0, l3: 0 }
    }

    pub fn is_zero(&self) -> (r: bool)
        ensures
            r == (self.val() == 0),
    {
        proof {
            lemma_val_zero(*self);
        }
        self.l0 == 0 && self.l1 == 0 && self.l2 == 0 && self.l3 == 0
    }

    /// The value as a `usize`, where it fits.
    pub fn to_usize(&self) -> (r: Option<usize>)
        ensures
            self.val() <= usize::MAX ==> r == Some(self.val() as usize),
            self.val() > usize::MAX ==> r is None,
    {
        proof {
            lemma_val_high(*self);
        }
        if self.l1 == 0 && self.l2 == 0 && self.l3 == 0 && self.l0 <= usize::MAX as u64 {
            Some(self.l0 as usize)
        } else {
            None
        }
    }

    /// The lowest byte of the value.
    pub fn low_byte(&self) -> (r: u8)
        ensures
            r as nat == self.val() % 256,
    {
        proof {
            lemma_val_low_byte(*self);
        }
        (self.l0 & 0xff) as u8
    }

    /// Bitwise and, limb by limb.
    pub fn bit_and(&self, o: &Word) -> (r: Word)
        ensures
            r == (Word { l0: self.l0 & o.l0, l1: self.l1 & o.l1, l2: self.l2 & o.l2, l3: self.l3 & o.l3 }),
    {
        Word { l0: self.l0 & o.l0, l1: self.l1 & o.l1, l2: self.l2 & o.l2, l3: self.l3 & o.l3 }
    }

    /// Bitwise or, limb by limb.
    pub fn bit_or(&self, o: &Word) -> (r: Word)
        ensures
            r == (Word { l0: self.l0 | o.l0, l1: self.l1 | o.l1, l2: self.l2 | o.l2, l3: self.l3 | o.l3 }),
    {
        Word { l0: self.l0 | o.l0, l1: self.l1 | o.l1, l2: self.l2 | o.l2, l3: self.l3 | o.l3 }
    }

    /// Bitwise exclusive or, limb by limb.
    pub fn bit_xor(&self, o: &Word) -> (r: Word)
        ensures
            r == (Word { l0: self.l0 ^ o.l0, l1: self.l1 ^ o.l1, l2: self.l2 ^ o.l2, l3: self.l3 ^ o.l3 }),
    {
        Word { l0: self.l0 ^ o.l0, l1: self.l1 ^ o.l1, l2: self.l2 ^ o.l2, l3: self.l3 ^ o.l3 }
    }

    /// Bitwise complement, limb by limb.
    pub fn bit_not(&self) -> (r: Word)
        ensures
            r == (Word { l0: !self.l0, l1: !self.l1, l2: !self.l2, l3: !self.l3 }),
    {
        Word { l0: !self.l0, l1: !self.l1, l2: !self.l2, l3: !self.l3 }
    }
}

pub proof fn lemma_val_zero(w: Word)
    ensures
        (w.val() == 0) == (w.l0 == 0 && w.l1 == 0 && w.l2 == 0 && w.l3 == 0),
{
    let b = limb_base();
    let (a0, a1, a2, a3) = (w.l0 as nat, w.l1 as nat, w.l2 as nat, w.l3 as nat);
    assert(a1 * b >= 0 && a2 * b * b >= 0 && a3 * b * b * b >= 0) by (nonlinear_arith)
        requires b > 0;
    if a1 > 0 {
        assert(a1 * b > 0) by (nonlinear_arith) requires a1 > 0, b > 0;
    }
    if a2 > 0 {
        assert(a2 * b * b > 0) by (nonlinear_arith) requires a2 > 0, b > 0;
    }
    if a3 > 0 {
        assert(a3 * b * b * b > 0) by (nonlinear_arith) requires a3 > 0, b > 0;
    }
}

proof fn lemma_val_high(w: Word)
    ensures
        (w.l1 == 0 && w.l2 == 0 && w.l3 == 0) ==> w.val() == w.l0 as nat,
        !(w.l1 == 0 && w.l2 == 0 && w.l3 == 0) ==> w.val() >= limb_base(),
{
    let b = limb_base();
    let (a0, a1, a2, a3) = (w.l0 as nat, w.l1 as nat, w.l2 as nat, w.l3 as nat);
    assert(a1 * b >= 0 && a2 * b * b >= 0 && a3 * b * b * b >= 0) by (nonlinear_arith)
        requires b > 0;
    if a1 > 0 {
        assert(a1 * b >= b) by (nonlinear_arith) requires a1 > 0, b > 0;
    }
    if a2 > 0 {
        assert(a2 * b * b >= b) by (nonlinear_arith) requires a2 > 0, b > 1;
    }
    if a3 > 0 {
        assert(a3 * b * b * b >= b) by (nonlinear_arith) requires a3 > 0, b > 1;
    }
}

proof fn lemma_val_low_byte(w: Word)
    ensures
        w.val() % 256 == w.l0 as nat % 256,
        (w.l0 & 0xff) as nat == w.l0 as nat % 256,
{
    let x = w.l0;
    assert(x & 0xff == x % 256) by (bit_vector);
    let b = limb_base();
    let rest = w.l1 as nat + w.l2 as nat * b + w.l3 as nat * b * b;
    assert(w.val() == w.l0 as nat + rest * b) by (nonlinear_arith)
        requires w.val() == w.l0 as nat + w.l1 as nat * b + w.l2 as nat * b * b + w.l3 as nat * b * b * b,
            rest == w.l1 as nat + w.l2 as nat * b + w.l3 as nat * b * b;
    assert(b == 256 * 0x100_0000_0000_0000);
    assert((w.l0 as nat + rest * (256 * 0x100_0000_0000_0000)) % 256 == w.l0 as nat % 256) by (nonlinear_arith);
}

/// Every word is below 2^256.
pub proof fn lemma_val_bound(w: Word)
    ensures
        w.val() < word_modulus(),
{
    let b = limb_base();
    let (a0, a1, a2, a3) = (w.l0 as nat, w.l1 as nat, w.l2 as nat, w.l3 as nat);
    assert(a0 + a1 * b + a2 * b * b + a3 * b * b * b < b * b * b * b) by (nonlinear_arith)
        requires a0 < b, a1 < b, a2 < b, a3 < b, b > 0;
    lemma_modulus_value();
}

proof fn lemma_modulus_value()
    ensures
        word_modulus() == limb_base() * limb_base() * limb_base() * limb_base(),
        pow256(8) == limb_base(),
{
    reveal_with_fuel(pow256, 33);
}

pub proof fn lemma_pow256_pos(n: nat)
    ensures
        pow256(n) > 0,
    decreases n,
{
    if n > 0 {
        lemma_pow256_pos((n - 1) as nat);
    }
}

pub proof fn lemma_be_bytes_len(v: nat, n: nat)
    ensures
        be_bytes(v, n).len() == n,
    decreases n,
{
    if n > 0 {
        lemma_be_bytes_len(v / 256, (n - 1) as nat);
    }
}

/// Reading back the low `n` bytes of `v` gives `v` modulo 256^n.
pub proof fn lemma_be_round_trip(v: nat, n: nat)
    ensures
        be_value(be_bytes(v, n)) == v % pow256(n),
    decreases n,
{
    if n == 0 {
        assert(v % 1 == 0);
    } else {
        let m = (n - 1) as nat;
        lemma_be_round_trip(v / 256, m);
        let s = be_bytes(v, n);
        assert(s.drop_last() == be_bytes(v / 256, m));
        lemma_pow256_pos(m);
        lemma_breakdown(v as int, 256, pow256(m) as int);
    }
}

/// A byte string that encodes `v < 256^n` in `n` bytes.
pub proof fn lemma_be_exact(v: nat, n: nat)
    requires
        v < pow256(n),
    ensures
        be_value(be_bytes(v, n)) == v,
        be_bytes(v, n).len() == n,
{
    lemma_be_round_trip(v, n);
    lemma_be_bytes_len(v, n);
    lemma_small_mod(v, pow256(n));
}

/// The last `k` of the low `n` bytes are the low `k` bytes.
pub proof fn lemma_be_suffix(v: nat, n: nat, k: nat)
    requires
        k <= n,
    ensures
        be_bytes(v, n).subrange(n - k, n as int) == be_bytes(v, k),
    decreases n,
{
    lemma_be_bytes_len(v, n);
    if k == n {
        assert(be_bytes(v, n).subrange(0, n as int) == be_bytes(v, n));
    } else {
        let m = (n - 1) as nat;
        lemma_be_suffix(v, m, k);
        lemma_be_bytes_len(v / 256, m);
        if k == 0 {
            assert(be_bytes(v, n).subrange(n - k, n as int) =~= Seq::<u8>::empty());
        } else {
            lemma_be_suffix(v / 256, m, (k - 1) as nat);
            assert(be_bytes(v, n).subrange(n - k, n as int) =~= be_bytes(v / 256, m).subrange(
                m - (k - 1),
                m as int,
            ).push((v % 256) as u8));
        }
    }
}

/// Relies on U256::overflowing_add: the sum wraps modulo 2^256.
#[verifier::external_body]
pub(crate) fn word_add(a: Word, b: Word) -> (r: Word)
    ensures
        r.val() == (a.val() + b.val()) % word_modulus(),
{
    let (s, _) = U256([a.l0, a.l1, a.l2, a.l3]).overflowing_add(U256([b.l0, b.l1, b.l2, b.l3]));
    Word { l0: s.0[0], l1: s.0[1], l2: s.0[2], l3: s.0[3] }
}

/// Relies on U256::overflowing_sub: the difference wraps modulo 2^256.
#[verifier::external_body]
pub(crate) fn word_sub(a: Word, b: Word) -> (r: Word)
    ensures
        r.val() == (a.val() - b.val()) % (word_modulus() as int),
{
    let (s, _) = U256([a.l0, a.l1, a.l2, a.l3]).overflowing_sub(U256([b.l0, b.l1, b.l2, b.l3]));
    Word { l0: s.0[0], l1: s.0[1], l2: s.0[2], l3: s.0[3] }
}

/// Relies on U256::overflowing_mul: the product wraps modulo 2^256.
#[verifier::external_body]
pub(crate) fn word_mul(a: Word, b: Word) -> (r: Word)
    ensures
        r.val() == (a.val() * b.val()) % word_modulus(),
{
    let (s, _) = U256([a.l0, a.l1, a.l2, a.l3]).overflowing_mul(U256([b.l0, b.l1, b.l2, b.l3]));
    Word { l0: s.0[0], l1: s.0[1], l2: s.0[2], l3: s.0[3] }
}

/// Relies on U256's `Div` (div_mod): the quotient rounded down; it panics on a zero divisor.
#[verifier::external_body]
pub(crate) fn word_div(a: Word, b: Word) -> (r: Word)
    requires
        b.val() != 0,
    ensures
        r.val() == a.val() / b.val(),
{
    let s = U256([a.l0, a.l1, a.l2, a.l3]) / U256([b.l0, b.l1, b.l2, b.l3]);
    Word { l0: s.0[0], l1: s.0[1], l2: s.0[2], l3: s.0[3] }
}

/// Relies on U256's `Rem` (div_mod): the remainder; it panics on a zero divisor.
#[verifier::external_body]
pub(crate) fn word_rem(a: Word, b: Word) -> (r: Word)
    requires
        b.val() != 0,
    ensures
        r.val() == a.val() % b.val(),
{
    let s = U256([a.l0, a.l1, a.l2, a.l3]) % U256([b.l0, b.l1, b.l2, b.l3]);
    Word { l0: s.0[0], l1: s.0[1], l2: s.0[2], l3: s.0[3] }
}

/// Relies on U256::overflowing_pow: the power wraps modulo 2^256.
#[verifier::external_body]
pub(crate) fn word_pow(a: Word, b: Word) -> (r: Word)
    ensures
        r.val() == vstd::arithmetic::power::pow(a.val() as int, b.val()) % (word_modulus() as int),
{
    let (s, _) = U256([a.l0, a.l1, a.l2, a.l3]).overflowing_pow(U256([b.l0, b.l1, b.l2, b.l3]));
    Word { l0: s.0[0], l1: s.0[1], l2: s.0[2], l3: s.0[3] }
}

/// Relies on U256's `Ord`: words compare by value.
#[verifier::external_body]
pub(crate) fn word_lt(a: Word, b: Word) -> (r: bool)
    ensures
        r == (a.val() < b.val()),
{
    U256([a.l0, a.l1, a.l2, a.l3]) < U256([b.l0, b.l1, b.l2, b.l3])
}

/// Relies on U256::to_big_endian: the 32 bytes of the value, most significant first.
#[verifier::external_body]
pub(crate) fn word_to_be(a: Word) -> (r: Vec<u8>)
    ensures
        r@ == be_bytes(a.val(), 32),
{
    U256([a.l0, a.l1, a.l2, a.l3]).to_big_endian().to_vec()
}

/// Relies on U256::from_big_endian: the value of at most 32 big-endian bytes; it panics on more.
#[verifier::external_body]
pub(crate) fn word_from_be(bytes: &[u8]) -> (r: Word)
    requires
        bytes@.len() <= 32,
    ensures
        r.val() == be_value(bytes@),
{
    let s = U256::from_big_endian(bytes);
    Word { l0: s.0[0], l1: s.0[1], l2: s.0[2], l3: s.0[3] }
}

} // verus!
