//! The numeric ground of the wire format: big-endian bit and byte strings
//! of bounded integers, two's-complement encoding of signed values, and the
//! lemmas that make the two directions of the codec meet.

use vstd::prelude::*;

verus! {

use vstd::arithmetic::power2::{pow2, lemma_pow2_adds, lemma_pow2_pos, lemma2_to64};
use vstd::arithmetic::div_mod::{
    lemma_fundamental_div_mod, lemma_small_mod, lemma_mod_add_multiples_vanish,
    lemma_div_denominator, lemma_mod_multiples_vanish, lemma_fundamental_div_mod_converse,
};

/// The `n` low bits of `v`, most significant first.
pub open spec fn be_bits(v: nat, n: nat) -> Seq<bool>
    decreases n,
{
    if n == 0 {
        Seq::empty()
    } else {
        be_bits(v / 2, (n - 1) as nat).push(v % 2 == 1)
    }
}

/// The eight bits of one byte, most significant first.
pub open spec fn byte_bits(b: u8) -> Seq<bool> {
    be_bits(b as nat, 8)
}

/// The bits of a byte string, each byte most significant bit first.
pub open spec fn bits_of_bytes(s: Seq<u8>) -> Seq<bool>
    decreases s.len(),
{
    if s.len() == 0 {
        Seq::empty()
    } else {
        byte_bits(s[0]) + bits_of_bytes(s.skip(1))
    }
}

/// The `n` low bytes of `v`, most significant first.
pub open spec fn be_bytes(v: nat, n: nat) -> Seq<u8>
    decreases n,
{
    if n == 0 {
        Seq::empty()
    } else {
        be_bytes(v / 256, (n - 1) as nat).push((v % 256) as u8)
    }
}

/// The value of a big-endian byte string.
pub open spec fn be_nat(s: Seq<u8>) -> nat
    decreases s.len(),
{
    if s.len() == 0 {
        0
    } else {
        (be_nat(s.drop_last()) * 256 + s.last()) as nat
    }
}

/// The two's-complement encoding of `v` in `bits` bits.
pub open spec fn twoc(v: int, bits: nat) -> nat {
    (v % (pow2(bits) as int)) as nat
}

/// The signed value whose two's-complement encoding in `bits` bits is `n`.
pub open spec fn sint_of(n: nat, bits: nat) -> int {
    if n < pow2((bits - 1) as nat) {
        n as int
    } else {
        n - pow2(bits)
    }
}

pub broadcast proof fn lemma_be_bits_len(v: nat, n: nat)
    ensures
        #[trigger] be_bits(v, n).len() == n,
    decreases n,
{
    if n > 0 {
        lemma_be_bits_len(v / 2, (n - 1) as nat);
    }
}

pub broadcast proof fn lemma_be_bytes_len(v: nat, n: nat)
    ensures
        #[trigger] be_bytes(v, n).len() == n,
    decreases n,
{
    if n > 0 {
        lemma_be_bytes_len(v / 256, (n - 1) as nat);
    }
}

pub broadcast proof fn lemma_bits_of_bytes_len(s: Seq<u8>)
    ensures
        #[trigger] bits_of_bytes(s).len() == 8 * s.len(),
    decreases s.len(),
{
    if s.len() > 0 {
        broadcast use lemma_be_bits_len;

        lemma_bits_of_bytes_len(s.skip(1));
    }
}

/// Only the `n` low bits matter to `be_bits`.
pub proof fn lemma_be_bits_mod(v: nat, n: nat)
    ensures
        be_bits(v % pow2(n), n) == be_bits(v, n),
    decreases n,
{
    if n > 0 {
        let p: nat = pow2(n);
        let q: nat = pow2((n - 1) as nat);
        lemma_pow2_adds((n - 1) as nat, 1);
        lemma2_to64();
        lemma_pow2_pos((n - 1) as nat);
        assert(p == q * 2);
        let r: nat = v % p;
        lemma_fundamental_div_mod(v as int, p as int);
        let k: int = v as int / p as int;
        assert(v == p * k + r);
        // split r itself by 2 and regroup: v == 2 * (q * k + r / 2) + r % 2
        lemma_fundamental_div_mod(r as int, 2);
        assert(v == 2 * (q * k + r as int / 2) + r % 2) by (nonlinear_arith)
            requires
                v == (q * 2) * k + r,
                r == 2 * (r as int / 2) + r % 2,
        ;
        assert(0 <= r % 2 < 2);
        lemma_fundamental_div_mod_converse(v as int, 2, q * k + r as int / 2, (r % 2) as int);
        assert(v as int / 2 == q * k + r as int / 2);
        assert(v % 2 == r % 2);
        assert(r as int / 2 < q as int) by (nonlinear_arith)
            requires r < q * 2, 0 < q,
        ;
        assert((v as int / 2) % q as int == r as int / 2) by {
            lemma_mod_multiples_vanish(k, r as int / 2, q as int);
            lemma_small_mod((r / 2) as nat, q);
        }
        lemma_be_bits_mod(v / 2, (n - 1) as nat);
        assert(be_bits(r / 2, (n - 1) as nat) == be_bits(v / 2, (n - 1) as nat)) by {
            lemma_be_bits_mod(r / 2, (n - 1) as nat);
            lemma_small_mod((r / 2) as nat, q);
            assert(r / 2 == (v / 2) % q);
        }
        assert(be_bits(r, n) == be_bits(r / 2, (n - 1) as nat).push(r % 2 == 1));
        assert(be_bits(v, n) == be_bits(v / 2, (n - 1) as nat).push(v % 2 == 1));
        assert((r % 2 == 1) == (v % 2 == 1));
        assert(be_bits(r, n) == be_bits(v, n));
        assert(r == v % pow2(n));
    } else {
        lemma2_to64();
        assert(be_bits(v % pow2(n), n) =~= Seq::<bool>::empty());
        assert(be_bits(v, n) =~= Seq::<bool>::empty());
    }
}

/// Splitting a bit string: the high `m` bits come from `v / 2^n`,
/// the low `n` bits from `v` itself.
pub proof fn lemma_be_bits_split(v: nat, m: nat, n: nat)
    ensures
        be_bits(v, m + n) == be_bits(v / pow2(n), m) + be_bits(v, n),
    decreases n,
{
    lemma_be_bits_len(v / pow2(n), m);
    if n == 0 {
        lemma2_to64();
        assert(pow2(0) == 1);
        assert(v / 1 == v);
        assert(be_bits(v, m) + be_bits(v, 0) =~= be_bits(v, m));
    } else {
        lemma_be_bits_split(v / 2, m, (n - 1) as nat);
        lemma_pow2_adds((n - 1) as nat, 1);
        lemma2_to64();
        lemma_pow2_pos((n - 1) as nat);
        assert((v / 2) / pow2((n - 1) as nat) == v / pow2(n)) by {
            lemma_div_denominator(v as int, 2, pow2((n - 1) as nat) as int);
            assert(2 * pow2((n - 1) as nat) == pow2(n));
        }
        // be_bits(v, m + n) == be_bits(v / 2, m + n - 1).push(v % 2 == 1)
        assert((be_bits(v / pow2(n), m) + be_bits(v / 2, (n - 1) as nat)).push(v % 2 == 1)
            =~= be_bits(v / pow2(n), m) + be_bits(v / 2, (n - 1) as nat).push(v % 2 == 1));
    }
}

pub proof fn lemma_bits_of_bytes_push(s: Seq<u8>, b: u8)
    ensures
        bits_of_bytes(s.push(b)) == bits_of_bytes(s) + byte_bits(b),
    decreases s.len(),
{
    broadcast use lemma_be_bits_len, lemma_bits_of_bytes_len;

    if s.len() == 0 {
        assert(s.push(b).skip(1) =~= Seq::<u8>::empty());
        assert(bits_of_bytes(s.push(b)) =~= byte_bits(b));
        assert(bits_of_bytes(s) + byte_bits(b) =~= byte_bits(b));
    } else {
        assert(s.push(b).skip(1) =~= s.skip(1).push(b));
        lemma_bits_of_bytes_push(s.skip(1), b);
        assert(byte_bits(s[0]) + (bits_of_bytes(s.skip(1)) + byte_bits(b))
            =~= (byte_bits(s[0]) + bits_of_bytes(s.skip(1))) + byte_bits(b));
    }
}

pub proof fn lemma_bits_of_bytes_concat(a: Seq<u8>, b: Seq<u8>)
    ensures
        bits_of_bytes(a + b) == bits_of_bytes(a) + bits_of_bytes(b),
    decreases a.len(),
{
    if a.len() == 0 {
        assert(a + b =~= b);
        assert(bits_of_bytes(a) + bits_of_bytes(b) =~= bits_of_bytes(b));
    } else {
        assert((a + b).skip(1) =~= a.skip(1) + b);
        lemma_bits_of_bytes_concat(a.skip(1), b);
        assert((a + b)[0] == a[0]);
        assert(byte_bits(a[0]) + (bits_of_bytes(a.skip(1)) + bits_of_bytes(b))
            =~= (byte_bits(a[0]) + bits_of_bytes(a.skip(1))) + bits_of_bytes(b));
    }
}

/// The bits of the byte form of `v` are the bit form of `v`.
pub proof fn lemma_bits_of_be_bytes(v: nat, n: nat)
    ensures
        bits_of_bytes(be_bytes(v, n)) == be_bits(v, 8 * n),
    decreases n,
{
    if n == 0 {
    } else {
        let low: u8 = (v % 256) as u8;
        lemma_bits_of_be_bytes(v / 256, (n - 1) as nat);
        lemma_bits_of_bytes_push(be_bytes(v / 256, (n - 1) as nat), low);
        assert(byte_bits(low) == be_bits(v, 8)) by {
            lemma2_to64();
            assert(pow2(8) == 256);
            assert(low as nat == v % pow2(8));
            lemma_be_bits_mod(v, 8);
        }
        assert(8 * n == 8 * (n - 1) + 8);
        lemma_be_bits_split(v, (8 * (n - 1)) as nat, 8);
        assert(v / pow2(8) == v / 256) by {
            lemma2_to64();
        }
    }
}

/// Reading back the byte form of a bounded value gives the value.
pub proof fn lemma_be_nat_of_be_bytes(v: nat, n: nat)
    requires
        v < pow2(8 * n),
    ensures
        be_nat(be_bytes(v, n)) == v,
    decreases n,
{
    if n == 0 {
        lemma2_to64();
    } else {
        let s = be_bytes(v, n);
        lemma_be_bytes_len(v / 256, (n - 1) as nat);
        assert(s.drop_last() =~= be_bytes(v / 256, (n - 1) as nat));
        assert(v / 256 < pow2((8 * (n - 1)) as nat)) by {
            lemma_pow2_adds(8 * (n - 1) as nat, 8);
            lemma2_to64();
            lemma_pow2_pos((8 * (n - 1)) as nat);
            assert(v < pow2((8 * (n - 1)) as nat) * 256);
            assert(v / 256 < pow2((8 * (n - 1)) as nat)) by (nonlinear_arith)
                requires
                    v < pow2((8 * (n - 1)) as nat) * 256,
                    0 < pow2((8 * (n - 1)) as nat),
            ;
        }
        lemma_be_nat_of_be_bytes(v / 256, (n - 1) as nat);
        lemma_fundamental_div_mod(v as int, 256);
    }
}

/// Writing back the value of a byte string gives the byte string.
pub proof fn lemma_be_bytes_of_be_nat(s: Seq<u8>)
    ensures
        be_bytes(be_nat(s), s.len()) == s,
    decreases s.len(),
{
    if s.len() > 0 {
        let d = s.drop_last();
        let v: nat = be_nat(s);
        assert(v == be_nat(d) * 256 + s.last());
        assert(v as int / 256 == be_nat(d) && v % 256 == s.last()) by {
            lemma_fundamental_div_mod_converse(v as int, 256, be_nat(d) as int, s.last() as int);
        }
        lemma_be_bytes_of_be_nat(d);
        assert(be_bytes(v, s.len()) =~= d.push((v % 256) as u8));
        assert(d.push(s.last()) =~= s);
    }
}

/// Two bounded values with the same bit string are the same value.
pub proof fn lemma_be_bits_injective(x: nat, y: nat, n: nat)
    requires
        x < pow2(n),
        y < pow2(n),
        be_bits(x, n) == be_bits(y, n),
    ensures
        x == y,
    decreases n,
{
    if n == 0 {
        lemma2_to64();
    } else {
        let bx = be_bits(x / 2, (n - 1) as nat);
        let by = be_bits(y / 2, (n - 1) as nat);
        lemma_be_bits_len(x / 2, (n - 1) as nat);
        lemma_be_bits_len(y / 2, (n - 1) as nat);
        assert(be_bits(x, n) == bx.push(x % 2 == 1));
        assert(be_bits(y, n) == by.push(y % 2 == 1));
        assert(bx.push(x % 2 == 1).drop_last() =~= bx);
        assert(by.push(y % 2 == 1).drop_last() =~= by);
        assert(bx == by);
        assert(bx.push(x % 2 == 1).last() == (x % 2 == 1));
        assert(by.push(y % 2 == 1).last() == (y % 2 == 1));
        assert((x % 2 == 1) == (y % 2 == 1));
        assert(x % 2 == y % 2) by {
            assert(0 <= x % 2 < 2 && 0 <= y % 2 < 2);
        }
        assert(x / 2 < pow2((n - 1) as nat) && y / 2 < pow2((n - 1) as nat)) by {
            lemma_pow2_adds((n - 1) as nat, 1);
            lemma2_to64();
            lemma_pow2_pos((n - 1) as nat);
            assert(x < pow2((n - 1) as nat) * 2 ==> x / 2 < pow2((n - 1) as nat)) by (nonlinear_arith)
                requires 0 < pow2((n - 1) as nat),
            ;
            assert(y < pow2((n - 1) as nat) * 2 ==> y / 2 < pow2((n - 1) as nat)) by (nonlinear_arith)
                requires 0 < pow2((n - 1) as nat),
            ;
        }
        lemma_be_bits_injective(x / 2, y / 2, (n - 1) as nat);
        lemma_fundamental_div_mod(x as int, 2);
        lemma_fundamental_div_mod(y as int, 2);
    }
}

/// Two byte strings of one length with the same bits are the same bytes.
pub proof fn lemma_bytes_of_same_bits(a: Seq<u8>, b: Seq<u8>)
    requires
        a.len() == b.len(),
        bits_of_bytes(a) == bits_of_bytes(b),
    ensures
        a == b,
    decreases a.len(),
{
    if a.len() > 0 {
        lemma_be_bits_len(a[0] as nat, 8);
        lemma_be_bits_len(b[0] as nat, 8);
        lemma_bits_of_bytes_len(a.skip(1));
        lemma_bits_of_bytes_len(b.skip(1));
        assert(byte_bits(a[0]) =~= bits_of_bytes(a).take(8));
        assert(byte_bits(b[0]) =~= bits_of_bytes(b).take(8));
        assert(a[0] == b[0]) by {
            lemma2_to64();
            lemma_be_bits_injective(a[0] as nat, b[0] as nat, 8);
        }
        assert(bits_of_bytes(a.skip(1)) =~= bits_of_bytes(a).skip(8));
        assert(bits_of_bytes(b.skip(1)) =~= bits_of_bytes(b).skip(8));
        lemma_bytes_of_same_bits(a.skip(1), b.skip(1));
        assert forall|i: int| 0 <= i < a.len() implies a[i] == b[i] by {
            if i > 0 {
                assert(a[i] == a.skip(1)[i - 1]);
                assert(b[i] == b.skip(1)[i - 1]);
            }
        }
        assert(a =~= b);
    } else {
        assert(a =~= b);
    }
}

/// Splitting one concatenation along another when the front parts agree in length.
pub proof fn lemma_concat_parts<T>(a1: Seq<T>, b1: Seq<T>, a2: Seq<T>, b2: Seq<T>)
    requires
        a1.len() == a2.len(),
        a1 + b1 == a2 + b2,
    ensures
        a1 == a2,
        b1 == b2,
{
    assert(a1 =~= (a1 + b1).take(a1.len() as int));
    assert(a2 =~= (a2 + b2).take(a2.len() as int));
    assert(b1 =~= (a1 + b1).skip(a1.len() as int));
    assert(b2 =~= (a2 + b2).skip(a2.len() as int));
}

/// Two's complement is inverted by `sint_of` on values of the width.
pub proof fn lemma_sint_of_twoc(v: int, bits: nat)
    requires
        1 <= bits,
        -(pow2((bits - 1) as nat) as int) <= v < pow2((bits - 1) as nat),
    ensures
        sint_of(twoc(v, bits), bits) == v,
        twoc(v, bits) < pow2(bits),
    decreases bits,
{
    let h: int = pow2((bits - 1) as nat) as int;
    let p: int = pow2(bits) as int;
    lemma_pow2_adds((bits - 1) as nat, 1);
    lemma2_to64();
    lemma_pow2_pos((bits - 1) as nat);
    assert(p == h * 2);
    if v >= 0 {
        lemma_small_mod(v as nat, p as nat);
    } else {
        assert(0 <= v + p < p);
        lemma_mod_add_multiples_vanish(v, p);
        lemma_small_mod((v + p) as nat, p as nat);
        assert(v % p == v + p);
        assert(twoc(v, bits) >= h);
    }
}

/// Two bounded values with the same byte string are the same value.
pub proof fn lemma_be_bytes_injective(x: nat, y: nat, n: nat)
    requires
        x < pow2(8 * n),
        y < pow2(8 * n),
        be_bytes(x, n) == be_bytes(y, n),
    ensures
        x == y,
{
    lemma_be_nat_of_be_bytes(x, n);
    lemma_be_nat_of_be_bytes(y, n);
}

/// `sint_of` is inverted by two's complement on encodings of the width.
pub proof fn lemma_twoc_of_sint(n: nat, bits: nat)
    requires
        1 <= bits,
        n < pow2(bits),
    ensures
        twoc(sint_of(n, bits), bits) == n,
        -(pow2((bits - 1) as nat) as int) <= sint_of(n, bits),
        sint_of(n, bits) < pow2((bits - 1) as nat) as int,
{
    let h: int = pow2((bits - 1) as nat) as int;
    let p: int = pow2(bits) as int;
    lemma_pow2_adds((bits - 1) as nat, 1);
    lemma2_to64();
    lemma_pow2_pos((bits - 1) as nat);
    assert(p == h * 2);
    if n < pow2((bits - 1) as nat) {
        lemma_small_mod(n, p as nat);
    } else {
        let v: int = n - p;
        lemma_mod_add_multiples_vanish(v, p);
        lemma_small_mod(n, p as nat);
    }
}

/// The encoding of a value already in `[0, 2^bits)` is the value itself.
pub proof fn lemma_twoc_of_unsigned(v: int, bits: nat)
    requires
        0 <= v < pow2(bits),
    ensures
        twoc(v, bits) == v,
{
    lemma_pow2_pos(bits);
    lemma_small_mod(v as nat, pow2(bits));
}

} // verus!
