//! Constrained integers: a value type that holds an integer together with
//! the proof that it lies in the range of its declared bit width. Every
//! construction and every arithmetic step validates the range and fails
//! with `RangeError` instead of wrapping.

use vstd::prelude::*;

verus! {

use vstd::arithmetic::power2::{
    pow2, lemma_pow2_pos, lemma_pow2_adds, lemma2_to64, lemma2_to64_rest,
    lemma_pow2_strictly_increases,
};
use vstd::arithmetic::div_mod::{lemma_fundamental_div_mod, lemma_fundamental_div_mod_converse};
use core::marker::PhantomData;

/// A value did not fit the range of the constrained integer asked for.
#[derive(Clone, Copy, Debug, PartialEq, Eq)]
pub struct RangeError;

/// The admissible shapes of a width: either the full unsigned range of
/// `bits` bits, or the full two's-complement signed range of `bits` bits.
pub open spec fn valid_width(min: int, max: int, bits: nat) -> bool {
    &&& 1 <= bits <= 64
    &&& {
        ||| (min == 0 && max == pow2(bits) - 1)
        ||| (2 <= bits && min == -(pow2((bits - 1) as nat) as int) && max == pow2(
            (bits - 1) as nat,
        ) - 1)
    }
}

/// A bit-width descriptor: the legal range of values and the exact number
/// of bits the value occupies on the wire.
pub trait Constrain: Sized + Copy {
    spec fn min_spec() -> int;

    spec fn max_spec() -> int;

    spec fn bits_spec() -> nat;

    /// Every descriptor describes a whole unsigned or signed range.
    proof fn lemma_valid()
        ensures
            valid_width(Self::min_spec(), Self::max_spec(), Self::bits_spec()),
    ;

    fn min() -> (r: i128)
        ensures
            r as int == Self::min_spec(),
    ;

    fn max() -> (r: i128)
        ensures
            r as int == Self::max_spec(),
    ;

    fn bits() -> (r: u32)
        ensures
            r as nat == Self::bits_spec(),
    ;
}

/// Every admissible range lies within `[-2^63, 2^64 - 1]` and contains zero.
pub proof fn lemma_range_fits<C: Constrain>()
    ensures
        -0x8000_0000_0000_0000 <= C::min_spec(),
        C::max_spec() <= 0xFFFF_FFFF_FFFF_FFFF,
        C::min_spec() <= 0 <= C::max_spec(),
{
    C::lemma_valid();
    lemma2_to64();
    lemma2_to64_rest();
    let bits = C::bits_spec();
    lemma_pow2_pos(bits);
    if bits < 64 {
        lemma_pow2_strictly_increases(bits, 64);
    }
    if C::min_spec() < 0 {
        lemma_pow2_pos((bits - 1) as nat);
        if ((bits - 1) as nat) < 63 {
            lemma_pow2_strictly_increases((bits - 1) as nat, 63);
        }
        lemma_pow2_strictly_increases(0, (bits - 1) as nat);
    }
}

/// An unsigned single bit.
#[derive(Clone, Copy, Debug, PartialEq, Eq)]
pub struct U1;

/// An unsigned nibble.
#[derive(Clone, Copy, Debug, PartialEq, Eq)]
pub struct U4;

/// An unsigned octet.
#[derive(Clone, Copy, Debug, PartialEq, Eq)]
pub struct U8;

/// A signed octet.
#[derive(Clone, Copy, Debug, PartialEq, Eq)]
pub struct I8;

/// An unsigned 16-bit word.
#[derive(Clone, Copy, Debug, PartialEq, Eq)]
pub struct U16;

/// A signed 16-bit word.
#[derive(Clone, Copy, Debug, PartialEq, Eq)]
pub struct I16;

/// An unsigned 32-bit word.
#[derive(Clone, Copy, Debug, PartialEq, Eq)]
pub struct U32;

/// A signed 32-bit word.
#[derive(Clone, Copy, Debug, PartialEq, Eq)]
pub struct I32;

/// An unsigned 48-bit word.
#[derive(Clone, Copy, Debug, PartialEq, Eq)]
pub struct U48;

/// An unsigned 64-bit word.
#[derive(Clone, Copy, Debug, PartialEq, Eq)]
pub struct U64;

/// A signed 64-bit word.
#[derive(Clone, Copy, Debug, PartialEq, Eq)]
pub struct I64;

impl Constrain for U1 {
    open spec fn min_spec() -> int {
        0
    }

    open spec fn max_spec() -> int {
        1
    }

    open spec fn bits_spec() -> nat {
        1
    }

    proof fn lemma_valid() {
        lemma2_to64();
    }

    fn min() -> i128 {
        0
    }

    fn max() -> i128 {
        1
    }

    fn bits() -> u32 {
        1
    }
}

impl Constrain for U4 {
    open spec fn min_spec() -> int {
        0
    }

    open spec fn max_spec() -> int {
        0xF
    }

    open spec fn bits_spec() -> nat {
        4
    }

    proof fn lemma_valid() {
        lemma2_to64();
    }

    fn min() -> i128 {
        0
    }

    fn max() -> i128 {
        0xF
    }

    fn bits() -> u32 {
        4
    }
}

impl Constrain for U8 {
    open spec fn min_spec() -> int {
        0
    }

    open spec fn max_spec() -> int {
        0xFF
    }

    open spec fn bits_spec() -> nat {
        8
    }

    proof fn lemma_valid() {
        lemma2_to64();
    }

    fn min() -> i128 {
        0
    }

    fn max() -> i128 {
        0xFF
    }

    fn bits() -> u32 {
        8
    }
}

impl Constrain for I8 {
    open spec fn min_spec() -> int {
        -0x80
    }

    open spec fn max_spec() -> int {
        0x7F
    }

    open spec fn bits_spec() -> nat {
        8
    }

    proof fn lemma_valid() {
        lemma2_to64();
    }

    fn min() -> i128 {
        -0x80
    }

    fn max() -> i128 {
        0x7F
    }

    fn bits() -> u32 {
        8
    }
}

impl Constrain for U16 {
    open spec fn min_spec() -> int {
        0
    }

    open spec fn max_spec() -> int {
        0xFFFF
    }

    open spec fn bits_spec() -> nat {
        16
    }

    proof fn lemma_valid() {
        lemma2_to64();
    }

    fn min() -> i128 {
        0
    }

    fn max() -> i128 {
        0xFFFF
    }

    fn bits() -> u32 {
        16
    }
}

impl Constrain for I16 {
    open spec fn min_spec() -> int {
        -0x8000
    }

    open spec fn max_spec() -> int {
        0x7FFF
    }

    open spec fn bits_spec() -> nat {
        16
    }

    proof fn lemma_valid() {
        lemma2_to64();
    }

    fn min() -> i128 {
        -0x8000
    }

    fn max() -> i128 {
        0x7FFF
    }

    fn bits() -> u32 {
        16
    }
}

impl Constrain for U32 {
    open spec fn min_spec() -> int {
        0
    }

    open spec fn max_spec() -> int {
        0xFFFF_FFFF
    }

    open spec fn bits_spec() -> nat {
        32
    }

    proof fn lemma_valid() {
        lemma2_to64();
    }

    fn min() -> i128 {
        0
    }

    fn max() -> i128 {
        0xFFFF_FFFF
    }

    fn bits() -> u32 {
        32
    }
}

impl Constrain for I32 {
    open spec fn min_spec() -> int {
        -0x8000_0000
    }

    open spec fn max_spec() -> int {
        0x7FFF_FFFF
    }

    open spec fn bits_spec() -> nat {
        32
    }

    proof fn lemma_valid() {
        lemma2_to64();
    }

    fn min() -> i128 {
        -0x8000_0000
    }

    fn max() -> i128 {
        0x7FFF_FFFF
    }

    fn bits() -> u32 {
        32
    }
}

impl Constrain for U48 {
    open spec fn min_spec() -> int {
        0
    }

    open spec fn max_spec() -> int {
        0xFFFF_FFFF_FFFF
    }

    open spec fn bits_spec() -> nat {
        48
    }

    proof fn lemma_valid() {
        lemma2_to64();
        lemma2_to64_rest();
    }

    fn min() -> i128 {
        0
    }

    fn max() -> i128 {
        0xFFFF_FFFF_FFFF
    }

    fn bits() -> u32 {
        48
    }
}

impl Constrain for U64 {
    open spec fn min_spec() -> int {
        0
    }

    open spec fn max_spec() -> int {
        0xFFFF_FFFF_FFFF_FFFF
    }

    open spec fn bits_spec() -> nat {
        64
    }

    proof fn lemma_valid() {
        lemma2_to64();
        lemma2_to64_rest();
    }

    fn min() -> i128 {
        0
    }

    fn max() -> i128 {
        0xFFFF_FFFF_FFFF_FFFF
    }

    fn bits() -> u32 {
        64
    }
}

impl Constrain for I64 {
    open spec fn min_spec() -> int {
        -0x8000_0000_0000_0000
    }

    open spec fn max_spec() -> int {
        0x7FFF_FFFF_FFFF_FFFF
    }

    open spec fn bits_spec() -> nat {
        64
    }

    proof fn lemma_valid() {
        lemma2_to64();
        lemma2_to64_rest();
    }

    fn min() -> i128 {
        -0x8000_0000_0000_0000
    }

    fn max() -> i128 {
        0x7FFF_FFFF_FFFF_FFFF
    }

    fn bits() -> u32 {
        64
    }
}

/// A constrained integer: an integer value known to lie in the range of
/// its width descriptor `C`.
#[verifier::ext_equal]
#[derive(Debug, PartialEq, Eq)]
pub struct Int<C: Constrain>(i128, PhantomData<C>);

impl<C: Constrain> Clone for Int<C> {
    fn clone(&self) -> (r: Self)
        ensures
            r == *self,
    {
        *self
    }
}

impl<C: Constrain> Copy for Int<C> {

}

impl<C: Constrain> View for Int<C> {
    type V = int;

    closed spec fn view(&self) -> int {
        self.0 as int
    }
}

impl<C: Constrain> Int<C> {
    /// The stored value lies in the declared range.
    pub open spec fn wf(self) -> bool {
        C::min_spec() <= self@ <= C::max_spec()
    }

    /// The constrained integer holding the value `v`.
    pub closed spec fn spec_new(v: int) -> Int<C> {
        Int(v as i128, PhantomData)
    }

    /// `spec_new` is the inverse of the view on representable values.
    pub proof fn lemma_spec_new(v: int)
        requires
            -0x8000_0000_0000_0000_0000_0000_0000_0000 <= v < 0x8000_0000_0000_0000_0000_0000_0000_0000,
        ensures
            Int::<C>::spec_new(v)@ == v,
    {
    }

    /// Two constrained integers with one value are one.
    pub proof fn lemma_view_injective(a: Int<C>, b: Int<C>)
        requires
            a@ == b@,
        ensures
            a == b,
    {
        assert(a.0 == b.0);
        assert(a =~= b);
    }

    /// A constrained integer is the `spec_new` of its own value.
    pub proof fn lemma_eq_spec_new(self, v: int)
        requires
            self@ == v,
        ensures
            self == Int::<C>::spec_new(v),
    {
        assert(self =~= Int::<C>::spec_new(v));
    }

    /// Construction validates the range: it succeeds exactly on values
    /// within `[min, max]` and stores the value unchanged.
    pub fn new(c: i128) -> (r: Result<Self, RangeError>)
        ensures
            match r {
                Ok(i) => C::min_spec() <= c as int <= C::max_spec() && i@ == c as int && i.wf(),
                Err(_) => !(C::min_spec() <= c as int <= C::max_spec()),
            },
    {
        if c > C::max() {
            Err(RangeError)
        } else if c < C::min() {
            Err(RangeError)
        } else {
            Ok(Int(c, PhantomData))
        }
    }

    /// Construction from a value already known to be in range.
    pub(crate) fn new_in_range(c: i128) -> (r: Self)
        requires
            C::min_spec() <= c as int <= C::max_spec(),
        ensures
            r@ == c as int,
            r.wf(),
    {
        Int(c, PhantomData)
    }

    /// The stored value.
    pub fn into_inner(self) -> (r: i128)
        ensures
            r as int == self@,
    {
        self.0
    }

    /// Conversion to another width, validating the range: a widening
    /// conversion succeeds unconditionally, a narrowing one succeeds
    /// exactly when the value fits the target range.
    pub fn convert<D: Constrain>(self) -> (r: Result<Int<D>, RangeError>)
        requires
            self.wf(),
        ensures
            match r {
                Ok(i) => i@ == self@ && i.wf(),
                Err(_) => !(D::min_spec() <= self@ <= D::max_spec()),
            },
            D::min_spec() <= C::min_spec() && C::max_spec() <= D::max_spec() ==> r is Ok,
    {
        Int::<D>::new(self.0)
    }

    /// Addition over the underlying value, revalidated against the range.
    pub fn add(self, other: Self) -> (r: Result<Self, RangeError>)
        requires
            self.wf(),
            other.wf(),
        ensures
            match r {
                Ok(i) => i@ == self@ + other@ && i.wf(),
                Err(_) => !(C::min_spec() <= self@ + other@ <= C::max_spec()),
            },
    {
        proof {
            lemma_range_fits::<C>();
        }
        let sum: i128 = self.0 + other.0;
        if sum > C::max() {
            Err(RangeError)
        } else if sum < C::min() {
            Err(RangeError)
        } else {
            Ok(Int(sum, PhantomData))
        }
    }

    /// In-place addition; on a range violation the value is unchanged.
    pub fn add_assign(&mut self, other: Self) -> (r: Result<(), RangeError>)
        requires
            old(self).wf(),
            other.wf(),
        ensures
            match r {
                Ok(_) => final(self)@ == old(self)@ + other@ && final(self).wf(),
                Err(_) => *final(self) == *old(self) && !(C::min_spec() <= old(self)@ + other@
                    <= C::max_spec()),
            },
    {
        match self.add(other) {
            Ok(sum) => {
                *self = sum;
                Ok(())
            },
            Err(e) => Err(e),
        }
    }

    /// Left shift: multiplication by `2^n`, revalidated against the range.
    pub fn shl(self, n: u32) -> (r: Result<Self, RangeError>)
        requires
            self.wf(),
        ensures
            match r {
                Ok(i) => i@ == self@ * pow2(n as nat) && i.wf(),
                Err(_) => !(C::min_spec() <= self@ * pow2(n as nat) <= C::max_spec()),
            },
    {
        proof {
            lemma_range_fits::<C>();
            lemma2_to64();
        }
        let mut v: i128 = self.0;
        let mut k: u32 = 0;
        while k < n
            invariant
                k <= n,
                self.wf(),
                C::min_spec() <= v as int <= C::max_spec(),
                v as int == self@ * pow2(k as nat),
                -0x8000_0000_0000_0000 <= C::min_spec(),
                C::max_spec() <= 0xFFFF_FFFF_FFFF_FFFF,
                C::min_spec() <= 0 <= C::max_spec(),
            decreases n - k,
        {
            let w: i128 = v * 2;
            proof {
                lemma_pow2_adds(k as nat, 1);
                lemma2_to64();
                assert(w as int == self@ * pow2((k + 1) as nat)) by (nonlinear_arith)
                    requires
                        w == v * 2,
                        v as int == self@ * pow2(k as nat),
                        pow2((k + 1) as nat) == pow2(k as nat) * 2,
                ;
            }
            if w > C::max() || w < C::min() {
                proof {
                    lemma_shift_escapes::<C>(self@, (k + 1) as nat, n as nat, w as int);
                }
                return Err(RangeError);
            }
            v = w;
            k = k + 1;
        }
        Ok(Int(v, PhantomData))
    }

    /// Right shift: flooring division by `2^n`. The result of a shift
    /// toward zero always stays within the range, so this is total.
    pub fn shr(self, n: u32) -> (r: Self)
        requires
            self.wf(),
        ensures
            r@ == self@ / (pow2(n as nat) as int),
            r.wf(),
    {
        proof {
            lemma_range_fits::<C>();
            lemma2_to64();
        }
        let mut v: i128 = self.0;
        let mut k: u32 = 0;
        while k < n
            invariant
                k <= n,
                self.wf(),
                C::min_spec() <= v as int <= C::max_spec(),
                v as int == self@ / (pow2(k as nat) as int),
                -0x8000_0000_0000_0000 <= C::min_spec(),
                C::max_spec() <= 0xFFFF_FFFF_FFFF_FFFF,
                C::min_spec() <= 0 <= C::max_spec(),
            decreases n - k,
        {
            let w: i128 = if v >= 0 {
                ((v as u128) / 2) as i128
            } else {
                let m: u128 = (-v) as u128;
                -(((m + 1) / 2) as i128)
            };
            proof {
                lemma_halving(v as int, w as int);
                lemma2_to64();
                lemma_pow2_adds(k as nat, 1);
                lemma_pow2_pos(k as nat);
                lemma_div_div(self@, pow2(k as nat) as int, 2);
                assert(pow2(k as nat) * 2 == pow2((k + 1) as nat));
            }
            v = w;
            k = k + 1;
        }
        Int(v, PhantomData)
    }
}

/// If one more doubling of an in-range partial shift leaves the range,
/// the full shift leaves the range too.
proof fn lemma_shift_escapes<C: Constrain>(s: int, j: nat, n: nat, w: int)
    requires
        j <= n,
        w == s * pow2(j),
        !(C::min_spec() <= w <= C::max_spec()),
        C::min_spec() <= 0 <= C::max_spec(),
    ensures
        !(C::min_spec() <= s * pow2(n) <= C::max_spec()),
{
    lemma_pow2_pos(j);
    lemma_pow2_pos(n);
    if j < n {
        lemma_pow2_strictly_increases(j, n);
    }
    if s == 0 {
        assert(w == 0) by (nonlinear_arith)
            requires w == s * pow2(j), s == 0,
        ;
    } else if s > 0 {
        assert(s * pow2(j) <= s * pow2(n) && s * pow2(j) > 0) by (nonlinear_arith)
            requires
                0 < s,
                0 < pow2(j) <= pow2(n),
        ;
    } else {
        assert(s * pow2(n) <= s * pow2(j) && s * pow2(j) < 0) by (nonlinear_arith)
            requires
                s < 0,
                0 < pow2(j) <= pow2(n),
        ;
    }
}

/// Flooring division composes: dividing by `c` and then by `d` is
/// dividing by `c * d`, for positive divisors and any dividend.
proof fn lemma_div_div(x: int, c: int, d: int)
    requires
        0 < c,
        0 < d,
    ensures
        (x / c) / d == x / (c * d),
{
    lemma_fundamental_div_mod(x, c);
    lemma_fundamental_div_mod(x / c, d);
    let q = (x / c) / d;
    let r = c * ((x / c) % d) + (x % c);
    assert(x == q * (c * d) + r) by (nonlinear_arith)
        requires
            x == c * (x / c) + (x % c),
            x / c == d * q + ((x / c) % d),
            r == c * ((x / c) % d) + (x % c),
    ;
    assert(0 <= r < c * d) by (nonlinear_arith)
        requires
            r == c * ((x / c) % d) + (x % c),
            0 <= (x / c) % d < d,
            0 <= x % c < c,
            0 < c,
            0 < d,
    ;
    lemma_fundamental_div_mod_converse(x, c * d, q, r);
}

/// The exec halving step computes the flooring half.
proof fn lemma_halving(v: int, w: int)
    requires
        v >= 0 ==> w == v / 2,
        v < 0 ==> w == -((-v + 1) / 2),
    ensures
        w == v / 2,
{
    if v < 0 {
        let m = -v;
        lemma_fundamental_div_mod(m + 1, 2);
        let t = (m + 1) / 2;
        let u = (m + 1) % 2;
        // v == 2 * (-t) + (1 - u), and 0 <= 1 - u < 2
        lemma_fundamental_div_mod_converse(v, 2, -t, 1 - u);
    }
}

/// A constrained integer inherits the width of its descriptor, so the
/// wrapper can stand wherever the descriptor's bounds are asked for.
impl<C: Constrain> Constrain for Int<C> {
    open spec fn min_spec() -> int {
        C::min_spec()
    }

    open spec fn max_spec() -> int {
        C::max_spec()
    }

    open spec fn bits_spec() -> nat {
        C::bits_spec()
    }

    proof fn lemma_valid() {
        C::lemma_valid();
    }

    fn min() -> i128 {
        C::min()
    }

    fn max() -> i128 {
        C::max()
    }

    fn bits() -> u32 {
        C::bits()
    }
}

/// A checked conversion whose exact outcome is pinned by a specification
/// function: it yields `Some` exactly where the specification does.
pub trait TryFrom<T>: Sized {
    spec fn try_from_spec(t: T) -> Option<Self>;

    fn try_from(t: T) -> (r: Option<Self>)
        ensures
            r == Self::try_from_spec(t),
    ;
}

/// The reflexive companion of [`TryFrom`]: every conversion target a
/// `TryFrom` exists for can also be reached through `try_into`.
pub trait TryInto<T>: Sized {
    fn try_into(self) -> (r: Option<T>);
}

impl<T: TryFrom<U>, U> TryInto<T> for U {
    fn try_into(self) -> (r: Option<T>) {
        T::try_from(self)
    }
}

impl<C: Constrain> TryFrom<i128> for Int<C> {
    open spec fn try_from_spec(t: i128) -> Option<Self> {
        if C::min_spec() <= t as int <= C::max_spec() {
            Some(Int::spec_new(t as int))
        } else {
            None
        }
    }

    fn try_from(t: i128) -> (r: Option<Self>) {
        match Self::new(t) {
            Ok(i) => {
                proof {
                    Int::<C>::lemma_spec_new(t as int);
                    Int::<C>::lemma_view_injective(i, Int::spec_new(t as int));
                }
                Some(i)
            },
            Err(_) => None,
        }
    }
}

/// The primitive field types of the protocol, named as the standard names
/// them, each a constrained integer of the exact wire width.
pub type Boolean = Int<U1>;

pub type Enumeration4 = Int<U4>;

pub type Enumeration8 = Int<U8>;

pub type Enumeration16 = Int<U16>;

pub type UInteger4 = Int<U4>;

pub type Integer8 = Int<I8>;

pub type UInteger8 = Int<U8>;

pub type Integer16 = Int<I16>;

pub type UInteger16 = Int<U16>;

pub type Integer32 = Int<I32>;

pub type UInteger32 = Int<U32>;

pub type UInteger48 = Int<U48>;

pub type Integer64 = Int<I64>;

pub type Nibble = Int<U4>;

pub type Octet = Int<U8>;

} // verus!
