//! Extensible enumerations: a tagged union over a raw wire value and a
//! symbolic catalog. Conversion from the wire is total — a value outside
//! the catalog is kept as `Unknown` — and conversion back to the wire
//! returns exactly the value that came in.

use vstd::prelude::*;

pub mod values;

verus! {

use vstd::arithmetic::power2::pow2;
use crate::primitive::{Constrain, Int, RangeError, TryFrom};

/// A symbolic catalog over a raw type: every symbol has one fixed wire
/// value, and the two directions of the mapping agree.
pub trait IntoRaw<E>: TryFrom<E> + Copy {
    spec fn into_raw_spec(self) -> E;

    fn into_raw(self) -> (r: E)
        ensures
            r == self.into_raw_spec(),
    ;

    /// A raw value that maps to a symbol is that symbol's own wire value.
    proof fn lemma_raw_round_trip(e: E)
        ensures
            match Self::try_from_spec(e) {
                Some(t) => t.into_raw_spec() == e,
                None => true,
            },
    ;

    /// Each symbol is recovered from its own wire value.
    proof fn lemma_symbol_round_trip(t: Self)
        ensures
            Self::try_from_spec(t.into_raw_spec()) == Some(t),
    ;
}

/// A recognized symbol, or an unrecognized raw wire value carried through
/// unchanged so that decoding never aborts on it.
#[verifier::ext_equal]
#[derive(Debug, PartialEq, Eq)]
pub enum Enumeration<E, T> {
    Enum(T),
    Unknown(E),
}

impl<E: Copy, T: Copy> Clone for Enumeration<E, T> {
    fn clone(&self) -> (r: Self)
        ensures
            r == *self,
    {
        *self
    }
}

impl<E: Copy, T: Copy> Copy for Enumeration<E, T> {

}

impl<E: Copy, T: IntoRaw<E>> Enumeration<E, T> {
    /// The catalog image of a raw value: the symbol where one is defined,
    /// else the raw value kept as it came.
    pub open spec fn spec_from_raw(e: E) -> Self {
        match T::try_from_spec(e) {
            Some(t) => Enumeration::Enum(t),
            None => Enumeration::Unknown(e),
        }
    }

    /// The wire value of this enumeration value.
    pub open spec fn raw_spec(self) -> E {
        match self {
            Enumeration::Enum(t) => t.into_raw_spec(),
            Enumeration::Unknown(e) => e,
        }
    }

    /// `Unknown` only ever holds a value with no symbolic mapping.
    pub open spec fn wf(self) -> bool {
        match self {
            Enumeration::Enum(_) => true,
            Enumeration::Unknown(e) => T::try_from_spec(e) is None,
        }
    }

    /// Conversion from the wire. It is total — no raw value fails — and
    /// returns a value that serializes back to exactly `e`.
    pub fn from_raw(e: E) -> (r: Self)
        ensures
            r == Self::spec_from_raw(e),
            r.wf(),
            r.raw_spec() == e,
    {
        proof {
            T::lemma_raw_round_trip(e);
        }
        match T::try_from(e) {
            Some(t) => Enumeration::Enum(t),
            None => Enumeration::Unknown(e),
        }
    }

    /// Conversion back to the wire; total on both variants.
    pub fn to_raw(self) -> (r: E)
        ensures
            r == self.raw_spec(),
    {
        match self {
            Enumeration::Enum(t) => t.into_raw(),
            Enumeration::Unknown(e) => e,
        }
    }

    /// Totality of the raw round trip: conversion from any raw value
    /// never fails — it is total by its type — and converting the
    /// result back gives the raw value unchanged.
    pub proof fn lemma_to_raw_of_from_raw(e: E)
        ensures
            Self::spec_from_raw(e).raw_spec() == e,
    {
        T::lemma_raw_round_trip(e);
    }

    /// On a well-formed value, reading the wire value back through the
    /// catalog gives the value itself.
    pub proof fn lemma_from_raw_of_raw(self)
        requires
            self.wf(),
        ensures
            Self::spec_from_raw(self.raw_spec()) == self,
    {
        match self {
            Enumeration::Enum(t) => {
                T::lemma_symbol_round_trip(t);
            },
            Enumeration::Unknown(_) => {
            },
        }
    }
}

impl<C: Constrain, T: IntoRaw<Int<C>>> Enumeration<Int<C>, T> {
    /// The wire value lies in the range of its width.
    pub open spec fn raw_wf(self) -> bool {
        self.raw_spec().wf()
    }

    /// Addition over the raw value, then reconstruction through the
    /// catalog; used for bit-packing composition, not domain arithmetic.
    pub fn add(self, other: Self) -> (r: Result<Self, RangeError>)
        requires
            self.raw_wf(),
            other.raw_wf(),
        ensures
            match r {
                Ok(v) => {
                    &&& C::min_spec() <= self.raw_spec()@ + other.raw_spec()@ <= C::max_spec()
                    &&& v == Self::spec_from_raw(
                        Int::spec_new(self.raw_spec()@ + other.raw_spec()@),
                    )
                    &&& v.wf()
                },
                Err(_) => !(C::min_spec() <= self.raw_spec()@ + other.raw_spec()@
                    <= C::max_spec()),
            },
    {
        let a = self.to_raw();
        let b = other.to_raw();
        match a.add(b) {
            Ok(s) => {
                proof {
                    s.lemma_eq_spec_new(self.raw_spec()@ + other.raw_spec()@);
                }
                Ok(Self::from_raw(s))
            },
            Err(e) => Err(e),
        }
    }

    /// In-place addition; on a range violation the value is unchanged.
    pub fn add_assign(&mut self, other: Self) -> (r: Result<(), RangeError>)
        requires
            old(self).raw_wf(),
            other.raw_wf(),
        ensures
            match r {
                Ok(_) => {
                    &&& C::min_spec() <= old(self).raw_spec()@ + other.raw_spec()@
                        <= C::max_spec()
                    &&& *final(self) == Self::spec_from_raw(
                        Int::spec_new(old(self).raw_spec()@ + other.raw_spec()@),
                    )
                },
                Err(_) => *final(self) == *old(self) && !(C::min_spec() <= old(self).raw_spec()@
                    + other.raw_spec()@ <= C::max_spec()),
            },
    {
        match self.add(other) {
            Ok(v) => {
                *self = v;
                Ok(())
            },
            Err(e) => Err(e),
        }
    }

    /// Left shift of the raw value, then reconstruction through the catalog.
    pub fn shl(self, n: u32) -> (r: Result<Self, RangeError>)
        requires
            self.raw_wf(),
        ensures
            match r {
                Ok(v) => {
                    &&& C::min_spec() <= self.raw_spec()@ * pow2(n as nat) <= C::max_spec()
                    &&& v == Self::spec_from_raw(
                        Int::spec_new(self.raw_spec()@ * pow2(n as nat)),
                    )
                    &&& v.wf()
                },
                Err(_) => !(C::min_spec() <= self.raw_spec()@ * pow2(n as nat)
                    <= C::max_spec()),
            },
    {
        let a = self.to_raw();
        match a.shl(n) {
            Ok(s) => {
                proof {
                    s.lemma_eq_spec_new(self.raw_spec()@ * pow2(n as nat));
                }
                Ok(Self::from_raw(s))
            },
            Err(e) => Err(e),
        }
    }

    /// Right shift of the raw value, then reconstruction through the
    /// catalog; a shift toward zero cannot leave the range.
    pub fn shr(self, n: u32) -> (r: Self)
        requires
            self.raw_wf(),
        ensures
            r == Self::spec_from_raw(Int::spec_new(self.raw_spec()@ / (pow2(n as nat) as int))),
            r.wf(),
    {
        let a = self.to_raw();
        let s = a.shr(n);
        proof {
            s.lemma_eq_spec_new(self.raw_spec()@ / (pow2(n as nat) as int));
        }
        Self::from_raw(s)
    }
}

/// The message-type field: a 4-bit wire value over the symbolic catalog.
pub type MessageType = Enumeration<crate::primitive::Enumeration4, values::MessageType>;

/// The clock-accuracy field: an 8-bit wire value over its catalog.
pub type ClockAcurracy = Enumeration<crate::primitive::Enumeration8, values::ClockAcurracy>;

/// The time-source field: an 8-bit wire value over its catalog.
pub type TimeSource = Enumeration<crate::primitive::Enumeration8, values::TimeSource>;

} // verus!
