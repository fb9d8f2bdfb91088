//! The symbolic catalogs of the protocol enumerations: each symbol's
//! fixed wire value, and the proof that the two directions of the
//! mapping agree.

use vstd::prelude::*;

verus! {

use crate::primitive::{Int, U4, U8, TryFrom, Enumeration4, Enumeration8};
use crate::enums::IntoRaw;

/// The message types the standard defines, by their 4-bit wire value.
#[allow(non_camel_case_types)]
#[derive(Clone, Copy, Debug, PartialEq, Eq)]
pub enum MessageType {
    Sync,
    Delay_Req,
    Pdelay_Req,
    Pdelay_Resp,
    Follow_Up,
    Delay_Resp,
    Pdelay_Resp_Follow_Up,
    Announce,
    Signaling,
    Management,
}

impl TryFrom<Enumeration4> for MessageType {
    open spec fn try_from_spec(e: Enumeration4) -> Option<Self> {
        if e@ == 0x0 {
            Some(MessageType::Sync)
        } else if e@ == 0x1 {
            Some(MessageType::Delay_Req)
        } else if e@ == 0x2 {
            Some(MessageType::Pdelay_Req)
        } else if e@ == 0x3 {
            Some(MessageType::Pdelay_Resp)
        } else if e@ == 0x8 {
            Some(MessageType::Follow_Up)
        } else if e@ == 0x9 {
            Some(MessageType::Delay_Resp)
        } else if e@ == 0xA {
            Some(MessageType::Pdelay_Resp_Follow_Up)
        } else if e@ == 0xB {
            Some(MessageType::Announce)
        } else if e@ == 0xC {
            Some(MessageType::Signaling)
        } else if e@ == 0xD {
            Some(MessageType::Management)
        } else {
            None
        }
    }

    fn try_from(e: Enumeration4) -> (r: Option<Self>) {
        let v: i128 = e.into_inner();
        if v == 0x0 {
            Some(MessageType::Sync)
        } else if v == 0x1 {
            Some(MessageType::Delay_Req)
        } else if v == 0x2 {
            Some(MessageType::Pdelay_Req)
        } else if v == 0x3 {
            Some(MessageType::Pdelay_Resp)
        } else if v == 0x8 {
            Some(MessageType::Follow_Up)
        } else if v == 0x9 {
            Some(MessageType::Delay_Resp)
        } else if v == 0xA {
            Some(MessageType::Pdelay_Resp_Follow_Up)
        } else if v == 0xB {
            Some(MessageType::Announce)
        } else if v == 0xC {
            Some(MessageType::Signaling)
        } else if v == 0xD {
            Some(MessageType::Management)
        } else {
            None
        }
    }
}

impl IntoRaw<Enumeration4> for MessageType {
    open spec fn into_raw_spec(self) -> Enumeration4 {
        match self {
            MessageType::Sync => Int::spec_new(0x0),
            MessageType::Delay_Req => Int::spec_new(0x1),
            MessageType::Pdelay_Req => Int::spec_new(0x2),
            MessageType::Pdelay_Resp => Int::spec_new(0x3),
            MessageType::Follow_Up => Int::spec_new(0x8),
            MessageType::Delay_Resp => Int::spec_new(0x9),
            MessageType::Pdelay_Resp_Follow_Up => Int::spec_new(0xA),
            MessageType::Announce => Int::spec_new(0xB),
            MessageType::Signaling => Int::spec_new(0xC),
            MessageType::Management => Int::spec_new(0xD),
        }
    }

    fn into_raw(self) -> (r: Enumeration4) {
        let v: i128 = match self {
            MessageType::Sync => 0x0,
            MessageType::Delay_Req => 0x1,
            MessageType::Pdelay_Req => 0x2,
            MessageType::Pdelay_Resp => 0x3,
            MessageType::Follow_Up => 0x8,
            MessageType::Delay_Resp => 0x9,
            MessageType::Pdelay_Resp_Follow_Up => 0xA,
            MessageType::Announce => 0xB,
            MessageType::Signaling => 0xC,
            MessageType::Management => 0xD,
        };
        let r = Int::<U4>::new_in_range(v);
        proof {
            r.lemma_eq_spec_new(v as int);
        }
        r
    }

    proof fn lemma_raw_round_trip(e: Enumeration4) {
        lemma_u4_values();
        if Self::try_from_spec(e) is Some {
            e.lemma_eq_spec_new(e@);
        }
    }

    proof fn lemma_symbol_round_trip(t: Self) {
        lemma_u4_values();
    }
}

/// The views of the nibble constants the message-type catalog uses.
proof fn lemma_u4_values()
    ensures
        Int::<U4>::spec_new(0x0)@ == 0x0,
        Int::<U4>::spec_new(0x1)@ == 0x1,
        Int::<U4>::spec_new(0x2)@ == 0x2,
        Int::<U4>::spec_new(0x3)@ == 0x3,
        Int::<U4>::spec_new(0x8)@ == 0x8,
        Int::<U4>::spec_new(0x9)@ == 0x9,
        Int::<U4>::spec_new(0xA)@ == 0xA,
        Int::<U4>::spec_new(0xB)@ == 0xB,
        Int::<U4>::spec_new(0xC)@ == 0xC,
        Int::<U4>::spec_new(0xD)@ == 0xD,
{
    Int::<U4>::lemma_spec_new(0x0);
    Int::<U4>::lemma_spec_new(0x1);
    Int::<U4>::lemma_spec_new(0x2);
    Int::<U4>::lemma_spec_new(0x3);
    Int::<U4>::lemma_spec_new(0x8);
    Int::<U4>::lemma_spec_new(0x9);
    Int::<U4>::lemma_spec_new(0xA);
    Int::<U4>::lemma_spec_new(0xB);
    Int::<U4>::lemma_spec_new(0xC);
    Int::<U4>::lemma_spec_new(0xD);
}

/// The time sources the standard defines, by their 8-bit wire value.
#[allow(non_camel_case_types)]
#[derive(Clone, Copy, Debug, PartialEq, Eq)]
pub enum TimeSource {
    ATOMIC_CLOCK,
    GPS,
    TERRESTRIAL_RADIO,
    PTP,
    NTP,
    HAND_SET,
    OTHER,
    INTERNAL_OSCILLATOR,
}

impl TryFrom<Enumeration8> for TimeSource {
    open spec fn try_from_spec(e: Enumeration8) -> Option<Self> {
        if e@ == 0x10 {
            Some(TimeSource::ATOMIC_CLOCK)
        } else if e@ == 0x20 {
            Some(TimeSource::GPS)
        } else if e@ == 0x30 {
            Some(TimeSource::TERRESTRIAL_RADIO)
        } else if e@ == 0x40 {
            Some(TimeSource::PTP)
        } else if e@ == 0x50 {
            Some(TimeSource::NTP)
        } else if e@ == 0x60 {
            Some(TimeSource::HAND_SET)
        } else if e@ == 0x90 {
            Some(TimeSource::OTHER)
        } else if e@ == 0xA0 {
            Some(TimeSource::INTERNAL_OSCILLATOR)
        } else {
            None
        }
    }

    fn try_from(e: Enumeration8) -> (r: Option<Self>) {
        let v: i128 = e.into_inner();
        if v == 0x10 {
            Some(TimeSource::ATOMIC_CLOCK)
        } else if v == 0x20 {
            Some(TimeSource::GPS)
        } else if v == 0x30 {
            Some(TimeSource::TERRESTRIAL_RADIO)
        } else if v == 0x40 {
            Some(TimeSource::PTP)
        } else if v == 0x50 {
            Some(TimeSource::NTP)
        } else if v == 0x60 {
            Some(TimeSource::HAND_SET)
        } else if v == 0x90 {
            Some(TimeSource::OTHER)
        } else if v == 0xA0 {
            Some(TimeSource::INTERNAL_OSCILLATOR)
        } else {
            None
        }
    }
}

impl IntoRaw<Enumeration8> for TimeSource {
    open spec fn into_raw_spec(self) -> Enumeration8 {
        match self {
            TimeSource::ATOMIC_CLOCK => Int::spec_new(0x10),
            TimeSource::GPS => Int::spec_new(0x20),
            TimeSource::TERRESTRIAL_RADIO => Int::spec_new(0x30),
            TimeSource::PTP => Int::spec_new(0x40),
            TimeSource::NTP => Int::spec_new(0x50),
            TimeSource::HAND_SET => Int::spec_new(0x60),
            TimeSource::OTHER => Int::spec_new(0x90),
            TimeSource::INTERNAL_OSCILLATOR => Int::spec_new(0xA0),
        }
    }

    fn into_raw(self) -> (r: Enumeration8) {
        let v: i128 = match self {
            TimeSource::ATOMIC_CLOCK => 0x10,
            TimeSource::GPS => 0x20,
            TimeSource::TERRESTRIAL_RADIO => 0x30,
            TimeSource::PTP => 0x40,
            TimeSource::NTP => 0x50,
            TimeSource::HAND_SET => 0x60,
            TimeSource::OTHER => 0x90,
            TimeSource::INTERNAL_OSCILLATOR => 0xA0,
        };
        let r = Int::<U8>::new_in_range(v);
        proof {
            r.lemma_eq_spec_new(v as int);
        }
        r
    }

    proof fn lemma_raw_round_trip(e: Enumeration8) {
        lemma_u8_values();
        if Self::try_from_spec(e) is Some {
            e.lemma_eq_spec_new(e@);
        }
    }

    proof fn lemma_symbol_round_trip(t: Self) {
        lemma_u8_values();
    }
}

/// The views of the octet constants the catalogs over octets use.
proof fn lemma_u8_values()
    ensures
        Int::<U8>::spec_new(0x10)@ == 0x10,
        Int::<U8>::spec_new(0x20)@ == 0x20,
        Int::<U8>::spec_new(0x30)@ == 0x30,
        Int::<U8>::spec_new(0x40)@ == 0x40,
        Int::<U8>::spec_new(0x50)@ == 0x50,
        Int::<U8>::spec_new(0x60)@ == 0x60,
        Int::<U8>::spec_new(0x90)@ == 0x90,
        Int::<U8>::spec_new(0xA0)@ == 0xA0,
        Int::<U8>::spec_new(0xFF)@ == 0xFF,
{
    Int::<U8>::lemma_spec_new(0x10);
    Int::<U8>::lemma_spec_new(0x20);
    Int::<U8>::lemma_spec_new(0x30);
    Int::<U8>::lemma_spec_new(0x40);
    Int::<U8>::lemma_spec_new(0x50);
    Int::<U8>::lemma_spec_new(0x60);
    Int::<U8>::lemma_spec_new(0x90);
    Int::<U8>::lemma_spec_new(0xA0);
    Int::<U8>::lemma_spec_new(0xFF);
}

/// The clock-accuracy catalog: the one symbol the codec distinguishes.
#[derive(Clone, Copy, Debug, PartialEq, Eq)]
pub enum ClockAcurracy {
    Unknown,
}

impl TryFrom<Enumeration8> for ClockAcurracy {
    open spec fn try_from_spec(e: Enumeration8) -> Option<Self> {
        if e@ == 0xFF {
            Some(ClockAcurracy::Unknown)
        } else {
            None
        }
    }

    fn try_from(e: Enumeration8) -> (r: Option<Self>) {
        let v: i128 = e.into_inner();
        if v == 0xFF {
            Some(ClockAcurracy::Unknown)
        } else {
            None
        }
    }
}

impl IntoRaw<Enumeration8> for ClockAcurracy {
    open spec fn into_raw_spec(self) -> Enumeration8 {
        Int::spec_new(0xFF)
    }

    fn into_raw(self) -> (r: Enumeration8) {
        let r = Int::<U8>::new_in_range(0xFF);
        proof {
            r.lemma_eq_spec_new(0xFF);
        }
        r
    }

    proof fn lemma_raw_round_trip(e: Enumeration8) {
        lemma_u8_values();
        if Self::try_from_spec(e) is Some {
            e.lemma_eq_spec_new(e@);
        }
    }

    proof fn lemma_symbol_round_trip(t: Self) {
        lemma_u8_values();
    }
}

} // verus!
