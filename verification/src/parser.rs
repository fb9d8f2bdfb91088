//! The streaming decoder: a strict left-to-right, non-backtracking
//! consumption of a byte buffer, first the 34-byte header, then the body
//! layout the decoded message type selects. Every parser returns the
//! unconsumed remainder, and its contract says that the value it built
//! serializes back to exactly the bytes it consumed.

use vstd::prelude::*;

verus! {

use vstd::slice::{slice_subrange, slice_index_get};
use vstd::arithmetic::power2::{pow2, lemma2_to64, lemma2_to64_rest};
use crate::bits::{
    be_nat, be_bytes, sint_of, twoc, lemma_be_bytes_len, lemma_be_bytes_of_be_nat,
    lemma_twoc_of_sint,
};
use crate::primitive::{Int, U4, U8, U16, U32, U48, I8, I16, I64, Octet};
use crate::derived::{Timestamp, PortIdentity, ClockQuality, octets_wf};
use crate::message::{Header, Body, Message, body};
use crate::enums::{Enumeration, MessageType, ClockAcurracy, values};
use crate::wire::{
    spec_ser_octets, spec_ser_timestamp, spec_ser_port_identity, spec_ser_clock_quality,
    spec_ser_header, spec_ser_announce, spec_ser_message, spec_body_len,
};

broadcast use lemma_be_bytes_len, vstd::array::group_array_axioms;

/// A decode failure. `IncompleteData(n)` says the field being read needs
/// `n` bytes and fewer remain. `MalformedField` names a field whose raw
/// bytes could not be converted; the grammar this decoder reads converts
/// every byte pattern, so only `IncompleteData` is ever produced.
#[derive(Clone, Copy, Debug, PartialEq, Eq)]
pub enum DecodeError {
    IncompleteData(usize),
    MalformedField(&'static str),
}

/// The message type a buffer's first byte selects: its low nibble, read
/// through the catalog.
pub open spec fn spec_msg_type_of(s: Seq<u8>) -> MessageType
    recommends
        s.len() >= 1,
{
    Enumeration::spec_from_raw(Int::spec_new((s[0] % 16) as int))
}

/// The error a header decode returns on a buffer of `len` < 34 bytes:
/// the byte requirement of the first field that does not fit.
pub open spec fn spec_header_err(len: int) -> DecodeError {
    if len < 2 {
        DecodeError::IncompleteData(1)
    } else if len < 4 {
        DecodeError::IncompleteData(2)
    } else if len < 5 {
        DecodeError::IncompleteData(1)
    } else if len < 6 {
        DecodeError::IncompleteData(1)
    } else if len < 8 {
        DecodeError::IncompleteData(2)
    } else if len < 16 {
        DecodeError::IncompleteData(8)
    } else if len < 20 {
        DecodeError::IncompleteData(4)
    } else if len < 28 {
        DecodeError::IncompleteData(8)
    } else if len < 30 {
        DecodeError::IncompleteData(2)
    } else if len < 32 {
        DecodeError::IncompleteData(2)
    } else if len < 33 {
        DecodeError::IncompleteData(1)
    } else {
        DecodeError::IncompleteData(1)
    }
}

/// The error a timestamp decode returns on `rem` < 10 remaining bytes.
pub open spec fn spec_timestamp_err(rem: int) -> DecodeError {
    if rem < 6 {
        DecodeError::IncompleteData(6)
    } else {
        DecodeError::IncompleteData(4)
    }
}

/// The error a port-identity decode returns on `rem` < 10 remaining bytes.
pub open spec fn spec_port_identity_err(rem: int) -> DecodeError {
    if rem < 8 {
        DecodeError::IncompleteData(8)
    } else {
        DecodeError::IncompleteData(2)
    }
}

/// The error a clock-quality decode returns on `rem` < 4 remaining bytes.
pub open spec fn spec_clock_quality_err(rem: int) -> DecodeError {
    if rem < 2 {
        DecodeError::IncompleteData(1)
    } else {
        DecodeError::IncompleteData(2)
    }
}

/// The error an announce-body decode returns on `rem` < 30 remaining bytes.
pub open spec fn spec_announce_err(rem: int) -> DecodeError {
    if rem < 10 {
        spec_timestamp_err(rem)
    } else if rem < 12 {
        DecodeError::IncompleteData(2)
    } else if rem < 13 {
        DecodeError::IncompleteData(1)
    } else if rem < 14 {
        DecodeError::IncompleteData(1)
    } else if rem < 18 {
        spec_clock_quality_err(rem - 14)
    } else if rem < 19 {
        DecodeError::IncompleteData(1)
    } else if rem < 27 {
        DecodeError::IncompleteData(8)
    } else if rem < 29 {
        DecodeError::IncompleteData(2)
    } else {
        DecodeError::IncompleteData(1)
    }
}

/// The error a delay-response body decode returns on `rem` < 20 bytes.
pub open spec fn spec_delay_resp_err(rem: int) -> DecodeError {
    if rem < 10 {
        spec_timestamp_err(rem)
    } else {
        spec_port_identity_err(rem - 10)
    }
}

/// The error a body decode returns when fewer than the selected number
/// of body bytes remain; for message types that select no body bytes no
/// such shortfall exists.
pub open spec fn spec_body_err(mt: MessageType, rem: int) -> DecodeError {
    match mt {
        Enumeration::Enum(values::MessageType::Sync) => spec_timestamp_err(rem),
        Enumeration::Enum(values::MessageType::Delay_Req) => spec_timestamp_err(rem),
        Enumeration::Enum(values::MessageType::Follow_Up) => spec_timestamp_err(rem),
        Enumeration::Enum(values::MessageType::Delay_Resp) => spec_delay_resp_err(rem),
        Enumeration::Enum(values::MessageType::Announce) => spec_announce_err(rem),
        _ => DecodeError::IncompleteData(0),
    }
}

/// Splits off the first `n` bytes, or reports how many were needed.
fn read_bytes<'a>(i: &'a [u8], n: usize) -> (r: Result<(&'a [u8], &'a [u8]), DecodeError>)
    ensures
        match r {
            Ok(p) => i@.len() >= n && p.0@ == i@.skip(n as int) && p.1@ == i@.take(n as int),
            Err(e) => i@.len() < n && e == DecodeError::IncompleteData(n),
        },
{
    if i.len() < n {
        return Err(DecodeError::IncompleteData(n));
    }
    let chunk = slice_subrange(i, 0, n);
    let rest = slice_subrange(i, n, i.len());
    proof {
        assert(chunk@ =~= i@.take(n as int));
        assert(rest@ =~= i@.skip(n as int));
    }
    Ok((rest, chunk))
}

/// Reads an `n`-byte big-endian unsigned integer, `n` at most eight.
fn be_uint<'a>(i: &'a [u8], n: usize) -> (r: Result<(&'a [u8], u64), DecodeError>)
    requires
        1 <= n <= 8,
    ensures
        match r {
            Ok(p) => {
                &&& i@.len() >= n
                &&& p.0@ == i@.skip(n as int)
                &&& p.1 as nat == be_nat(i@.take(n as int))
                &&& (p.1 as nat) < pow2((8 * n) as nat)
            },
            Err(e) => i@.len() < n && e == DecodeError::IncompleteData(n),
        },
{
    if i.len() < n {
        return Err(DecodeError::IncompleteData(n));
    }
    proof {
        lemma2_to64();
        lemma2_to64_rest();
        assert(be_nat(i@.take(0)) == 0);
    }
    let mut acc: u64 = 0;
    let mut k: usize = 0;
    while k < n
        invariant
            k <= n <= 8,
            i@.len() >= n,
            acc as nat == be_nat(i@.take(k as int)),
            (acc as nat) < pow2((8 * k) as nat),
        decreases n - k,
    {
        let b: u8 = *slice_index_get(i, k);
        proof {
            lemma2_to64();
            lemma2_to64_rest();
            vstd::arithmetic::power2::lemma_pow2_adds((8 * k) as nat, 8);
            assert((acc as nat) * 256 + 256 <= pow2((8 * k) as nat) * 256) by (nonlinear_arith)
                requires
                    (acc as nat) < pow2((8 * k) as nat),
            ;
            assert(i@.take(k + 1).drop_last() =~= i@.take(k as int));
            assert(i@.take(k + 1).last() == i@[k as int]);
        }
        acc = acc * 256 + (b as u64);
        k = k + 1;
    }
    let rest = slice_subrange(i, n, i.len());
    proof {
        assert(rest@ =~= i@.skip(n as int));
    }
    Ok((rest, acc))
}

/// Reads a big-endian 48-bit unsigned integer from six bytes.
pub fn be_u48<'a>(i: &'a [u8]) -> (r: Result<(&'a [u8], u64), DecodeError>)
    ensures
        match r {
            Ok(p) => {
                &&& i@.len() >= 6
                &&& p.0@ == i@.skip(6)
                &&& p.1 as nat == be_nat(i@.take(6))
                &&& (p.1 as nat) < 0x1_0000_0000_0000
            },
            Err(e) => i@.len() < 6 && e == DecodeError::IncompleteData(6),
        },
{
    proof {
        lemma2_to64();
        lemma2_to64_rest();
    }
    be_uint(i, 6)
}

/// Builds four owned octets from a four-byte chunk.
fn octets4(c: &[u8]) -> (r: [Octet; 4])
    requires
        c@.len() == 4,
    ensures
        octets_wf(r@),
        spec_ser_octets(r@) == c@,
{
    let o0 = Int::<U8>::new_in_range(*slice_index_get(c, 0) as i128);
    let o1 = Int::<U8>::new_in_range(*slice_index_get(c, 1) as i128);
    let o2 = Int::<U8>::new_in_range(*slice_index_get(c, 2) as i128);
    let o3 = Int::<U8>::new_in_range(*slice_index_get(c, 3) as i128);
    let r = [o0, o1, o2, o3];
    proof {
        assert(spec_ser_octets(r@) =~= c@);
    }
    r
}

/// Builds eight owned octets from an eight-byte chunk; the copy frees
/// the identity from the input buffer's lifetime.
fn octets8(c: &[u8]) -> (r: [Octet; 8])
    requires
        c@.len() == 8,
    ensures
        octets_wf(r@),
        spec_ser_octets(r@) == c@,
{
    let o0 = Int::<U8>::new_in_range(*slice_index_get(c, 0) as i128);
    let o1 = Int::<U8>::new_in_range(*slice_index_get(c, 1) as i128);
    let o2 = Int::<U8>::new_in_range(*slice_index_get(c, 2) as i128);
    let o3 = Int::<U8>::new_in_range(*slice_index_get(c, 3) as i128);
    let o4 = Int::<U8>::new_in_range(*slice_index_get(c, 4) as i128);
    let o5 = Int::<U8>::new_in_range(*slice_index_get(c, 5) as i128);
    let o6 = Int::<U8>::new_in_range(*slice_index_get(c, 6) as i128);
    let o7 = Int::<U8>::new_in_range(*slice_index_get(c, 7) as i128);
    let r = [o0, o1, o2, o3, o4, o5, o6, o7];
    proof {
        assert(spec_ser_octets(r@) =~= c@);
    }
    r
}

/// Decodes a timestamp: six seconds bytes, four nanosecond bytes.
pub fn parse_timestamp<'a>(i: &'a [u8]) -> (r: Result<(&'a [u8], Timestamp), DecodeError>)
    ensures
        match r {
            Ok(p) => {
                &&& i@.len() >= 10
                &&& p.1.wf()
                &&& spec_ser_timestamp(p.1) == i@.take(10)
                &&& p.0@ == i@.skip(10)
            },
            Err(e) => i@.len() < 10 && e == spec_timestamp_err(i@.len() as int),
        },
{
    let (i1, sec) = match be_u48(i) {
        Ok(p) => p,
        Err(e) => {
            return Err(e);
        },
    };
    let (i2, nan) = match be_uint(i1, 4) {
        Ok(p) => p,
        Err(e) => {
            return Err(e);
        },
    };
    proof {
        lemma2_to64();
        lemma2_to64_rest();
    }
    let t = Timestamp {
        secondsField: Int::<U48>::new_in_range(sec as i128),
        nanosecondsField: Int::<U32>::new_in_range(nan as i128),
    };
    proof {
        lemma_be_bytes_of_be_nat(i@.take(6));
        lemma_be_bytes_of_be_nat(i1@.take(4));
        assert(i1@.take(4) =~= i@.subrange(6, 10));
        assert(spec_ser_timestamp(t) == be_bytes(sec as nat, 6) + be_bytes(nan as nat, 4));
        assert(i@.take(6) + i@.subrange(6, 10) =~= i@.take(10));
        assert(i2@ =~= i@.skip(10));
    }
    Ok((i2, t))
}

/// Decodes a port identity: eight identity octets, two port bytes.
pub fn parse_port_identity<'a>(i: &'a [u8]) -> (r: Result<
    (&'a [u8], PortIdentity),
    DecodeError,
>)
    ensures
        match r {
            Ok(p) => {
                &&& i@.len() >= 10
                &&& p.1.wf()
                &&& spec_ser_port_identity(p.1) == i@.take(10)
                &&& p.0@ == i@.skip(10)
            },
            Err(e) => i@.len() < 10 && e == spec_port_identity_err(i@.len() as int),
        },
{
    let (i1, chunk) = match read_bytes(i, 8) {
        Ok(p) => p,
        Err(e) => {
            return Err(e);
        },
    };
    let (i2, port) = match be_uint(i1, 2) {
        Ok(p) => p,
        Err(e) => {
            return Err(e);
        },
    };
    proof {
        lemma2_to64();
    }
    let p = PortIdentity {
        clockIdentity: octets8(chunk),
        portNumber: Int::<U16>::new_in_range(port as i128),
    };
    proof {
        lemma_be_bytes_of_be_nat(i1@.take(2));
        assert(i1@.take(2) =~= i@.subrange(8, 10));
        assert(spec_ser_port_identity(p) == i@.take(8) + i@.subrange(8, 10));
        assert(i@.take(8) + i@.subrange(8, 10) =~= i@.take(10));
        assert(i2@ =~= i@.skip(10));
    }
    Ok((i2, p))
}

/// Decodes a clock quality: class, accuracy, variance.
pub fn parse_clock_quality<'a>(i: &'a [u8]) -> (r: Result<
    (&'a [u8], ClockQuality),
    DecodeError,
>)
    ensures
        match r {
            Ok(p) => {
                &&& i@.len() >= 4
                &&& p.1.wf()
                &&& spec_ser_clock_quality(p.1) == i@.take(4)
                &&& p.0@ == i@.skip(4)
            },
            Err(e) => i@.len() < 4 && e == spec_clock_quality_err(i@.len() as int),
        },
{
    let (i1, class) = match be_uint(i, 1) {
        Ok(p) => p,
        Err(e) => {
            return Err(e);
        },
    };
    let (i2, accraw) = match be_uint(i1, 1) {
        Ok(p) => p,
        Err(e) => {
            return Err(e);
        },
    };
    let (i3, var) = match be_uint(i2, 2) {
        Ok(p) => p,
        Err(e) => {
            return Err(e);
        },
    };
    proof {
        lemma2_to64();
    }
    let q = ClockQuality {
        clockClass: Int::<U8>::new_in_range(class as i128),
        clockAccuracy: ClockAcurracy::from_raw(Int::<U8>::new_in_range(accraw as i128)),
        offsetScaledLogVariance: Int::<U16>::new_in_range(var as i128),
    };
    proof {
        lemma_be_bytes_of_be_nat(i@.take(1));
        lemma_be_bytes_of_be_nat(i1@.take(1));
        lemma_be_bytes_of_be_nat(i2@.take(2));
        assert(i1@.take(1) =~= i@.subrange(1, 2));
        assert(i2@.take(2) =~= i@.subrange(2, 4));
        assert(spec_ser_clock_quality(q) == i@.take(1) + i@.subrange(1, 2) + i@.subrange(2, 4));
        assert(i@.take(1) + i@.subrange(1, 2) + i@.subrange(2, 4) =~= i@.take(4));
        assert(i3@ =~= i@.skip(4));
    }
    Ok((i3, q))
}

/// Builds two owned octets from a two-byte chunk.
fn octets2(c: &[u8]) -> (r: [Octet; 2])
    requires
        c@.len() == 2,
    ensures
        octets_wf(r@),
        spec_ser_octets(r@) == c@,
{
    let o0 = Int::<U8>::new_in_range(*slice_index_get(c, 0) as i128);
    let o1 = Int::<U8>::new_in_range(*slice_index_get(c, 1) as i128);
    let r = [o0, o1];
    proof {
        assert(r@[0] == o0);
        assert(r@[1] == o1);
        assert(spec_ser_octets(r@) =~= c@);
    }
    r
}

/// Decodes the fixed 34-byte header. On success the header serializes
/// back to exactly the 34 bytes consumed, and its message type is the
/// low nibble of the first byte read through the catalog.
pub fn parse_ptp_header<'a>(i: &'a [u8]) -> (r: Result<(&'a [u8], Header), DecodeError>)
    ensures
        match r {
            Ok(p) => {
                &&& i@.len() >= 34
                &&& p.1.wf()
                &&& spec_ser_header(p.1) == i@.take(34)
                &&& p.0@ == i@.skip(34)
                &&& p.1.messageType == spec_msg_type_of(i@)
            },
            Err(e) => i@.len() < 34 && e == spec_header_err(i@.len() as int),
        },
{
    let (i1, b0) = match be_uint(i, 1) {
        Ok(p) => p,
        Err(e) => {
            return Err(e);
        },
    };
    let (i2, b1) = match be_uint(i1, 1) {
        Ok(p) => p,
        Err(e) => {
            return Err(e);
        },
    };
    let (i3, mlen) = match be_uint(i2, 2) {
        Ok(p) => p,
        Err(e) => {
            return Err(e);
        },
    };
    let (i4, dom) = match be_uint(i3, 1) {
        Ok(p) => p,
        Err(e) => {
            return Err(e);
        },
    };
    let (i5, res2) = match be_uint(i4, 1) {
        Ok(p) => p,
        Err(e) => {
            return Err(e);
        },
    };
    let (i6, flagc) = match read_bytes(i5, 2) {
        Ok(p) => p,
        Err(e) => {
            return Err(e);
        },
    };
    let (i7, corr) = match be_uint(i6, 8) {
        Ok(p) => p,
        Err(e) => {
            return Err(e);
        },
    };
    let (i8, res3c) = match read_bytes(i7, 4) {
        Ok(p) => p,
        Err(e) => {
            return Err(e);
        },
    };
    let (i9, spi) = match parse_port_identity(i8) {
        Ok(p) => p,
        Err(e) => {
            return Err(e);
        },
    };
    let (i10, seq) = match be_uint(i9, 2) {
        Ok(p) => p,
        Err(e) => {
            return Err(e);
        },
    };
    let (i11, ctrl) = match be_uint(i10, 1) {
        Ok(p) => p,
        Err(e) => {
            return Err(e);
        },
    };
    let (i12, logb) = match be_uint(i11, 1) {
        Ok(p) => p,
        Err(e) => {
            return Err(e);
        },
    };
    proof {
        lemma2_to64();
        lemma2_to64_rest();
        assert(b0 / 16 < 16 && b0 % 16 < 16) by (nonlinear_arith)
            requires b0 < 256,
        ;
        assert(b1 / 16 < 16 && b1 % 16 < 16) by (nonlinear_arith)
            requires b1 < 256,
        ;
    }
    let transport = Int::<U4>::new_in_range((b0 / 16) as i128);
    let mt_int = Int::<U4>::new_in_range((b0 % 16) as i128);
    let mt = Enumeration::from_raw(mt_int);
    let r1 = Int::<U4>::new_in_range((b1 / 16) as i128);
    let ver = Int::<U4>::new_in_range((b1 % 16) as i128);
    let corr_val: i128 = if corr >= 0x8000_0000_0000_0000 {
        (corr as i128) - 0x1_0000_0000_0000_0000
    } else {
        corr as i128
    };
    proof {
        lemma_twoc_of_sint(corr as nat, 64);
        assert(corr_val as int == sint_of(corr as nat, 64));
    }
    let log_val: i128 = if logb >= 0x80 {
        (logb as i128) - 0x100
    } else {
        logb as i128
    };
    proof {
        lemma_twoc_of_sint(logb as nat, 8);
        assert(log_val as int == sint_of(logb as nat, 8));
    }
    let h = Header {
        transportSpecific: transport,
        messageType: mt,
        _reserved1: r1,
        versionPTP: ver,
        messageLength: Int::<U16>::new_in_range(mlen as i128),
        domainNumber: Int::<U8>::new_in_range(dom as i128),
        _reserved2: Int::<U8>::new_in_range(res2 as i128),
        flagField: octets2(flagc),
        correctionField: Int::<I64>::new_in_range(corr_val),
        _reserved3: octets4(res3c),
        sourcePortIdentity: spi,
        sequenceId: Int::<U16>::new_in_range(seq as i128),
        controlField: Int::<U8>::new_in_range(ctrl as i128),
        logMessageInterval: Int::<I8>::new_in_range(log_val),
    };
    proof {
        // the consumed suffixes, as offsets into the original buffer
        assert(i1@ =~= i@.skip(1));
        assert(i2@ =~= i@.skip(2));
        assert(i3@ =~= i@.skip(4));
        assert(i4@ =~= i@.skip(5));
        assert(i5@ =~= i@.skip(6));
        assert(i6@ =~= i@.skip(8));
        assert(i7@ =~= i@.skip(16));
        assert(i8@ =~= i@.skip(20));
        assert(i9@ =~= i@.skip(30));
        assert(i10@ =~= i@.skip(32));
        assert(i11@ =~= i@.skip(33));
        assert(i12@ =~= i@.skip(34));
        // each field's bytes are the matching chunk of the buffer
        vstd::arithmetic::div_mod::lemma_fundamental_div_mod(b0 as int, 16);
        vstd::arithmetic::div_mod::lemma_fundamental_div_mod(b1 as int, 16);
        lemma_be_bytes_of_be_nat(i@.take(1));
        assert(i@.take(1).drop_last() =~= i@.take(0));
        assert(b0 as nat == i@[0] as nat);
        let c1 = be_bytes((h.transportSpecific@ * 16 + h.messageType.raw_spec()@) as nat, 1);
        assert(h.transportSpecific@ * 16 + h.messageType.raw_spec()@ == b0 as int);
        assert(c1 == i@.take(1));
        lemma_be_bytes_of_be_nat(i1@.take(1));
        assert(i1@.take(1) =~= i@.subrange(1, 2));
        let c2 = be_bytes((h._reserved1@ * 16 + h.versionPTP@) as nat, 1);
        assert(h._reserved1@ * 16 + h.versionPTP@ == b1 as int);
        assert(c2 == i@.subrange(1, 2));
        lemma_be_bytes_of_be_nat(i2@.take(2));
        assert(i2@.take(2) =~= i@.subrange(2, 4));
        let c3 = be_bytes(h.messageLength@ as nat, 2);
        assert(c3 == i@.subrange(2, 4));
        lemma_be_bytes_of_be_nat(i3@.take(1));
        assert(i3@.take(1) =~= i@.subrange(4, 5));
        let c4 = be_bytes(h.domainNumber@ as nat, 1);
        assert(c4 == i@.subrange(4, 5));
        lemma_be_bytes_of_be_nat(i4@.take(1));
        assert(i4@.take(1) =~= i@.subrange(5, 6));
        let c5 = be_bytes(h._reserved2@ as nat, 1);
        assert(c5 == i@.subrange(5, 6));
        let c6 = spec_ser_octets(h.flagField@);
        assert(flagc@ =~= i@.subrange(6, 8));
        assert(c6 == i@.subrange(6, 8));
        lemma_be_bytes_of_be_nat(i6@.take(8));
        assert(i6@.take(8) =~= i@.subrange(8, 16));
        let c7 = be_bytes(twoc(h.correctionField@, 64), 8);
        assert(twoc(h.correctionField@, 64) == corr as nat);
        assert(c7 == i@.subrange(8, 16));
        let c8 = spec_ser_octets(h._reserved3@);
        assert(res3c@ =~= i@.subrange(16, 20));
        assert(c8 == i@.subrange(16, 20));
        let c9 = spec_ser_port_identity(h.sourcePortIdentity);
        assert(i8@.take(10) =~= i@.subrange(20, 30));
        assert(c9 == i@.subrange(20, 30));
        lemma_be_bytes_of_be_nat(i9@.take(2));
        assert(i9@.take(2) =~= i@.subrange(30, 32));
        let c10 = be_bytes(h.sequenceId@ as nat, 2);
        assert(c10 == i@.subrange(30, 32));
        lemma_be_bytes_of_be_nat(i10@.take(1));
        assert(i10@.take(1) =~= i@.subrange(32, 33));
        let c11 = be_bytes(h.controlField@ as nat, 1);
        assert(c11 == i@.subrange(32, 33));
        lemma_be_bytes_of_be_nat(i11@.take(1));
        assert(i11@.take(1) =~= i@.subrange(33, 34));
        let c12 = be_bytes(twoc(h.logMessageInterval@, 8), 1);
        assert(twoc(h.logMessageInterval@, 8) == logb as nat);
        assert(c12 == i@.subrange(33, 34));
        // assemble the chunks left to right
        assert(c1 + c2 =~= i@.take(2));
        assert(i@.take(2) + c3 =~= i@.take(4));
        assert(i@.take(4) + c4 =~= i@.take(5));
        assert(i@.take(5) + c5 =~= i@.take(6));
        assert(i@.take(6) + c6 =~= i@.take(8));
        assert(i@.take(8) + c7 =~= i@.take(16));
        assert(i@.take(16) + c8 =~= i@.take(20));
        assert(i@.take(20) + c9 =~= i@.take(30));
        assert(i@.take(30) + c10 =~= i@.take(32));
        assert(i@.take(32) + c11 =~= i@.take(33));
        assert(i@.take(33) + c12 =~= i@.take(34));
        assert(spec_ser_header(h) == i@.take(34));
        // the message type came from the first byte's low nibble
        mt_int.lemma_eq_spec_new((i@[0] % 16) as int);
        assert(h.messageType == spec_msg_type_of(i@));
    }
    Ok((i12, h))
}

/// Decodes the 30-byte announce body.
fn parse_announce<'a>(i: &'a [u8]) -> (r: Result<(&'a [u8], body::Announce), DecodeError>)
    ensures
        match r {
            Ok(p) => {
                &&& i@.len() >= 30
                &&& p.1.wf()
                &&& spec_ser_announce(p.1) == i@.take(30)
                &&& p.0@ == i@.skip(30)
            },
            Err(e) => i@.len() < 30 && e == spec_announce_err(i@.len() as int),
        },
{
    let (i1, ts) = match parse_timestamp(i) {
        Ok(p) => p,
        Err(e) => {
            return Err(e);
        },
    };
    let (i2, utc) = match be_uint(i1, 2) {
        Ok(p) => p,
        Err(e) => {
            return Err(e);
        },
    };
    let (i3, res) = match be_uint(i2, 1) {
        Ok(p) => p,
        Err(e) => {
            return Err(e);
        },
    };
    let (i4, p1) = match be_uint(i3, 1) {
        Ok(p) => p,
        Err(e) => {
            return Err(e);
        },
    };
    let (i5, cq) = match parse_clock_quality(i4) {
        Ok(p) => p,
        Err(e) => {
            return Err(e);
        },
    };
    let (i6, p2) = match be_uint(i5, 1) {
        Ok(p) => p,
        Err(e) => {
            return Err(e);
        },
    };
    let (i7, gmid) = match read_bytes(i6, 8) {
        Ok(p) => p,
        Err(e) => {
            return Err(e);
        },
    };
    let (i8, steps) = match be_uint(i7, 2) {
        Ok(p) => p,
        Err(e) => {
            return Err(e);
        },
    };
    let (i9, tsrc) = match be_uint(i8, 1) {
        Ok(p) => p,
        Err(e) => {
            return Err(e);
        },
    };
    proof {
        lemma2_to64();
    }
    let utc_val: i128 = if utc >= 0x8000 {
        (utc as i128) - 0x1_0000
    } else {
        utc as i128
    };
    proof {
        lemma_twoc_of_sint(utc as nat, 16);
        assert(utc_val as int == sint_of(utc as nat, 16));
    }
    let a = body::Announce {
        originTimestamp: ts,
        currentUtcOffset: Int::<I16>::new_in_range(utc_val),
        _reserved: Int::<U8>::new_in_range(res as i128),
        grandmasterPriority1: Int::<U8>::new_in_range(p1 as i128),
        grandmasterClockQuality: cq,
        grandmasterPriority2: Int::<U8>::new_in_range(p2 as i128),
        grandmasterIdentity: octets8(gmid),
        stepsRemoved: Int::<U16>::new_in_range(steps as i128),
        timeSource: Enumeration::from_raw(Int::<U8>::new_in_range(tsrc as i128)),
    };
    proof {
        assert(i1@ =~= i@.skip(10));
        assert(i2@ =~= i@.skip(12));
        assert(i3@ =~= i@.skip(13));
        assert(i4@ =~= i@.skip(14));
        assert(i5@ =~= i@.skip(18));
        assert(i6@ =~= i@.skip(19));
        assert(i7@ =~= i@.skip(27));
        assert(i8@ =~= i@.skip(29));
        assert(i9@ =~= i@.skip(30));
        let c1 = spec_ser_timestamp(a.originTimestamp);
        assert(c1 == i@.take(10));
        lemma_be_bytes_of_be_nat(i1@.take(2));
        assert(i1@.take(2) =~= i@.subrange(10, 12));
        let c2 = be_bytes(twoc(a.currentUtcOffset@, 16), 2);
        assert(twoc(a.currentUtcOffset@, 16) == utc as nat);
        assert(c2 == i@.subrange(10, 12));
        lemma_be_bytes_of_be_nat(i2@.take(1));
        assert(i2@.take(1) =~= i@.subrange(12, 13));
        let c3 = be_bytes(a._reserved@ as nat, 1);
        assert(c3 == i@.subrange(12, 13));
        lemma_be_bytes_of_be_nat(i3@.take(1));
        assert(i3@.take(1) =~= i@.subrange(13, 14));
        let c4 = be_bytes(a.grandmasterPriority1@ as nat, 1);
        assert(c4 == i@.subrange(13, 14));
        let c5 = spec_ser_clock_quality(a.grandmasterClockQuality);
        assert(i4@.take(4) =~= i@.subrange(14, 18));
        assert(c5 == i@.subrange(14, 18));
        lemma_be_bytes_of_be_nat(i5@.take(1));
        assert(i5@.take(1) =~= i@.subrange(18, 19));
        let c6 = be_bytes(a.grandmasterPriority2@ as nat, 1);
        assert(c6 == i@.subrange(18, 19));
        let c7 = spec_ser_octets(a.grandmasterIdentity@);
        assert(gmid@ =~= i@.subrange(19, 27));
        assert(c7 == i@.subrange(19, 27));
        lemma_be_bytes_of_be_nat(i7@.take(2));
        assert(i7@.take(2) =~= i@.subrange(27, 29));
        let c8 = be_bytes(a.stepsRemoved@ as nat, 2);
        assert(c8 == i@.subrange(27, 29));
        lemma_be_bytes_of_be_nat(i8@.take(1));
        assert(i8@.take(1) =~= i@.subrange(29, 30));
        let c9 = be_bytes(a.timeSource.raw_spec()@ as nat, 1);
        assert(c9 == i@.subrange(29, 30));
        assert(c1 + c2 =~= i@.take(12));
        assert(i@.take(12) + c3 =~= i@.take(13));
        assert(i@.take(13) + c4 =~= i@.take(14));
        assert(i@.take(14) + c5 =~= i@.take(18));
        assert(i@.take(18) + c6 =~= i@.take(19));
        assert(i@.take(19) + c7 =~= i@.take(27));
        assert(i@.take(27) + c8 =~= i@.take(29));
        assert(i@.take(29) + c9 =~= i@.take(30));
        assert(spec_ser_announce(a) == i@.take(30));
    }
    Ok((i9, a))
}

/// What a successful decode of the buffer `s` returns: a well-formed
/// message whose type is selected by the low nibble of the first byte,
/// which serializes back to exactly the bytes consumed, and the
/// unconsumed remainder.
pub open spec fn decode_post(s: Seq<u8>, m: Message, rest: Seq<u8>) -> bool {
    &&& s.len() >= 34 + spec_body_len(m.header.messageType)
    &&& m.wf()
    &&& m.header.messageType == spec_msg_type_of(s)
    &&& spec_ser_message(m) == s.take(34 + spec_body_len(m.header.messageType) as int)
    &&& rest == s.skip(34 + spec_body_len(m.header.messageType) as int)
}

/// Decodes one whole message: the header, then the body layout its
/// message type selects. An unrecognized or undecoded message type is
/// not fatal: the body is `Empty` and the remaining bytes are left
/// unconsumed for the caller to see.
pub fn parse_ptp_message<'a>(i: &'a [u8]) -> (r: Result<(&'a [u8], Message), DecodeError>)
    ensures
        match r {
            Ok(p) => decode_post(i@, p.1, p.0@),
            Err(e) => {
                if i@.len() < 34 {
                    e == spec_header_err(i@.len() as int)
                } else {
                    &&& i@.len() < 34 + spec_body_len(spec_msg_type_of(i@))
                    &&& e == spec_body_err(spec_msg_type_of(i@), i@.len() - 34)
                }
            },
        },
{
    let (ib, h) = match parse_ptp_header(i) {
        Ok(p) => p,
        Err(e) => {
            return Err(e);
        },
    };
    proof {
        assert(ib@.len() == i@.len() - 34);
    }
    match h.messageType {
        Enumeration::Enum(values::MessageType::Sync) => {
            let (rest, ts) = match parse_timestamp(ib) {
                Ok(p) => p,
                Err(e) => {
                    return Err(e);
                },
            };
            let m = Message { header: h, body: Body::Sync(body::Sync { originTimestamp: ts }) };
            proof {
                assert(ib@.take(10) =~= i@.subrange(34, 44));
                assert(i@.take(34) + i@.subrange(34, 44) =~= i@.take(44));
                assert(rest@ =~= i@.skip(44));
            }
            Ok((rest, m))
        },
        Enumeration::Enum(values::MessageType::Delay_Req) => {
            let (rest, ts) = match parse_timestamp(ib) {
                Ok(p) => p,
                Err(e) => {
                    return Err(e);
                },
            };
            let m = Message {
                header: h,
                body: Body::Delay_Req(body::Delay_Req { originTimestamp: ts }),
            };
            proof {
                assert(ib@.take(10) =~= i@.subrange(34, 44));
                assert(i@.take(34) + i@.subrange(34, 44) =~= i@.take(44));
                assert(rest@ =~= i@.skip(44));
            }
            Ok((rest, m))
        },
        Enumeration::Enum(values::MessageType::Follow_Up) => {
            let (rest, ts) = match parse_timestamp(ib) {
                Ok(p) => p,
                Err(e) => {
                    return Err(e);
                },
            };
            let m = Message {
                header: h,
                body: Body::Follow_Up(body::Follow_Up { preciseOriginTimestamp: ts }),
            };
            proof {
                assert(ib@.take(10) =~= i@.subrange(34, 44));
                assert(i@.take(34) + i@.subrange(34, 44) =~= i@.take(44));
                assert(rest@ =~= i@.skip(44));
            }
            Ok((rest, m))
        },
        Enumeration::Enum(values::MessageType::Delay_Resp) => {
            let (r1, ts) = match parse_timestamp(ib) {
                Ok(p) => p,
                Err(e) => {
                    return Err(e);
                },
            };
            let (rest, rpi) = match parse_port_identity(r1) {
                Ok(p) => p,
                Err(e) => {
                    proof {
                        assert(r1@.len() == i@.len() - 44);
                    }
                    return Err(e);
                },
            };
            let m = Message {
                header: h,
                body: Body::Delay_Resp(
                    body::Delay_Resp { receiveTimestamp: ts, requestingPortIdentity: rpi },
                ),
            };
            proof {
                assert(ib@.take(10) =~= i@.subrange(34, 44));
                assert(r1@.take(10) =~= i@.subrange(44, 54));
                assert(ib@.take(10) + r1@.take(10) =~= ib@.take(20));
                assert(ib@.take(20) =~= i@.subrange(34, 54));
                assert(i@.take(34) + i@.subrange(34, 54) =~= i@.take(54));
                assert(rest@ =~= i@.skip(54));
            }
            Ok((rest, m))
        },
        Enumeration::Enum(values::MessageType::Announce) => {
            let (rest, a) = match parse_announce(ib) {
                Ok(p) => p,
                Err(e) => {
                    return Err(e);
                },
            };
            let m = Message { header: h, body: Body::Announce(a) };
            proof {
                assert(ib@.take(30) =~= i@.subrange(34, 64));
                assert(i@.take(34) + i@.subrange(34, 64) =~= i@.take(64));
                assert(rest@ =~= i@.skip(64));
            }
            Ok((rest, m))
        },
        _ => {
            let m = Message { header: h, body: Body::Empty };
            proof {
                assert(spec_ser_message(m) == spec_ser_header(h) + Seq::<u8>::empty());
                assert(i@.take(34) + Seq::<u8>::empty() =~= i@.take(34));
            }
            Ok((ib, m))
        },
    }
}

} // verus!
