//! The round-trip law of the codec: serialization is injective on
//! well-formed messages, and decoding the serialization of any
//! well-formed message yields that message with no bytes left over.

use vstd::prelude::*;

verus! {

use vstd::arithmetic::power2::lemma2_to64;
use vstd::arithmetic::div_mod::lemma_fundamental_div_mod_converse;
use crate::bits::{
    be_bytes, twoc, lemma_be_bytes_len, lemma_be_bytes_injective, lemma_sint_of_twoc,
    lemma_concat_parts,
};
use crate::primitive::{Constrain, Int, Octet, U4};
use crate::derived::{Timestamp, PortIdentity, ClockQuality, octets_wf};
use crate::message::{Header, Body, Message, body_matches_type};
use crate::message::body::Announce;
use crate::enums::{Enumeration, IntoRaw};
use crate::wire::{
    spec_ser_octets, spec_ser_timestamp, spec_ser_port_identity, spec_ser_clock_quality,
    spec_ser_header, spec_ser_announce, spec_ser_body, spec_ser_message, spec_body_len,
    lemma_ser_timestamp_len, lemma_ser_port_identity_len, lemma_ser_clock_quality_len,
    lemma_ser_header_len, lemma_ser_message_len,
};
use crate::parser::{decode_post, spec_msg_type_of};

broadcast use lemma_be_bytes_len, vstd::array::group_array_axioms;

/// Equal byte forms of an unsigned field of `8 * n` bits give equal fields.
proof fn lemma_uint_field_inj<C: Constrain>(a: Int<C>, b: Int<C>, n: nat)
    requires
        a.wf(),
        b.wf(),
        C::min_spec() == 0,
        C::bits_spec() == 8 * n,
        be_bytes(a@ as nat, n) == be_bytes(b@ as nat, n),
    ensures
        a == b,
{
    C::lemma_valid();
    lemma_be_bytes_injective(a@ as nat, b@ as nat, n);
    Int::lemma_view_injective(a, b);
}

/// Equal two's-complement byte forms of a signed field give equal fields.
proof fn lemma_sint_field_inj<C: Constrain>(a: Int<C>, b: Int<C>, n: nat)
    requires
        a.wf(),
        b.wf(),
        C::min_spec() < 0,
        C::bits_spec() == 8 * n,
        be_bytes(twoc(a@, C::bits_spec()), n) == be_bytes(twoc(b@, C::bits_spec()), n),
    ensures
        a == b,
{
    C::lemma_valid();
    lemma_sint_of_twoc(a@, C::bits_spec());
    lemma_sint_of_twoc(b@, C::bits_spec());
    lemma_be_bytes_injective(twoc(a@, C::bits_spec()), twoc(b@, C::bits_spec()), n);
    Int::lemma_view_injective(a, b);
}

/// Equal byte forms of two octet runs of one length give equal runs.
proof fn lemma_octets_inj(s1: Seq<Octet>, s2: Seq<Octet>)
    requires
        octets_wf(s1),
        octets_wf(s2),
        s1.len() == s2.len(),
        spec_ser_octets(s1) == spec_ser_octets(s2),
    ensures
        s1 == s2,
{
    assert forall|j: int| 0 <= j < s1.len() implies s1[j] == s2[j] by {
        assert(spec_ser_octets(s1)[j] == (s1[j]@ as u8));
        assert(spec_ser_octets(s2)[j] == (s2[j]@ as u8));
        assert(s1[j]@ == s2[j]@);
        Int::lemma_view_injective(s1[j], s2[j]);
    }
    assert(s1 =~= s2);
}

/// Well-formed enumeration values with one wire value are one value:
/// on well-formed values, equality of the wire value is equality.
pub proof fn lemma_enum_inj<C: Constrain, T: IntoRaw<Int<C>>>(
    x: Enumeration<Int<C>, T>,
    y: Enumeration<Int<C>, T>,
)
    requires
        x.wf(),
        y.wf(),
        x.raw_spec()@ == y.raw_spec()@,
    ensures
        x == y,
{
    Int::lemma_view_injective(x.raw_spec(), y.raw_spec());
    x.lemma_from_raw_of_raw();
    y.lemma_from_raw_of_raw();
}

/// An enumeration over octets is pinned by its one serialized byte.
proof fn lemma_enum_byte_inj<C: Constrain, T: IntoRaw<Int<C>>>(
    x: Enumeration<Int<C>, T>,
    y: Enumeration<Int<C>, T>,
)
    requires
        x.wf(),
        y.wf(),
        x.raw_wf(),
        y.raw_wf(),
        C::min_spec() == 0,
        C::bits_spec() == 8,
        be_bytes(x.raw_spec()@ as nat, 1) == be_bytes(y.raw_spec()@ as nat, 1),
    ensures
        x == y,
{
    C::lemma_valid();
    lemma_be_bytes_injective(x.raw_spec()@ as nat, y.raw_spec()@ as nat, 1);
    lemma_enum_inj(x, y);
}

/// Timestamps with one byte form are one timestamp.
proof fn lemma_ser_timestamp_inj(t1: Timestamp, t2: Timestamp)
    requires
        t1.wf(),
        t2.wf(),
        spec_ser_timestamp(t1) == spec_ser_timestamp(t2),
    ensures
        t1 == t2,
{
    lemma_concat_parts(
        be_bytes(t1.secondsField@ as nat, 6),
        be_bytes(t1.nanosecondsField@ as nat, 4),
        be_bytes(t2.secondsField@ as nat, 6),
        be_bytes(t2.nanosecondsField@ as nat, 4),
    );
    lemma_uint_field_inj(t1.secondsField, t2.secondsField, 6);
    lemma_uint_field_inj(t1.nanosecondsField, t2.nanosecondsField, 4);
    assert(t1 =~= t2);
}

/// Port identities with one byte form are one port identity.
proof fn lemma_ser_port_identity_inj(p1: PortIdentity, p2: PortIdentity)
    requires
        p1.wf(),
        p2.wf(),
        spec_ser_port_identity(p1) == spec_ser_port_identity(p2),
    ensures
        p1 == p2,
{
    lemma_concat_parts(
        spec_ser_octets(p1.clockIdentity@),
        be_bytes(p1.portNumber@ as nat, 2),
        spec_ser_octets(p2.clockIdentity@),
        be_bytes(p2.portNumber@ as nat, 2),
    );
    lemma_octets_inj(p1.clockIdentity@, p2.clockIdentity@);
    assert(p1.clockIdentity =~= p2.clockIdentity);
    lemma_uint_field_inj(p1.portNumber, p2.portNumber, 2);
    assert(p1 =~= p2);
}

/// Clock qualities with one byte form are one clock quality.
proof fn lemma_ser_clock_quality_inj(q1: ClockQuality, q2: ClockQuality)
    requires
        q1.wf(),
        q2.wf(),
        spec_ser_clock_quality(q1) == spec_ser_clock_quality(q2),
    ensures
        q1 == q2,
{
    lemma_concat_parts(
        be_bytes(q1.clockClass@ as nat, 1) + be_bytes(q1.clockAccuracy.raw_spec()@ as nat, 1),
        be_bytes(q1.offsetScaledLogVariance@ as nat, 2),
        be_bytes(q2.clockClass@ as nat, 1) + be_bytes(q2.clockAccuracy.raw_spec()@ as nat, 1),
        be_bytes(q2.offsetScaledLogVariance@ as nat, 2),
    );
    lemma_concat_parts(
        be_bytes(q1.clockClass@ as nat, 1),
        be_bytes(q1.clockAccuracy.raw_spec()@ as nat, 1),
        be_bytes(q2.clockClass@ as nat, 1),
        be_bytes(q2.clockAccuracy.raw_spec()@ as nat, 1),
    );
    lemma_uint_field_inj(q1.clockClass, q2.clockClass, 1);
    lemma_enum_byte_inj(q1.clockAccuracy, q2.clockAccuracy);
    lemma_uint_field_inj(q1.offsetScaledLogVariance, q2.offsetScaledLogVariance, 2);
    assert(q1 =~= q2);
}

/// The two nibble fields of a packed byte are pinned by the byte.
proof fn lemma_nibble_byte_inj(h1: Int<U4>, l1: Int<U4>, h2: Int<U4>, l2: Int<U4>)
    requires
        h1.wf(),
        l1.wf(),
        h2.wf(),
        l2.wf(),
        be_bytes((h1@ * 16 + l1@) as nat, 1) == be_bytes((h2@ * 16 + l2@) as nat, 1),
    ensures
        h1 == h2,
        l1 == l2,
{
    lemma2_to64();
    let v1: nat = (h1@ * 16 + l1@) as nat;
    let v2: nat = (h2@ * 16 + l2@) as nat;
    lemma_be_bytes_injective(v1, v2, 1);
    lemma_fundamental_div_mod_converse(v1 as int, 16, h1@, l1@);
    lemma_fundamental_div_mod_converse(v2 as int, 16, h2@, l2@);
    Int::lemma_view_injective(h1, h2);
    Int::lemma_view_injective(l1, l2);
}

/// Headers with one byte form are one header.
proof fn lemma_ser_header_inj(h1: Header, h2: Header)
    requires
        h1.wf(),
        h2.wf(),
        spec_ser_header(h1) == spec_ser_header(h2),
    ensures
        h1 == h2,
{
    let a1 = be_bytes((h1.transportSpecific@ * 16 + h1.messageType.raw_spec()@) as nat, 1);
    let a2 = be_bytes((h1._reserved1@ * 16 + h1.versionPTP@) as nat, 1);
    let a3 = be_bytes(h1.messageLength@ as nat, 2);
    let a4 = be_bytes(h1.domainNumber@ as nat, 1);
    let a5 = be_bytes(h1._reserved2@ as nat, 1);
    let a6 = spec_ser_octets(h1.flagField@);
    let a7 = be_bytes(twoc(h1.correctionField@, 64), 8);
    let a8 = spec_ser_octets(h1._reserved3@);
    let a9 = spec_ser_port_identity(h1.sourcePortIdentity);
    let a10 = be_bytes(h1.sequenceId@ as nat, 2);
    let a11 = be_bytes(h1.controlField@ as nat, 1);
    let a12 = be_bytes(twoc(h1.logMessageInterval@, 8), 1);
    let b1 = be_bytes((h2.transportSpecific@ * 16 + h2.messageType.raw_spec()@) as nat, 1);
    let b2 = be_bytes((h2._reserved1@ * 16 + h2.versionPTP@) as nat, 1);
    let b3 = be_bytes(h2.messageLength@ as nat, 2);
    let b4 = be_bytes(h2.domainNumber@ as nat, 1);
    let b5 = be_bytes(h2._reserved2@ as nat, 1);
    let b6 = spec_ser_octets(h2.flagField@);
    let b7 = be_bytes(twoc(h2.correctionField@, 64), 8);
    let b8 = spec_ser_octets(h2._reserved3@);
    let b9 = spec_ser_port_identity(h2.sourcePortIdentity);
    let b10 = be_bytes(h2.sequenceId@ as nat, 2);
    let b11 = be_bytes(h2.controlField@ as nat, 1);
    let b12 = be_bytes(twoc(h2.logMessageInterval@, 8), 1);
    lemma_ser_port_identity_len(h1.sourcePortIdentity);
    lemma_ser_port_identity_len(h2.sourcePortIdentity);
    lemma_concat_parts(
        a1 + a2 + a3 + a4 + a5 + a6 + a7 + a8 + a9 + a10 + a11,
        a12,
        b1 + b2 + b3 + b4 + b5 + b6 + b7 + b8 + b9 + b10 + b11,
        b12,
    );
    lemma_concat_parts(
        a1 + a2 + a3 + a4 + a5 + a6 + a7 + a8 + a9 + a10,
        a11,
        b1 + b2 + b3 + b4 + b5 + b6 + b7 + b8 + b9 + b10,
        b11,
    );
    lemma_concat_parts(
        a1 + a2 + a3 + a4 + a5 + a6 + a7 + a8 + a9,
        a10,
        b1 + b2 + b3 + b4 + b5 + b6 + b7 + b8 + b9,
        b10,
    );
    lemma_concat_parts(
        a1 + a2 + a3 + a4 + a5 + a6 + a7 + a8,
        a9,
        b1 + b2 + b3 + b4 + b5 + b6 + b7 + b8,
        b9,
    );
    lemma_concat_parts(
        a1 + a2 + a3 + a4 + a5 + a6 + a7,
        a8,
        b1 + b2 + b3 + b4 + b5 + b6 + b7,
        b8,
    );
    lemma_concat_parts(a1 + a2 + a3 + a4 + a5 + a6, a7, b1 + b2 + b3 + b4 + b5 + b6, b7);
    lemma_concat_parts(a1 + a2 + a3 + a4 + a5, a6, b1 + b2 + b3 + b4 + b5, b6);
    lemma_concat_parts(a1 + a2 + a3 + a4, a5, b1 + b2 + b3 + b4, b5);
    lemma_concat_parts(a1 + a2 + a3, a4, b1 + b2 + b3, b4);
    lemma_concat_parts(a1 + a2, a3, b1 + b2, b3);
    lemma_concat_parts(a1, a2, b1, b2);
    lemma_nibble_byte_inj(
        h1.transportSpecific,
        h1.messageType.raw_spec(),
        h2.transportSpecific,
        h2.messageType.raw_spec(),
    );
    lemma_enum_inj(h1.messageType, h2.messageType);
    lemma_nibble_byte_inj(h1._reserved1, h1.versionPTP, h2._reserved1, h2.versionPTP);
    lemma_uint_field_inj(h1.messageLength, h2.messageLength, 2);
    lemma_uint_field_inj(h1.domainNumber, h2.domainNumber, 1);
    lemma_uint_field_inj(h1._reserved2, h2._reserved2, 1);
    lemma_octets_inj(h1.flagField@, h2.flagField@);
    assert(h1.flagField =~= h2.flagField);
    lemma_sint_field_inj(h1.correctionField, h2.correctionField, 8);
    lemma_octets_inj(h1._reserved3@, h2._reserved3@);
    assert(h1._reserved3 =~= h2._reserved3);
    lemma_ser_port_identity_inj(h1.sourcePortIdentity, h2.sourcePortIdentity);
    lemma_uint_field_inj(h1.sequenceId, h2.sequenceId, 2);
    lemma_uint_field_inj(h1.controlField, h2.controlField, 1);
    lemma_sint_field_inj(h1.logMessageInterval, h2.logMessageInterval, 1);
    assert(h1 =~= h2);
}

/// Announce bodies with one byte form are one body.
proof fn lemma_ser_announce_inj(x1: Announce, x2: Announce)
    requires
        x1.wf(),
        x2.wf(),
        spec_ser_announce(x1) == spec_ser_announce(x2),
    ensures
        x1 == x2,
{
    let a1 = spec_ser_timestamp(x1.originTimestamp);
    let a2 = be_bytes(twoc(x1.currentUtcOffset@, 16), 2);
    let a3 = be_bytes(x1._reserved@ as nat, 1);
    let a4 = be_bytes(x1.grandmasterPriority1@ as nat, 1);
    let a5 = spec_ser_clock_quality(x1.grandmasterClockQuality);
    let a6 = be_bytes(x1.grandmasterPriority2@ as nat, 1);
    let a7 = spec_ser_octets(x1.grandmasterIdentity@);
    let a8 = be_bytes(x1.stepsRemoved@ as nat, 2);
    let a9 = be_bytes(x1.timeSource.raw_spec()@ as nat, 1);
    let b1 = spec_ser_timestamp(x2.originTimestamp);
    let b2 = be_bytes(twoc(x2.currentUtcOffset@, 16), 2);
    let b3 = be_bytes(x2._reserved@ as nat, 1);
    let b4 = be_bytes(x2.grandmasterPriority1@ as nat, 1);
    let b5 = spec_ser_clock_quality(x2.grandmasterClockQuality);
    let b6 = be_bytes(x2.grandmasterPriority2@ as nat, 1);
    let b7 = spec_ser_octets(x2.grandmasterIdentity@);
    let b8 = be_bytes(x2.stepsRemoved@ as nat, 2);
    let b9 = be_bytes(x2.timeSource.raw_spec()@ as nat, 1);
    lemma_ser_timestamp_len(x1.originTimestamp);
    lemma_ser_timestamp_len(x2.originTimestamp);
    lemma_ser_clock_quality_len(x1.grandmasterClockQuality);
    lemma_ser_clock_quality_len(x2.grandmasterClockQuality);
    lemma_concat_parts(
        a1 + a2 + a3 + a4 + a5 + a6 + a7 + a8,
        a9,
        b1 + b2 + b3 + b4 + b5 + b6 + b7 + b8,
        b9,
    );
    lemma_concat_parts(
        a1 + a2 + a3 + a4 + a5 + a6 + a7,
        a8,
        b1 + b2 + b3 + b4 + b5 + b6 + b7,
        b8,
    );
    lemma_concat_parts(a1 + a2 + a3 + a4 + a5 + a6, a7, b1 + b2 + b3 + b4 + b5 + b6, b7);
    lemma_concat_parts(a1 + a2 + a3 + a4 + a5, a6, b1 + b2 + b3 + b4 + b5, b6);
    lemma_concat_parts(a1 + a2 + a3 + a4, a5, b1 + b2 + b3 + b4, b5);
    lemma_concat_parts(a1 + a2 + a3, a4, b1 + b2 + b3, b4);
    lemma_concat_parts(a1 + a2, a3, b1 + b2, b3);
    lemma_concat_parts(a1, a2, b1, b2);
    lemma_ser_timestamp_inj(x1.originTimestamp, x2.originTimestamp);
    lemma_sint_field_inj(x1.currentUtcOffset, x2.currentUtcOffset, 2);
    lemma_uint_field_inj(x1._reserved, x2._reserved, 1);
    lemma_uint_field_inj(x1.grandmasterPriority1, x2.grandmasterPriority1, 1);
    lemma_ser_clock_quality_inj(x1.grandmasterClockQuality, x2.grandmasterClockQuality);
    lemma_uint_field_inj(x1.grandmasterPriority2, x2.grandmasterPriority2, 1);
    lemma_octets_inj(x1.grandmasterIdentity@, x2.grandmasterIdentity@);
    assert(x1.grandmasterIdentity =~= x2.grandmasterIdentity);
    lemma_uint_field_inj(x1.stepsRemoved, x2.stepsRemoved, 2);
    lemma_enum_byte_inj(x1.timeSource, x2.timeSource);
    assert(x1 =~= x2);
}

/// Serialization is injective: two well-formed messages with one byte
/// form are one message.
pub proof fn lemma_ser_message_injective(m1: Message, m2: Message)
    requires
        m1.wf(),
        m2.wf(),
        spec_ser_message(m1) == spec_ser_message(m2),
    ensures
        m1 == m2,
{
    lemma_ser_header_len(m1.header);
    lemma_ser_header_len(m2.header);
    lemma_concat_parts(
        spec_ser_header(m1.header),
        spec_ser_body(m1.body),
        spec_ser_header(m2.header),
        spec_ser_body(m2.body),
    );
    lemma_ser_header_inj(m1.header, m2.header);
    match (m1.body, m2.body) {
        (Body::Announce(a1), Body::Announce(a2)) => {
            lemma_ser_announce_inj(a1, a2);
        },
        (Body::Sync(s1), Body::Sync(s2)) => {
            lemma_ser_timestamp_inj(s1.originTimestamp, s2.originTimestamp);
            assert(s1 =~= s2);
        },
        (Body::Delay_Req(d1), Body::Delay_Req(d2)) => {
            lemma_ser_timestamp_inj(d1.originTimestamp, d2.originTimestamp);
            assert(d1 =~= d2);
        },
        (Body::Follow_Up(f1), Body::Follow_Up(f2)) => {
            lemma_ser_timestamp_inj(f1.preciseOriginTimestamp, f2.preciseOriginTimestamp);
            assert(f1 =~= f2);
        },
        (Body::Delay_Resp(d1), Body::Delay_Resp(d2)) => {
            lemma_ser_timestamp_len(d1.receiveTimestamp);
            lemma_ser_timestamp_len(d2.receiveTimestamp);
            lemma_concat_parts(
                spec_ser_timestamp(d1.receiveTimestamp),
                spec_ser_port_identity(d1.requestingPortIdentity),
                spec_ser_timestamp(d2.receiveTimestamp),
                spec_ser_port_identity(d2.requestingPortIdentity),
            );
            lemma_ser_timestamp_inj(d1.receiveTimestamp, d2.receiveTimestamp);
            lemma_ser_port_identity_inj(d1.requestingPortIdentity, d2.requestingPortIdentity);
            assert(d1 =~= d2);
        },
        (Body::Empty, Body::Empty) => {
        },
        _ => {
            // the headers are equal, so the message type selects the
            // same variant on both sides
            assert(body_matches_type(m1.header.messageType, m1.body));
            assert(body_matches_type(m2.header.messageType, m2.body));
            assert(false);
        },
    }
    assert(m1 =~= m2);
}

/// The first serialized byte selects the message's own type.
proof fn lemma_msg_type_of_ser(m: Message)
    requires
        m.wf(),
    ensures
        spec_msg_type_of(spec_ser_message(m)) == m.header.messageType,
{
    lemma2_to64();
    let h = m.header;
    let c1 = be_bytes((h.transportSpecific@ * 16 + h.messageType.raw_spec()@) as nat, 1);
    let v0: nat = (h.transportSpecific@ * 16 + h.messageType.raw_spec()@) as nat;
    let s = spec_ser_message(m);
    lemma_ser_header_len(h);
    lemma_ser_port_identity_len(h.sourcePortIdentity);
    assert(s[0] == spec_ser_header(h)[0]);
    assert(spec_ser_header(h)[0] == c1[0]);
    assert(c1 == be_bytes(v0 / 256, 0).push((v0 % 256) as u8));
    assert(v0 < 256);
    vstd::arithmetic::div_mod::lemma_small_mod(v0, 256);
    assert(c1[0] == (v0 % 256) as u8);
    assert(s[0] as nat == v0);
    lemma_fundamental_div_mod_converse(
        v0 as int,
        16,
        h.transportSpecific@,
        h.messageType.raw_spec()@,
    );
    assert((s[0] % 16) as int == h.messageType.raw_spec()@);
    h.messageType.raw_spec().lemma_eq_spec_new((s[0] % 16) as int);
    h.messageType.lemma_from_raw_of_raw();
}

/// The round-trip property: any result the decoder may return on the
/// serialization of a well-formed message is that message itself, with
/// no bytes remaining.
pub proof fn lemma_round_trip(m: Message, m2: Message, rest: Seq<u8>)
    requires
        m.wf(),
        decode_post(spec_ser_message(m), m2, rest),
    ensures
        m2 == m,
        rest == Seq::<u8>::empty(),
{
    let s = spec_ser_message(m);
    lemma_ser_message_len(m);
    lemma_msg_type_of_ser(m);
    assert(m2.header.messageType == m.header.messageType);
    assert(s.take(34 + spec_body_len(m2.header.messageType) as int) =~= s);
    lemma_ser_message_injective(m, m2);
    assert(rest =~= Seq::<u8>::empty());
}

} // verus!
