//! The byte layout of the wire format, stated once as specification
//! functions: what each aggregate serializes to, and how long the body
//! of each message type is. Serializer and decoder are both proved
//! against these functions.

use vstd::prelude::*;

verus! {

use crate::bits::{be_bytes, twoc, lemma_be_bytes_len};
use crate::primitive::Octet;
use crate::derived::{Timestamp, PortIdentity, ClockQuality};
use crate::message::{Header, Body, Message};
use crate::message::body::Announce;
use crate::enums::{Enumeration, MessageType, values};

broadcast use lemma_be_bytes_len, vstd::array::group_array_axioms;

/// One byte per octet, each the octet's value.
pub open spec fn spec_ser_octets(s: Seq<Octet>) -> Seq<u8> {
    s.map_values(|o: Octet| o@ as u8)
}

/// Six bytes of seconds, four bytes of nanoseconds, big-endian.
pub open spec fn spec_ser_timestamp(t: Timestamp) -> Seq<u8> {
    be_bytes(t.secondsField@ as nat, 6) + be_bytes(t.nanosecondsField@ as nat, 4)
}

/// Eight identity octets, then the port number.
pub open spec fn spec_ser_port_identity(p: PortIdentity) -> Seq<u8> {
    spec_ser_octets(p.clockIdentity@) + be_bytes(p.portNumber@ as nat, 2)
}

/// Class, accuracy and variance, in order.
pub open spec fn spec_ser_clock_quality(q: ClockQuality) -> Seq<u8> {
    be_bytes(q.clockClass@ as nat, 1) + be_bytes(q.clockAccuracy.raw_spec()@ as nat, 1)
        + be_bytes(q.offsetScaledLogVariance@ as nat, 2)
}

/// The 34 header bytes. The first byte packs the transport-specific
/// nibble over the message type, the second the reserved nibble over
/// the version; everything after is byte-aligned.
pub open spec fn spec_ser_header(h: Header) -> Seq<u8> {
    be_bytes((h.transportSpecific@ * 16 + h.messageType.raw_spec()@) as nat, 1) + be_bytes(
        (h._reserved1@ * 16 + h.versionPTP@) as nat,
        1,
    ) + be_bytes(h.messageLength@ as nat, 2) + be_bytes(h.domainNumber@ as nat, 1) + be_bytes(
        h._reserved2@ as nat,
        1,
    ) + spec_ser_octets(h.flagField@) + be_bytes(twoc(h.correctionField@, 64), 8)
        + spec_ser_octets(h._reserved3@) + spec_ser_port_identity(h.sourcePortIdentity)
        + be_bytes(h.sequenceId@ as nat, 2) + be_bytes(h.controlField@ as nat, 1) + be_bytes(
        twoc(h.logMessageInterval@, 8),
        1,
    )
}

/// The 30 announce-body bytes.
pub open spec fn spec_ser_announce(a: Announce) -> Seq<u8> {
    spec_ser_timestamp(a.originTimestamp) + be_bytes(twoc(a.currentUtcOffset@, 16), 2) + be_bytes(
        a._reserved@ as nat,
        1,
    ) + be_bytes(a.grandmasterPriority1@ as nat, 1) + spec_ser_clock_quality(
        a.grandmasterClockQuality,
    ) + be_bytes(a.grandmasterPriority2@ as nat, 1) + spec_ser_octets(a.grandmasterIdentity@)
        + be_bytes(a.stepsRemoved@ as nat, 2) + be_bytes(a.timeSource.raw_spec()@ as nat, 1)
}

/// The bytes of each body variant; `Empty` contributes none.
pub open spec fn spec_ser_body(b: Body) -> Seq<u8> {
    match b {
        Body::Announce(a) => spec_ser_announce(a),
        Body::Sync(s) => spec_ser_timestamp(s.originTimestamp),
        Body::Delay_Req(d) => spec_ser_timestamp(d.originTimestamp),
        Body::Follow_Up(f) => spec_ser_timestamp(f.preciseOriginTimestamp),
        Body::Delay_Resp(d) => spec_ser_timestamp(d.receiveTimestamp) + spec_ser_port_identity(
            d.requestingPortIdentity,
        ),
        Body::Empty => Seq::empty(),
    }
}

/// The whole message: header bytes, then body bytes.
pub open spec fn spec_ser_message(m: Message) -> Seq<u8> {
    spec_ser_header(m.header) + spec_ser_body(m.body)
}

/// How many body bytes each message type selects; message types without
/// a decoded layout, the unknown ones among them, select none.
pub open spec fn spec_body_len(mt: MessageType) -> nat {
    match mt {
        Enumeration::Enum(values::MessageType::Sync) => 10,
        Enumeration::Enum(values::MessageType::Delay_Req) => 10,
        Enumeration::Enum(values::MessageType::Follow_Up) => 10,
        Enumeration::Enum(values::MessageType::Delay_Resp) => 20,
        Enumeration::Enum(values::MessageType::Announce) => 30,
        _ => 0,
    }
}

pub proof fn lemma_ser_timestamp_len(t: Timestamp)
    ensures
        spec_ser_timestamp(t).len() == 10,
{
}

pub proof fn lemma_ser_port_identity_len(p: PortIdentity)
    ensures
        spec_ser_port_identity(p).len() == 10,
{
}

pub proof fn lemma_ser_clock_quality_len(q: ClockQuality)
    ensures
        spec_ser_clock_quality(q).len() == 4,
{
}

pub proof fn lemma_ser_header_len(h: Header)
    ensures
        spec_ser_header(h).len() == 34,
{
    lemma_ser_port_identity_len(h.sourcePortIdentity);
}

pub proof fn lemma_ser_announce_len(a: Announce)
    ensures
        spec_ser_announce(a).len() == 30,
{
    lemma_ser_timestamp_len(a.originTimestamp);
    lemma_ser_clock_quality_len(a.grandmasterClockQuality);
}

/// On a well-formed message the body's byte count is the count its
/// message type selects.
pub proof fn lemma_ser_body_len(m: Message)
    requires
        m.wf(),
    ensures
        spec_ser_body(m.body).len() == spec_body_len(m.header.messageType),
{
    match m.body {
        Body::Announce(a) => {
            lemma_ser_announce_len(a);
        },
        Body::Sync(s) => {
            lemma_ser_timestamp_len(s.originTimestamp);
        },
        Body::Delay_Req(d) => {
            lemma_ser_timestamp_len(d.originTimestamp);
        },
        Body::Follow_Up(f) => {
            lemma_ser_timestamp_len(f.preciseOriginTimestamp);
        },
        Body::Delay_Resp(d) => {
            lemma_ser_timestamp_len(d.receiveTimestamp);
            lemma_ser_port_identity_len(d.requestingPortIdentity);
        },
        Body::Empty => {
        },
    }
}

/// A well-formed message serializes to exactly the header length plus
/// the body length its message type selects.
pub proof fn lemma_ser_message_len(m: Message)
    requires
        m.wf(),
    ensures
        spec_ser_message(m).len() == 34 + spec_body_len(m.header.messageType),
{
    lemma_ser_header_len(m.header);
    lemma_ser_body_len(m);
}

} // verus!
