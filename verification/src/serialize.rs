//! The bit-serialization protocol: every wire type writes exactly its
//! declared bit width to the sink, aggregates write their fields in
//! declaration order with no padding, and the byte string that leaves
//! the sink is proved equal to the byte layout of `wire`.

use vstd::prelude::*;

verus! {

use vstd::arithmetic::power2::{pow2, lemma2_to64};
use vstd::arithmetic::div_mod::{lemma_fundamental_div_mod_converse, lemma_mod_multiples_basic};
use crate::bits::{
    be_bits, be_bytes, bits_of_bytes, byte_bits, twoc, lemma_be_bits_len, lemma_be_bytes_len,
    lemma_bits_of_bytes_len, lemma_bits_of_bytes_concat, lemma_bits_of_be_bytes,
    lemma_twoc_of_unsigned, lemma_sint_of_twoc, lemma_bytes_of_same_bits, lemma_be_bits_mod,
    lemma_be_bits_split,
};
use crate::primitive::{Constrain, Int, Octet, U4, lemma_range_fits};
use crate::derived::{Timestamp, PortIdentity, ClockQuality, octets_wf};
use crate::message::{Header, Body, Message};
use crate::message::body::{Announce, Sync, Delay_Req, Follow_Up, Delay_Resp};
use crate::enums::{Enumeration, IntoRaw};
use crate::writer::{BitSink, SinkError, writer_bits};
use crate::wire::{
    spec_ser_octets, spec_ser_timestamp, spec_ser_port_identity, spec_ser_clock_quality,
    spec_ser_header, spec_ser_announce, spec_ser_body, spec_ser_message,
};

broadcast use lemma_be_bits_len, lemma_be_bytes_len, lemma_bits_of_bytes_len,
    vstd::array::group_array_axioms;

/// The capability every wire type implements: append exactly my bit-width
/// representation to a bit-oriented sink, fields in declaration order.
pub trait BitSerialize: Sized {
    /// The value's fields lie in their declared ranges.
    spec fn ser_wf(self) -> bool;

    /// The exact bits the value puts on the wire.
    spec fn spec_bits(self) -> Seq<bool>;

    /// Appends `spec_bits(self)` to the sink. With this library's
    /// vector-backed sink the write always succeeds.
    fn bit_serialize(self, bw: &mut BitSink) -> (r: Result<(), SinkError>)
        requires
            self.ser_wf(),
        ensures
            r is Ok,
            writer_bits(*final(bw)) == writer_bits(*old(bw)) + self.spec_bits(),
    ;
}

impl<C: Constrain> BitSerialize for Int<C> {
    open spec fn ser_wf(self) -> bool {
        self.wf()
    }

    /// A constrained integer contributes its width's two's-complement
    /// bits; for an unsigned width these are just the value's bits.
    open spec fn spec_bits(self) -> Seq<bool> {
        be_bits(twoc(self@, C::bits_spec()), C::bits_spec())
    }

    fn bit_serialize(self, bw: &mut BitSink) -> (r: Result<(), SinkError>) {
        proof {
            C::lemma_valid();
            lemma_range_fits::<C>();
        }
        let bits = C::bits();
        let v: i128 = self.into_inner();
        if C::min() == 0 {
            proof {
                lemma_twoc_of_unsigned(self@, C::bits_spec());
            }
            bw.write_bits(bits, v as u64)
        } else {
            proof {
                lemma_sint_of_twoc(self@, C::bits_spec());
            }
            bw.write_signed_bits(bits, v as i64)
        }
    }
}

impl<C: Constrain, T: IntoRaw<Int<C>>> BitSerialize for Enumeration<Int<C>, T> {
    open spec fn ser_wf(self) -> bool {
        self.raw_wf()
    }

    /// An enumeration contributes the bits of its raw wire value; the
    /// discriminant between known and unknown is not on the wire.
    open spec fn spec_bits(self) -> Seq<bool> {
        self.raw_spec().spec_bits()
    }

    fn bit_serialize(self, bw: &mut BitSink) -> (r: Result<(), SinkError>) {
        self.to_raw().bit_serialize(bw)
    }
}

/// The bits of a run of octets, first octet first.
pub open spec fn octets_bits(s: Seq<Octet>) -> Seq<bool>
    decreases s.len(),
{
    if s.len() == 0 {
        Seq::empty()
    } else {
        s[0].spec_bits() + octets_bits(s.skip(1))
    }
}

proof fn lemma_octets_bits_push(s: Seq<Octet>, o: Octet)
    ensures
        octets_bits(s.push(o)) == octets_bits(s) + o.spec_bits(),
    decreases s.len(),
{
    if s.len() == 0 {
        assert(s.push(o).skip(1) =~= Seq::<Octet>::empty());
        assert(s.push(o)[0] == o);
        assert(octets_bits(s.push(o).skip(1)) == Seq::<bool>::empty());
        assert(octets_bits(s.push(o)) == o.spec_bits() + Seq::<bool>::empty());
        assert(o.spec_bits() + Seq::<bool>::empty() =~= o.spec_bits());
        assert(octets_bits(s) + o.spec_bits() =~= o.spec_bits());
    } else {
        assert(s.push(o).skip(1) =~= s.skip(1).push(o));
        lemma_octets_bits_push(s.skip(1), o);
        assert(s[0].spec_bits() + (octets_bits(s.skip(1)) + o.spec_bits()) =~= (s[0].spec_bits()
            + octets_bits(s.skip(1))) + o.spec_bits());
    }
}

/// Serializes the elements of an octet array in index order.
fn serialize_octets<const N: usize>(a: [Octet; N], bw: &mut BitSink) -> (r: Result<
    (),
    SinkError,
>)
    requires
        octets_wf(a@),
    ensures
        r is Ok,
        writer_bits(*final(bw)) == writer_bits(*old(bw)) + octets_bits(a@),
{
    let ghost w0 = writer_bits(*bw);
    let mut idx: usize = 0;
    while idx < N
        invariant
            idx <= N,
            octets_wf(a@),
            a@.len() == N,
            writer_bits(*bw) == w0 + octets_bits(a@.take(idx as int)),
        decreases N - idx,
    {
        let o: Octet = *vstd::array::array_index_get(&a, idx);
        if let Err(e) = o.bit_serialize(bw) {
            return Err(e);
        }
        proof {
            assert(a@.take(idx + 1) =~= a@.take(idx as int).push(a@[idx as int]));
            lemma_octets_bits_push(a@.take(idx as int), a@[idx as int]);
            assert((w0 + octets_bits(a@.take(idx as int))) + a@[idx as int].spec_bits() =~= w0
                + octets_bits(a@.take(idx + 1)));
        }
        idx = idx + 1;
    }
    proof {
        assert(a@.take(N as int) =~= a@);
    }
    Ok(())
}

impl BitSerialize for Timestamp {
    open spec fn ser_wf(self) -> bool {
        self.wf()
    }

    open spec fn spec_bits(self) -> Seq<bool> {
        self.secondsField.spec_bits() + self.nanosecondsField.spec_bits()
    }

    fn bit_serialize(self, bw: &mut BitSink) -> (r: Result<(), SinkError>) {
        let ghost w0 = writer_bits(*bw);
        let r1 = self.secondsField.bit_serialize(bw);
        if let Err(e) = r1 {
            return Err(e);
        }
        let r2 = self.nanosecondsField.bit_serialize(bw);
        if let Err(e) = r2 {
            return Err(e);
        }
        proof {
            assert((w0 + self.secondsField.spec_bits()) + self.nanosecondsField.spec_bits() =~= w0
                + self.spec_bits());
        }
        Ok(())
    }
}

impl BitSerialize for PortIdentity {
    open spec fn ser_wf(self) -> bool {
        self.wf()
    }

    open spec fn spec_bits(self) -> Seq<bool> {
        octets_bits(self.clockIdentity@) + self.portNumber.spec_bits()
    }

    fn bit_serialize(self, bw: &mut BitSink) -> (r: Result<(), SinkError>) {
        let ghost w0 = writer_bits(*bw);
        let r1 = serialize_octets(self.clockIdentity, bw);
        if let Err(e) = r1 {
            return Err(e);
        }
        let r2 = self.portNumber.bit_serialize(bw);
        if let Err(e) = r2 {
            return Err(e);
        }
        proof {
            assert((w0 + octets_bits(self.clockIdentity@)) + self.portNumber.spec_bits() =~= w0
                + self.spec_bits());
        }
        Ok(())
    }
}

impl BitSerialize for ClockQuality {
    open spec fn ser_wf(self) -> bool {
        self.wf()
    }

    open spec fn spec_bits(self) -> Seq<bool> {
        self.clockClass.spec_bits() + self.clockAccuracy.spec_bits()
            + self.offsetScaledLogVariance.spec_bits()
    }

    fn bit_serialize(self, bw: &mut BitSink) -> (r: Result<(), SinkError>) {
        let ghost w0 = writer_bits(*bw);
        let r1 = self.clockClass.bit_serialize(bw);
        if let Err(e) = r1 {
            return Err(e);
        }
        let r2 = self.clockAccuracy.bit_serialize(bw);
        if let Err(e) = r2 {
            return Err(e);
        }
        proof {
            assert((w0 + self.clockClass.spec_bits()) + self.clockAccuracy.spec_bits() =~= w0 + (
            self.clockClass.spec_bits() + self.clockAccuracy.spec_bits()));
        }
        let r3 = self.offsetScaledLogVariance.bit_serialize(bw);
        if let Err(e) = r3 {
            return Err(e);
        }
        proof {
            assert((w0 + (self.clockClass.spec_bits() + self.clockAccuracy.spec_bits()))
                + self.offsetScaledLogVariance.spec_bits() =~= w0 + self.spec_bits());
        }
        Ok(())
    }
}

impl BitSerialize for Header {
    open spec fn ser_wf(self) -> bool {
        self.wf()
    }

    open spec fn spec_bits(self) -> Seq<bool> {
        self.transportSpecific.spec_bits() + self.messageType.spec_bits()
            + self._reserved1.spec_bits() + self.versionPTP.spec_bits()
            + self.messageLength.spec_bits() + self.domainNumber.spec_bits()
            + self._reserved2.spec_bits() + octets_bits(self.flagField@)
            + self.correctionField.spec_bits() + octets_bits(self._reserved3@)
            + self.sourcePortIdentity.spec_bits() + self.sequenceId.spec_bits()
            + self.controlField.spec_bits() + self.logMessageInterval.spec_bits()
    }

    fn bit_serialize(self, bw: &mut BitSink) -> (r: Result<(), SinkError>) {
        let ghost w0 = writer_bits(*bw);
        let ghost mut acc = Seq::<bool>::empty();
        if let Err(e) = self.transportSpecific.bit_serialize(bw) {
            return Err(e);
        }
        proof {
            acc = self.transportSpecific.spec_bits();
        }
        if let Err(e) = self.messageType.bit_serialize(bw) {
            return Err(e);
        }
        proof {
            assert((w0 + acc) + self.messageType.spec_bits() =~= w0 + (acc
                + self.messageType.spec_bits()));
            acc = acc + self.messageType.spec_bits();
        }
        if let Err(e) = self._reserved1.bit_serialize(bw) {
            return Err(e);
        }
        proof {
            assert((w0 + acc) + self._reserved1.spec_bits() =~= w0 + (acc
                + self._reserved1.spec_bits()));
            acc = acc + self._reserved1.spec_bits();
        }
        if let Err(e) = self.versionPTP.bit_serialize(bw) {
            return Err(e);
        }
        proof {
            assert((w0 + acc) + self.versionPTP.spec_bits() =~= w0 + (acc
                + self.versionPTP.spec_bits()));
            acc = acc + self.versionPTP.spec_bits();
        }
        if let Err(e) = self.messageLength.bit_serialize(bw) {
            return Err(e);
        }
        proof {
            assert((w0 + acc) + self.messageLength.spec_bits() =~= w0 + (acc
                + self.messageLength.spec_bits()));
            acc = acc + self.messageLength.spec_bits();
        }
        if let Err(e) = self.domainNumber.bit_serialize(bw) {
            return Err(e);
        }
        proof {
            assert((w0 + acc) + self.domainNumber.spec_bits() =~= w0 + (acc
                + self.domainNumber.spec_bits()));
            acc = acc + self.domainNumber.spec_bits();
        }
        if let Err(e) = self._reserved2.bit_serialize(bw) {
            return Err(e);
        }
        proof {
            assert((w0 + acc) + self._reserved2.spec_bits() =~= w0 + (acc
                + self._reserved2.spec_bits()));
            acc = acc + self._reserved2.spec_bits();
        }
        if let Err(e) = serialize_octets(self.flagField, bw) {
            return Err(e);
        }
        proof {
            assert((w0 + acc) + octets_bits(self.flagField@) =~= w0 + (acc + octets_bits(
                self.flagField@,
            )));
            acc = acc + octets_bits(self.flagField@);
        }
        if let Err(e) = self.correctionField.bit_serialize(bw) {
            return Err(e);
        }
        proof {
            assert((w0 + acc) + self.correctionField.spec_bits() =~= w0 + (acc
                + self.correctionField.spec_bits()));
            acc = acc + self.correctionField.spec_bits();
        }
        if let Err(e) = serialize_octets(self._reserved3, bw) {
            return Err(e);
        }
        proof {
            assert((w0 + acc) + octets_bits(self._reserved3@) =~= w0 + (acc + octets_bits(
                self._reserved3@,
            )));
            acc = acc + octets_bits(self._reserved3@);
        }
        if let Err(e) = self.sourcePortIdentity.bit_serialize(bw) {
            return Err(e);
        }
        proof {
            assert((w0 + acc) + self.sourcePortIdentity.spec_bits() =~= w0 + (acc
                + self.sourcePortIdentity.spec_bits()));
            acc = acc + self.sourcePortIdentity.spec_bits();
        }
        if let Err(e) = self.sequenceId.bit_serialize(bw) {
            return Err(e);
        }
        proof {
            assert((w0 + acc) + self.sequenceId.spec_bits() =~= w0 + (acc
                + self.sequenceId.spec_bits()));
            acc = acc + self.sequenceId.spec_bits();
        }
        if let Err(e) = self.controlField.bit_serialize(bw) {
            return Err(e);
        }
        proof {
            assert((w0 + acc) + self.controlField.spec_bits() =~= w0 + (acc
                + self.controlField.spec_bits()));
            acc = acc + self.controlField.spec_bits();
        }
        if let Err(e) = self.logMessageInterval.bit_serialize(bw) {
            return Err(e);
        }
        proof {
            assert((w0 + acc) + self.logMessageInterval.spec_bits() =~= w0 + (acc
                + self.logMessageInterval.spec_bits()));
            acc = acc + self.logMessageInterval.spec_bits();
            assert(acc =~= self.spec_bits());
        }
        Ok(())
    }
}

impl BitSerialize for Announce {
    open spec fn ser_wf(self) -> bool {
        self.wf()
    }

    open spec fn spec_bits(self) -> Seq<bool> {
        self.originTimestamp.spec_bits() + self.currentUtcOffset.spec_bits()
            + self._reserved.spec_bits() + self.grandmasterPriority1.spec_bits()
            + self.grandmasterClockQuality.spec_bits() + self.grandmasterPriority2.spec_bits()
            + octets_bits(self.grandmasterIdentity@) + self.stepsRemoved.spec_bits()
            + self.timeSource.spec_bits()
    }

    fn bit_serialize(self, bw: &mut BitSink) -> (r: Result<(), SinkError>) {
        let ghost w0 = writer_bits(*bw);
        let ghost mut acc = Seq::<bool>::empty();
        if let Err(e) = self.originTimestamp.bit_serialize(bw) {
            return Err(e);
        }
        proof {
            acc = self.originTimestamp.spec_bits();
        }
        if let Err(e) = self.currentUtcOffset.bit_serialize(bw) {
            return Err(e);
        }
        proof {
            assert((w0 + acc) + self.currentUtcOffset.spec_bits() =~= w0 + (acc
                + self.currentUtcOffset.spec_bits()));
            acc = acc + self.currentUtcOffset.spec_bits();
        }
        if let Err(e) = self._reserved.bit_serialize(bw) {
            return Err(e);
        }
        proof {
            assert((w0 + acc) + self._reserved.spec_bits() =~= w0 + (acc
                + self._reserved.spec_bits()));
            acc = acc + self._reserved.spec_bits();
        }
        if let Err(e) = self.grandmasterPriority1.bit_serialize(bw) {
            return Err(e);
        }
        proof {
            assert((w0 + acc) + self.grandmasterPriority1.spec_bits() =~= w0 + (acc
                + self.grandmasterPriority1.spec_bits()));
            acc = acc + self.grandmasterPriority1.spec_bits();
        }
        if let Err(e) = self.grandmasterClockQuality.bit_serialize(bw) {
            return Err(e);
        }
        proof {
            assert((w0 + acc) + self.grandmasterClockQuality.spec_bits() =~= w0 + (acc
                + self.grandmasterClockQuality.spec_bits()));
            acc = acc + self.grandmasterClockQuality.spec_bits();
        }
        if let Err(e) = self.grandmasterPriority2.bit_serialize(bw) {
            return Err(e);
        }
        proof {
            assert((w0 + acc) + self.grandmasterPriority2.spec_bits() =~= w0 + (acc
                + self.grandmasterPriority2.spec_bits()));
            acc = acc + self.grandmasterPriority2.spec_bits();
        }
        if let Err(e) = serialize_octets(self.grandmasterIdentity, bw) {
            return Err(e);
        }
        proof {
            assert((w0 + acc) + octets_bits(self.grandmasterIdentity@) =~= w0 + (acc + octets_bits(
                self.grandmasterIdentity@,
            )));
            acc = acc + octets_bits(self.grandmasterIdentity@);
        }
        if let Err(e) = self.stepsRemoved.bit_serialize(bw) {
            return Err(e);
        }
        proof {
            assert((w0 + acc) + self.stepsRemoved.spec_bits() =~= w0 + (acc
                + self.stepsRemoved.spec_bits()));
            acc = acc + self.stepsRemoved.spec_bits();
        }
        if let Err(e) = self.timeSource.bit_serialize(bw) {
            return Err(e);
        }
        proof {
            assert((w0 + acc) + self.timeSource.spec_bits() =~= w0 + (acc
                + self.timeSource.spec_bits()));
            acc = acc + self.timeSource.spec_bits();
            assert(acc =~= self.spec_bits());
        }
        Ok(())
    }
}

impl BitSerialize for Sync {
    open spec fn ser_wf(self) -> bool {
        self.wf()
    }

    open spec fn spec_bits(self) -> Seq<bool> {
        self.originTimestamp.spec_bits()
    }

    fn bit_serialize(self, bw: &mut BitSink) -> (r: Result<(), SinkError>) {
        self.originTimestamp.bit_serialize(bw)
    }
}

impl BitSerialize for Delay_Req {
    open spec fn ser_wf(self) -> bool {
        self.wf()
    }

    open spec fn spec_bits(self) -> Seq<bool> {
        self.originTimestamp.spec_bits()
    }

    fn bit_serialize(self, bw: &mut BitSink) -> (r: Result<(), SinkError>) {
        self.originTimestamp.bit_serialize(bw)
    }
}

impl BitSerialize for Follow_Up {
    open spec fn ser_wf(self) -> bool {
        self.wf()
    }

    open spec fn spec_bits(self) -> Seq<bool> {
        self.preciseOriginTimestamp.spec_bits()
    }

    fn bit_serialize(self, bw: &mut BitSink) -> (r: Result<(), SinkError>) {
        self.preciseOriginTimestamp.bit_serialize(bw)
    }
}

impl BitSerialize for Delay_Resp {
    open spec fn ser_wf(self) -> bool {
        self.wf()
    }

    open spec fn spec_bits(self) -> Seq<bool> {
        self.receiveTimestamp.spec_bits() + self.requestingPortIdentity.spec_bits()
    }

    fn bit_serialize(self, bw: &mut BitSink) -> (r: Result<(), SinkError>) {
        let ghost w0 = writer_bits(*bw);
        if let Err(e) = self.receiveTimestamp.bit_serialize(bw) {
            return Err(e);
        }
        if let Err(e) = self.requestingPortIdentity.bit_serialize(bw) {
            return Err(e);
        }
        proof {
            assert((w0 + self.receiveTimestamp.spec_bits())
                + self.requestingPortIdentity.spec_bits() =~= w0 + self.spec_bits());
        }
        Ok(())
    }
}

impl BitSerialize for Body {
    open spec fn ser_wf(self) -> bool {
        self.wf()
    }

    /// A tagged union delegates to its active variant; the discriminant
    /// is carried by the header's message type, not re-emitted here.
    open spec fn spec_bits(self) -> Seq<bool> {
        match self {
            Body::Announce(a) => a.spec_bits(),
            Body::Sync(s) => s.spec_bits(),
            Body::Delay_Req(d) => d.spec_bits(),
            Body::Follow_Up(f) => f.spec_bits(),
            Body::Delay_Resp(d) => d.spec_bits(),
            Body::Empty => Seq::empty(),
        }
    }

    fn bit_serialize(self, bw: &mut BitSink) -> (r: Result<(), SinkError>) {
        match self {
            Body::Announce(a) => a.bit_serialize(bw),
            Body::Sync(s) => s.bit_serialize(bw),
            Body::Delay_Req(d) => d.bit_serialize(bw),
            Body::Follow_Up(f) => f.bit_serialize(bw),
            Body::Delay_Resp(d) => d.bit_serialize(bw),
            Body::Empty => {
                proof {
                    assert(writer_bits(*bw) + Seq::<bool>::empty() =~= writer_bits(*bw));
                }
                Ok(())
            },
        }
    }
}

impl BitSerialize for Message {
    /// A message serializes from its parts alone; whether the body
    /// variant matches the message type is the decoder's concern.
    open spec fn ser_wf(self) -> bool {
        self.header.wf() && self.body.wf()
    }

    open spec fn spec_bits(self) -> Seq<bool> {
        self.header.spec_bits() + self.body.spec_bits()
    }

    fn bit_serialize(self, bw: &mut BitSink) -> (r: Result<(), SinkError>) {
        let ghost w0 = writer_bits(*bw);
        if let Err(e) = self.header.bit_serialize(bw) {
            return Err(e);
        }
        if let Err(e) = self.body.bit_serialize(bw) {
            return Err(e);
        }
        proof {
            assert((w0 + self.header.spec_bits()) + self.body.spec_bits() =~= w0
                + self.spec_bits());
        }
        Ok(())
    }
}

/// An unsigned field's bits are just its value's bits.
proof fn lemma_uint_bits<C: Constrain>(x: Int<C>)
    requires
        x.wf(),
        C::min_spec() == 0,
    ensures
        x.spec_bits() == be_bits(x@ as nat, C::bits_spec()),
{
    C::lemma_valid();
    lemma_twoc_of_unsigned(x@, C::bits_spec());
}

/// The byte form of a run of octets carries exactly the octets' bits.
proof fn lemma_octets_bridge(s: Seq<Octet>)
    requires
        octets_wf(s),
    ensures
        bits_of_bytes(spec_ser_octets(s)) == octets_bits(s),
    decreases s.len(),
{
    let m = spec_ser_octets(s);
    if s.len() == 0 {
        assert(m.len() == 0);
    } else {
        assert(m[0] == (s[0]@ as u8));
        assert(m.skip(1) =~= spec_ser_octets(s.skip(1)));
        lemma_octets_bridge(s.skip(1));
        lemma_uint_bits(s[0]);
        assert(byte_bits(m[0]) == s[0].spec_bits()) by {
            assert((s[0]@ as u8) as nat == s[0]@ as nat);
        }
    }
}

/// The two packed nibbles of one byte carry the two nibbles' bits.
proof fn lemma_nibble_byte(hi: Int<U4>, lo: Int<U4>)
    requires
        hi.wf(),
        lo.wf(),
    ensures
        bits_of_bytes(be_bytes((hi@ * 16 + lo@) as nat, 1)) == hi.spec_bits() + lo.spec_bits(),
{
    let v: nat = (hi@ * 16 + lo@) as nat;
    lemma_bits_of_be_bytes(v, 1);
    lemma_be_bits_split(v, 4, 4);
    lemma2_to64();
    lemma_fundamental_div_mod_converse(v as int, 16, hi@, lo@);
    assert(v as int / pow2(4) as int == hi@);
    assert(v % pow2(4) == lo@ as nat);
    lemma_be_bits_mod(v, 4);
    lemma_uint_bits(hi);
    lemma_uint_bits(lo);
    assert(be_bits(v / pow2(4), 4) == hi.spec_bits());
    assert(be_bits(v, 4) == lo.spec_bits());
}

/// The timestamp's byte form carries exactly its bits.
proof fn lemma_timestamp_bridge(t: Timestamp)
    requires
        t.wf(),
    ensures
        bits_of_bytes(spec_ser_timestamp(t)) == t.spec_bits(),
{
    lemma_bits_of_bytes_concat(
        be_bytes(t.secondsField@ as nat, 6),
        be_bytes(t.nanosecondsField@ as nat, 4),
    );
    lemma_bits_of_be_bytes(t.secondsField@ as nat, 6);
    lemma_bits_of_be_bytes(t.nanosecondsField@ as nat, 4);
    lemma_uint_bits(t.secondsField);
    lemma_uint_bits(t.nanosecondsField);
}

/// The port identity's byte form carries exactly its bits.
proof fn lemma_port_identity_bridge(p: PortIdentity)
    requires
        p.wf(),
    ensures
        bits_of_bytes(spec_ser_port_identity(p)) == p.spec_bits(),
{
    lemma_bits_of_bytes_concat(
        spec_ser_octets(p.clockIdentity@),
        be_bytes(p.portNumber@ as nat, 2),
    );
    lemma_octets_bridge(p.clockIdentity@);
    lemma_bits_of_be_bytes(p.portNumber@ as nat, 2);
    lemma_uint_bits(p.portNumber);
}

/// The clock quality's byte form carries exactly its bits.
proof fn lemma_clock_quality_bridge(q: ClockQuality)
    requires
        q.wf(),
    ensures
        bits_of_bytes(spec_ser_clock_quality(q)) == q.spec_bits(),
{
    let c1 = be_bytes(q.clockClass@ as nat, 1);
    let c2 = be_bytes(q.clockAccuracy.raw_spec()@ as nat, 1);
    let c3 = be_bytes(q.offsetScaledLogVariance@ as nat, 2);
    lemma_bits_of_bytes_concat(c1 + c2, c3);
    lemma_bits_of_bytes_concat(c1, c2);
    lemma_bits_of_be_bytes(q.clockClass@ as nat, 1);
    lemma_bits_of_be_bytes(q.clockAccuracy.raw_spec()@ as nat, 1);
    lemma_bits_of_be_bytes(q.offsetScaledLogVariance@ as nat, 2);
    lemma_uint_bits(q.clockClass);
    lemma_uint_bits(q.clockAccuracy.raw_spec());
    lemma_uint_bits(q.offsetScaledLogVariance);
}

/// The header's 34 bytes carry exactly the header's bits.
proof fn lemma_header_bridge(h: Header)
    requires
        h.wf(),
    ensures
        bits_of_bytes(spec_ser_header(h)) == h.spec_bits(),
{
    let c1 = be_bytes((h.transportSpecific@ * 16 + h.messageType.raw_spec()@) as nat, 1);
    let c2 = be_bytes((h._reserved1@ * 16 + h.versionPTP@) as nat, 1);
    let c3 = be_bytes(h.messageLength@ as nat, 2);
    let c4 = be_bytes(h.domainNumber@ as nat, 1);
    let c5 = be_bytes(h._reserved2@ as nat, 1);
    let c6 = spec_ser_octets(h.flagField@);
    let c7 = be_bytes(twoc(h.correctionField@, 64), 8);
    let c8 = spec_ser_octets(h._reserved3@);
    let c9 = spec_ser_port_identity(h.sourcePortIdentity);
    let c10 = be_bytes(h.sequenceId@ as nat, 2);
    let c11 = be_bytes(h.controlField@ as nat, 1);
    let c12 = be_bytes(twoc(h.logMessageInterval@, 8), 1);
    lemma_bits_of_bytes_concat(
        c1 + c2 + c3 + c4 + c5 + c6 + c7 + c8 + c9 + c10 + c11,
        c12,
    );
    lemma_bits_of_bytes_concat(c1 + c2 + c3 + c4 + c5 + c6 + c7 + c8 + c9 + c10, c11);
    lemma_bits_of_bytes_concat(c1 + c2 + c3 + c4 + c5 + c6 + c7 + c8 + c9, c10);
    lemma_bits_of_bytes_concat(c1 + c2 + c3 + c4 + c5 + c6 + c7 + c8, c9);
    lemma_bits_of_bytes_concat(c1 + c2 + c3 + c4 + c5 + c6 + c7, c8);
    lemma_bits_of_bytes_concat(c1 + c2 + c3 + c4 + c5 + c6, c7);
    lemma_bits_of_bytes_concat(c1 + c2 + c3 + c4 + c5, c6);
    lemma_bits_of_bytes_concat(c1 + c2 + c3 + c4, c5);
    lemma_bits_of_bytes_concat(c1 + c2 + c3, c4);
    lemma_bits_of_bytes_concat(c1 + c2, c3);
    lemma_bits_of_bytes_concat(c1, c2);
    lemma_nibble_byte(h.transportSpecific, h.messageType.raw_spec());
    lemma_nibble_byte(h._reserved1, h.versionPTP);
    lemma_bits_of_be_bytes(h.messageLength@ as nat, 2);
    lemma_uint_bits(h.messageLength);
    lemma_bits_of_be_bytes(h.domainNumber@ as nat, 1);
    lemma_uint_bits(h.domainNumber);
    lemma_bits_of_be_bytes(h._reserved2@ as nat, 1);
    lemma_uint_bits(h._reserved2);
    lemma_octets_bridge(h.flagField@);
    lemma_bits_of_be_bytes(twoc(h.correctionField@, 64), 8);
    lemma_octets_bridge(h._reserved3@);
    lemma_port_identity_bridge(h.sourcePortIdentity);
    lemma_bits_of_be_bytes(h.sequenceId@ as nat, 2);
    lemma_uint_bits(h.sequenceId);
    lemma_bits_of_be_bytes(h.controlField@ as nat, 1);
    lemma_uint_bits(h.controlField);
    lemma_bits_of_be_bytes(twoc(h.logMessageInterval@, 8), 1);
    // the first two bytes each pack two nibble fields; regroup them
    let a1 = h.transportSpecific.spec_bits();
    let a2 = h.messageType.spec_bits();
    let a3 = h._reserved1.spec_bits();
    let a4 = h.versionPTP.spec_bits();
    assert((a1 + a2) + (a3 + a4) =~= ((a1 + a2) + a3) + a4);
}

/// The announce body's 30 bytes carry exactly its bits.
proof fn lemma_announce_bridge(a: Announce)
    requires
        a.wf(),
    ensures
        bits_of_bytes(spec_ser_announce(a)) == a.spec_bits(),
{
    let c1 = spec_ser_timestamp(a.originTimestamp);
    let c2 = be_bytes(twoc(a.currentUtcOffset@, 16), 2);
    let c3 = be_bytes(a._reserved@ as nat, 1);
    let c4 = be_bytes(a.grandmasterPriority1@ as nat, 1);
    let c5 = spec_ser_clock_quality(a.grandmasterClockQuality);
    let c6 = be_bytes(a.grandmasterPriority2@ as nat, 1);
    let c7 = spec_ser_octets(a.grandmasterIdentity@);
    let c8 = be_bytes(a.stepsRemoved@ as nat, 2);
    let c9 = be_bytes(a.timeSource.raw_spec()@ as nat, 1);
    lemma_bits_of_bytes_concat(c1 + c2 + c3 + c4 + c5 + c6 + c7 + c8, c9);
    lemma_bits_of_bytes_concat(c1 + c2 + c3 + c4 + c5 + c6 + c7, c8);
    lemma_bits_of_bytes_concat(c1 + c2 + c3 + c4 + c5 + c6, c7);
    lemma_bits_of_bytes_concat(c1 + c2 + c3 + c4 + c5, c6);
    lemma_bits_of_bytes_concat(c1 + c2 + c3 + c4, c5);
    lemma_bits_of_bytes_concat(c1 + c2 + c3, c4);
    lemma_bits_of_bytes_concat(c1 + c2, c3);
    lemma_bits_of_bytes_concat(c1, c2);
    lemma_timestamp_bridge(a.originTimestamp);
    lemma_bits_of_be_bytes(twoc(a.currentUtcOffset@, 16), 2);
    lemma_bits_of_be_bytes(a._reserved@ as nat, 1);
    lemma_uint_bits(a._reserved);
    lemma_bits_of_be_bytes(a.grandmasterPriority1@ as nat, 1);
    lemma_uint_bits(a.grandmasterPriority1);
    lemma_clock_quality_bridge(a.grandmasterClockQuality);
    lemma_bits_of_be_bytes(a.grandmasterPriority2@ as nat, 1);
    lemma_uint_bits(a.grandmasterPriority2);
    lemma_octets_bridge(a.grandmasterIdentity@);
    lemma_bits_of_be_bytes(a.stepsRemoved@ as nat, 2);
    lemma_uint_bits(a.stepsRemoved);
    lemma_bits_of_be_bytes(a.timeSource.raw_spec()@ as nat, 1);
    lemma_uint_bits(a.timeSource.raw_spec());
}

/// The body's byte form carries exactly its bits.
proof fn lemma_body_bridge(b: Body)
    requires
        b.wf(),
    ensures
        bits_of_bytes(spec_ser_body(b)) == b.spec_bits(),
{
    match b {
        Body::Announce(a) => {
            lemma_announce_bridge(a);
        },
        Body::Sync(s) => {
            lemma_timestamp_bridge(s.originTimestamp);
        },
        Body::Delay_Req(d) => {
            lemma_timestamp_bridge(d.originTimestamp);
        },
        Body::Follow_Up(f) => {
            lemma_timestamp_bridge(f.preciseOriginTimestamp);
        },
        Body::Delay_Resp(d) => {
            lemma_bits_of_bytes_concat(
                spec_ser_timestamp(d.receiveTimestamp),
                spec_ser_port_identity(d.requestingPortIdentity),
            );
            lemma_timestamp_bridge(d.receiveTimestamp);
            lemma_port_identity_bridge(d.requestingPortIdentity);
        },
        Body::Empty => {
        },
    }
}

/// The message's byte form carries exactly its bits.
proof fn lemma_message_bridge(m: Message)
    requires
        m.header.wf(),
        m.body.wf(),
    ensures
        bits_of_bytes(spec_ser_message(m)) == m.spec_bits(),
{
    lemma_bits_of_bytes_concat(spec_ser_header(m.header), spec_ser_body(m.body));
    lemma_header_bridge(m.header);
    lemma_body_bridge(m.body);
}

/// Serializes a message into the exact byte layout the standard
/// mandates: the 34 header bytes, then the bytes of the body its
/// message type selects. With the vector sink this cannot fail.
pub fn serialize_message(m: &Message) -> (r: Vec<u8>)
    requires
        m.header.wf(),
        m.body.wf(),
    ensures
        r@ == spec_ser_message(*m),
{
    let mut bw = BitSink::new();
    let res = (*m).bit_serialize(&mut bw);
    proof {
        assert(Seq::<bool>::empty() + (*m).spec_bits() =~= (*m).spec_bits());
        lemma_message_bridge(*m);
        lemma_bits_of_bytes_len(spec_ser_message(*m));
        lemma_mod_multiples_basic(spec_ser_message(*m).len() as int, 8);
    }
    let v = bw.into_bytes();
    proof {
        lemma_bytes_of_same_bits(v@, spec_ser_message(*m));
    }
    v
}

} // verus!
