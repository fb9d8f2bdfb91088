//! The trusted boundary to the bit-oriented output sink of the
//! `bitstream_io` crate. The codec writes through a big-endian
//! `BitWriter` over an owned byte vector, held opaquely in [`BitSink`];
//! the contracts here state, over a ghost bit string, exactly what each
//! call appends, as the crate's source shows.

use vstd::prelude::*;
use bitstream_io::BitWrite;

verus! {

use vstd::arithmetic::power2::pow2;
use crate::bits::{be_bits, bits_of_bytes, twoc};

/// The output channel failed during serialization. A vector-backed sink
/// never fails, so the serializers below also promise success.
#[derive(Clone, Copy, Debug, PartialEq, Eq)]
pub struct SinkError;

/// The codec's output sink: a `bitstream_io::BitWriter` over an owned
/// byte vector, big-endian as the protocol mandates.
#[verifier::external_body]
pub struct BitSink {
    inner: bitstream_io::BitWriter<Vec<u8>, bitstream_io::BigEndian>,
}

/// The bits written to the sink so far, most significant bit of each
/// write first, in the order written.
pub uninterp spec fn writer_bits(w: BitSink) -> Seq<bool>;

impl BitSink {
    /// Relies on `BitWriter::endian` with an empty vector: a fresh
    /// writer holds no bits.
    #[verifier::external_body]
    pub fn new() -> (w: BitSink)
        ensures
            writer_bits(w) == Seq::<bool>::empty(),
    {
        BitSink { inner: bitstream_io::BitWriter::endian(Vec::new(), bitstream_io::BigEndian) }
    }

    /// Relies on `BitWrite::write` for `BitWriter`: it appends exactly
    /// the `bits`-wide big-endian form of `value`, and with the bit
    /// count and value in range its only error source is the sink,
    /// which for a vector never fails.
    #[verifier::external_body]
    pub(crate) fn write_bits(&mut self, bits: u32, value: u64) -> (r: Result<(), SinkError>)
        requires
            1 <= bits <= 64,
            (value as nat) < pow2(bits as nat),
        ensures
            r is Ok,
            writer_bits(*final(self)) == writer_bits(*old(self)) + be_bits(
                value as nat,
                bits as nat,
            ),
    {
        match self.inner.write(bits, value) {
            Ok(()) => Ok(()),
            Err(_) => Err(SinkError),
        }
    }

    /// Relies on `BitWrite::write_signed` for the big-endian
    /// `BitWriter`: it appends the `bits`-wide two's-complement form of
    /// `value`, and with the value in the signed range of the width its
    /// only error source is the sink, which for a vector never fails.
    #[verifier::external_body]
    pub(crate) fn write_signed_bits(&mut self, bits: u32, value: i64) -> (r: Result<
        (),
        SinkError,
    >)
        requires
            2 <= bits <= 64,
            -(pow2((bits - 1) as nat) as int) <= value as int,
            (value as int) < pow2((bits - 1) as nat) as int,
        ensures
            r is Ok,
            writer_bits(*final(self)) == writer_bits(*old(self)) + be_bits(
                twoc(value as int, bits as nat),
                bits as nat,
            ),
    {
        match self.inner.write_signed(bits, value) {
            Ok(()) => Ok(()),
            Err(_) => Err(SinkError),
        }
    }

    /// Relies on `BitWriter::into_writer`: a byte-aligned writer has
    /// flushed every written bit into the vector, eight per byte, most
    /// significant first.
    #[verifier::external_body]
    pub fn into_bytes(self) -> (v: Vec<u8>)
        requires
            writer_bits(self).len() % 8 == 0,
        ensures
            8 * v@.len() == writer_bits(self).len(),
            bits_of_bytes(v@) == writer_bits(self),
    {
        self.inner.into_writer()
    }
}

} // verus!
