//! The derived field types shared by several message bodies: timestamps,
//! port identities and clock quality, each a fixed-layout aggregate of
//! constrained integers.

use vstd::prelude::*;

verus! {

use crate::primitive::{Octet, UInteger8, UInteger16, UInteger32, UInteger48};
use crate::enums::ClockAcurracy;

/// An eight-octet clock identity, owned by the message that carries it.
pub type ClockIdentity = [Octet; 8];

/// Every octet of a sequence lies in its eight-bit range.
pub open spec fn octets_wf(s: Seq<Octet>) -> bool {
    forall|i: int| 0 <= i < s.len() ==> (#[trigger] s[i]).wf()
}

/// A second-and-nanosecond instant, 48 + 32 bits on the wire.
#[allow(non_snake_case)]
#[verifier::ext_equal]
#[derive(Clone, Copy, Debug, PartialEq, Eq)]
pub struct Timestamp {
    pub secondsField: UInteger48,
    pub nanosecondsField: UInteger32,
}

impl Timestamp {
    pub open spec fn wf(self) -> bool {
        self.secondsField.wf() && self.nanosecondsField.wf()
    }
}

/// A clock identity together with a port number.
#[allow(non_snake_case)]
#[verifier::ext_equal]
#[derive(Clone, Copy, Debug, PartialEq, Eq)]
pub struct PortIdentity {
    pub clockIdentity: ClockIdentity,
    pub portNumber: UInteger16,
}

impl PortIdentity {
    pub open spec fn wf(self) -> bool {
        octets_wf(self.clockIdentity@) && self.portNumber.wf()
    }
}

/// The quality a clock announces: class, accuracy and variance.
#[allow(non_snake_case)]
#[verifier::ext_equal]
#[derive(Clone, Copy, Debug, PartialEq, Eq)]
pub struct ClockQuality {
    pub clockClass: UInteger8,
    pub clockAccuracy: ClockAcurracy,
    pub offsetScaledLogVariance: UInteger16,
}

impl ClockQuality {
    pub open spec fn wf(self) -> bool {
        self.clockClass.wf() && self.clockAccuracy.wf() && self.clockAccuracy.raw_wf()
            && self.offsetScaledLogVariance.wf()
    }
}

/// A time interval; no message this codec decodes carries one yet.
#[derive(Clone, Copy, Debug, PartialEq, Eq)]
pub struct TimeInterval;

/// A port address; no message this codec decodes carries one yet.
#[derive(Clone, Copy, Debug, PartialEq, Eq)]
pub struct PortAddress;

/// A type-length-value extension; none is decoded yet.
#[derive(Clone, Copy, Debug, PartialEq, Eq)]
pub struct TLV;

/// A textual field; none is decoded yet.
#[derive(Clone, Copy, Debug, PartialEq, Eq)]
pub struct PTPText;

/// A fault record; none is decoded yet.
#[derive(Clone, Copy, Debug, PartialEq, Eq)]
pub struct FaultRecord;

} // verus!
