//! The per-message-type body layouts this codec decodes and serializes.

use vstd::prelude::*;

verus! {

use crate::primitive::{Octet, UInteger8, UInteger16, Integer16};
use crate::derived::{Timestamp, PortIdentity, ClockQuality, ClockIdentity, octets_wf};
use crate::enums::TimeSource;

/// The announce payload: the grandmaster's identity and quality.
#[allow(non_snake_case)]
#[verifier::ext_equal]
#[derive(Clone, Copy, Debug, PartialEq, Eq)]
pub struct Announce {
    pub originTimestamp: Timestamp,
    pub currentUtcOffset: Integer16,
    pub _reserved: Octet,
    pub grandmasterPriority1: UInteger8,
    pub grandmasterClockQuality: ClockQuality,
    pub grandmasterPriority2: UInteger8,
    pub grandmasterIdentity: ClockIdentity,
    pub stepsRemoved: UInteger16,
    pub timeSource: TimeSource,
}

impl Announce {
    pub open spec fn wf(self) -> bool {
        &&& self.originTimestamp.wf()
        &&& self.currentUtcOffset.wf()
        &&& self._reserved.wf()
        &&& self.grandmasterPriority1.wf()
        &&& self.grandmasterClockQuality.wf()
        &&& self.grandmasterPriority2.wf()
        &&& octets_wf(self.grandmasterIdentity@)
        &&& self.stepsRemoved.wf()
        &&& self.timeSource.wf()
        &&& self.timeSource.raw_wf()
    }
}

/// The sync payload: the origin timestamp alone.
#[allow(non_snake_case)]
#[verifier::ext_equal]
#[derive(Clone, Copy, Debug, PartialEq, Eq)]
pub struct Sync {
    pub originTimestamp: Timestamp,
}

impl Sync {
    pub open spec fn wf(self) -> bool {
        self.originTimestamp.wf()
    }
}

/// The delay-request payload: the origin timestamp alone.
#[allow(non_camel_case_types)]
#[allow(non_snake_case)]
#[verifier::ext_equal]
#[derive(Clone, Copy, Debug, PartialEq, Eq)]
pub struct Delay_Req {
    pub originTimestamp: Timestamp,
}

impl Delay_Req {
    pub open spec fn wf(self) -> bool {
        self.originTimestamp.wf()
    }
}

/// The follow-up payload: the precise origin timestamp.
#[allow(non_camel_case_types)]
#[allow(non_snake_case)]
#[verifier::ext_equal]
#[derive(Clone, Copy, Debug, PartialEq, Eq)]
pub struct Follow_Up {
    pub preciseOriginTimestamp: Timestamp,
}

impl Follow_Up {
    pub open spec fn wf(self) -> bool {
        self.preciseOriginTimestamp.wf()
    }
}

/// The delay-response payload: receive time and the requesting port.
#[allow(non_camel_case_types)]
#[allow(non_snake_case)]
#[verifier::ext_equal]
#[derive(Clone, Copy, Debug, PartialEq, Eq)]
pub struct Delay_Resp {
    pub receiveTimestamp: Timestamp,
    pub requestingPortIdentity: PortIdentity,
}

impl Delay_Resp {
    pub open spec fn wf(self) -> bool {
        self.receiveTimestamp.wf() && self.requestingPortIdentity.wf()
    }
}

} // verus!
