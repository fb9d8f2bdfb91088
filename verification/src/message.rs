//! The message data model: the fixed header common to every message, the
//! per-type body variants, and the message that joins the two. The
//! `messageType` field of the header is the single source of truth for
//! which body variant a message carries.

use vstd::prelude::*;

pub mod body;

verus! {

use crate::primitive::{Nibble, Octet, UInteger4, UInteger8, UInteger16, Integer8, Integer64};
use crate::derived::{PortIdentity, octets_wf};
use crate::enums::{Enumeration, MessageType, values};

/// The fixed 34-byte prefix common to every message.
#[allow(non_snake_case)]
#[verifier::ext_equal]
#[derive(Clone, Copy, Debug, PartialEq, Eq)]
pub struct Header {
    pub transportSpecific: Nibble,
    pub messageType: MessageType,
    pub _reserved1: Nibble,
    pub versionPTP: UInteger4,
    pub messageLength: UInteger16,
    pub domainNumber: UInteger8,
    pub _reserved2: Octet,
    pub flagField: [Octet; 2],
    pub correctionField: Integer64,
    pub _reserved3: [Octet; 4],
    pub sourcePortIdentity: PortIdentity,
    pub sequenceId: UInteger16,
    pub controlField: UInteger8,
    pub logMessageInterval: Integer8,
}

impl Header {
    pub open spec fn wf(self) -> bool {
        &&& self.transportSpecific.wf()
        &&& self.messageType.wf()
        &&& self.messageType.raw_wf()
        &&& self._reserved1.wf()
        &&& self.versionPTP.wf()
        &&& self.messageLength.wf()
        &&& self.domainNumber.wf()
        &&& self._reserved2.wf()
        &&& octets_wf(self.flagField@)
        &&& self.correctionField.wf()
        &&& octets_wf(self._reserved3@)
        &&& self.sourcePortIdentity.wf()
        &&& self.sequenceId.wf()
        &&& self.controlField.wf()
        &&& self.logMessageInterval.wf()
    }
}

/// The body of a message: one variant per message type this codec
/// decodes, and `Empty` for every other message type. The discriminant
/// is not stored here — the header's `messageType` carries it.
#[allow(non_camel_case_types)]
#[verifier::ext_equal]
#[derive(Clone, Copy, Debug, PartialEq, Eq)]
pub enum Body {
    Announce(body::Announce),
    Sync(body::Sync),
    Delay_Req(body::Delay_Req),
    Follow_Up(body::Follow_Up),
    Delay_Resp(body::Delay_Resp),
    Empty,
}

impl Body {
    pub open spec fn wf(self) -> bool {
        match self {
            Body::Announce(b) => b.wf(),
            Body::Sync(b) => b.wf(),
            Body::Delay_Req(b) => b.wf(),
            Body::Follow_Up(b) => b.wf(),
            Body::Delay_Resp(b) => b.wf(),
            Body::Empty => true,
        }
    }
}

/// The body variant a message carries is the one its header's
/// `messageType` selects; message types without a decoded body layout
/// carry `Empty`.
pub open spec fn body_matches_type(mt: MessageType, b: Body) -> bool {
    match b {
        Body::Announce(_) => mt == Enumeration::<crate::primitive::Enumeration4,
            values::MessageType>::Enum(values::MessageType::Announce),
        Body::Sync(_) => mt == Enumeration::<crate::primitive::Enumeration4,
            values::MessageType>::Enum(values::MessageType::Sync),
        Body::Delay_Req(_) => mt == Enumeration::<crate::primitive::Enumeration4,
            values::MessageType>::Enum(values::MessageType::Delay_Req),
        Body::Follow_Up(_) => mt == Enumeration::<crate::primitive::Enumeration4,
            values::MessageType>::Enum(values::MessageType::Follow_Up),
        Body::Delay_Resp(_) => mt == Enumeration::<crate::primitive::Enumeration4,
            values::MessageType>::Enum(values::MessageType::Delay_Resp),
        Body::Empty => {
            &&& mt != Enumeration::<crate::primitive::Enumeration4,
                values::MessageType>::Enum(values::MessageType::Announce)
            &&& mt != Enumeration::<crate::primitive::Enumeration4,
                values::MessageType>::Enum(values::MessageType::Sync)
            &&& mt != Enumeration::<crate::primitive::Enumeration4,
                values::MessageType>::Enum(values::MessageType::Delay_Req)
            &&& mt != Enumeration::<crate::primitive::Enumeration4,
                values::MessageType>::Enum(values::MessageType::Follow_Up)
            &&& mt != Enumeration::<crate::primitive::Enumeration4,
                values::MessageType>::Enum(values::MessageType::Delay_Resp)
        },
    }
}

/// A whole message: header and the body its message type selects.
#[verifier::ext_equal]
#[derive(Clone, Copy, Debug, PartialEq, Eq)]
pub struct Message {
    pub header: Header,
    pub body: Body,
}

impl Message {
    pub open spec fn wf(self) -> bool {
        &&& self.header.wf()
        &&& self.body.wf()
        &&& body_matches_type(self.header.messageType, self.body)
    }
}

} // verus!
