//! A verified codec for the wire format of the Precision Time Protocol
//! (IEEE 1588): constrained integers, extensible protocol enumerations,
//! the message data model, a bit-level serializer and a streaming decoder,
//! with a proved round trip between the two directions.

pub mod bits;
pub mod primitive;
pub mod enums;
pub mod derived;
pub mod message;
pub mod wire;
pub mod writer;
pub mod serialize;
pub mod parser;
pub mod roundtrip;
