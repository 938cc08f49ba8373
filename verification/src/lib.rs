//! DICOM Upper Layer protocol: PDU model, binary codec, presentation-context
//! negotiation, and the client/server association state machines, all free of
//! I/O so the same logic serves a blocking or a suspendable transport driver.
pub mod bytes;
pub mod codec;
pub mod config;
pub mod machine;
pub mod negotiation;
pub mod pdu;
pub mod standard;
