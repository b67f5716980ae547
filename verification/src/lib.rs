//! A verified core for an IEC 61850 client speaking MMS over the OSI
//! upper-layer stack (ACSE, Presentation, Session, COTP over TPKT).
//!
//! Every function in this crate carries a contract that is checked by Verus.
//! The crate performs no I/O: it encodes and parses frames, validates
//! handshakes, and decides what a connection driver has to do next.

pub mod iec61850;
pub mod mms;
