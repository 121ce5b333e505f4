//! Converts a remote proxy-subscription document into a filtered local
//! configuration and a one-line proxy descriptor for an external
//! traffic-forwarding client.
//!
//! The pipeline is linear: the subscription URL is validated, the fetched
//! JSON object is decoded into a typed view, the "inbounds" array is reduced
//! to its "mixed" listeners while every other key is kept verbatim, the
//! rewritten document is serialized, and the descriptor line is assembled
//! from the recorded bind endpoint and the located executable. Each stage
//! returns a typed error; nothing here performs I/O — the network fetch, the
//! config-file write and the locate/install subprocesses live with the
//! caller, which hands their outcomes in as plain values.

pub mod descriptor;
pub mod errors;
pub mod jsonval;
pub mod render;
pub mod strutil;
pub mod subscription;
pub mod transform;
pub mod urlcheck;
