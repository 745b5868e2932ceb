//! Ownership-based memory management: exporting a region of local memory,
//! describing it in a portable record, importing that record on a peer node,
//! and tearing both sides down again.
pub mod desc;
pub mod flags;
pub mod lifecycle;
pub mod ops;
pub mod flag_text;
