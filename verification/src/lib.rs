//! Reads a self-describing binary payload out of a documentation-style
//! text block: a metadata line declares an encoding and a schema, a fenced
//! region carries the encoded bytes, and the bytes are interpreted by the
//! schema, as type-length-value frames or as a summary of raw bytes.
//!
//! `meta`, `payload`, `tlv`, `blob` and `block` are the reader; `text` and
//! `hex` are what it is stated in. Beside the reader stand three small
//! modules of plain decisions: `admission` decides on a node's transition,
//! `beliefs` keeps what an agent believes, and `sim` applies the actions
//! of a simulation tick.

pub mod admission;
pub mod beliefs;
pub mod blob;
pub mod block;
pub mod error;
pub mod hex;
pub mod meta;
pub mod payload;
pub mod sim;
pub mod text;
pub mod tlv;

pub use admission::{LedgerAnchor, PolicyDecision};
pub use beliefs::{AgentId, Belief, BeliefStrength};
pub use blob::RawBlobAst;
pub use block::{parse_bdl_block, parse_with_schema, Ast};
pub use error::BdlError;
pub use meta::{extract_meta, find_meta_json, BdlMeta};
pub use payload::extract_bytes;
pub use sim::{AgentAction, DecisionLogEntry, SimulationConfig, SimulationLog};
pub use tlv::{parse_example_tlv, TlvFrame, TlvSequenceAst};
