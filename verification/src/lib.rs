//! Verified planning and validation core of the `.tet` tensor query engine.
use vstd::prelude::*;

pub mod budget;
pub mod chunk_decode;
pub mod dense_visit;
pub mod device;
pub mod dispatch;
pub mod document;
pub mod document_wire;
pub mod float_bits;
pub mod history;
pub mod fold_policy;
pub mod indexing;
pub mod info;
pub mod info_report;
pub mod json;
pub mod linear_scan;
pub mod partial_geometry;
pub mod preview_text;
pub mod query_output;
pub mod reduction;
pub mod response;
pub mod spill_policy;
pub mod types;
pub mod wire_encode;
pub mod wire_keys;
pub mod text;

verus! {
} // verus!
