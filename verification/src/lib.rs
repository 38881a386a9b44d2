//! A dual-domain shader framework: one struct schema serves both as a
//! host-side value with a GPU-compatible byte layout and as a symbolic
//! shader-language value. Shader stages are built as expression graphs by
//! explicit builder calls; the code generator lowers a graph pair to shader
//! source text plus binding tables, and the layout subsystem guarantees that
//! host bytes and the generated struct layouts agree bit for bit.
//!
//! The modules, leaves first: [`ty`] names the scalar, vector, aggregate
//! and sampler types; [`schema`] registers struct schemas and resource
//! interfaces and fixes the packed byte layout; [`pod`] packs host values
//! into upload-ready bytes and proves the layout round trip; [`interface`]
//! flattens nested interfaces into dotted-path bindings; [`expr`] records
//! shader computations as an append-only expression graph; [`eval`] gives
//! graphs their host-domain meaning; [`text`] and [`codegen`] lower a
//! stage pair to shader source and binding tables; [`image`] and
//! [`buffer`] describe the data the host backend uploads.

pub mod ty;
pub mod schema;
pub mod pod;
pub mod interface;
pub mod expr;
pub mod eval;
pub mod text;
pub mod codegen;
pub mod image;
pub mod buffer;
