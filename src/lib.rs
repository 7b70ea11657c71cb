//! Parsing and lowering of annotated stream-parallel pipelines.
//!
//! A block of code is annotated with the variables it takes and hands back,
//! and split into `STAGE`s, each of which may be replicated into a pool of
//! workers:
//!
//! ```text
//! INPUT(v: Vec<u32>), OUTPUT(r: u32), {
//!     for chunk in v.chunks(10) {
//!         let c = chunk.to_vec();
//!         STAGE(INPUT(c: Vec<u32>), OUTPUT(c: Vec<u32>), REPLICATE = 4, { c.sort(); });
//!         STAGE(INPUT(c: Vec<u32>), { print(c); });
//!     }
//! }
//! ```
//!
//! - [`token`]: the flat token buffer that both phases read and write.
//! - [`spar_stream`]: the structural parser, from tokens to a
//!   [`spar_stream::SparStream`], with its grammar as spec functions.
//! - [`codegen`]: the lowering engine, from a stream to the tokens of a block
//!   that builds and runs the pipeline.
//! - [`backend`]: code for channels between stages and their endpoints.
//! - [`decimal`]: decimal numerals, read and written.
pub mod backend;
pub mod codegen;
pub mod decimal;
pub mod spar_stream;
pub mod token;
