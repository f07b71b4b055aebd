//! Code generation and dispatch for a static binary translator.
//!
//! The input is a program cut into basic blocks, each a routine of generic operations
//! with the address it came from. The output is a module in a structured stack-machine
//! format, which has no jump to a computed target: control passes from block to block
//! through one dispatch loop, which looks the next block up in a table.
//!
//! - [`ir`]: the input.
//! - [`dispatch_table`]: the table from addresses to blocks.
//! - [`dispatch`]: the instructions of the dispatch routine.
//! - [`transcode`]: the instructions of a block routine.
//! - [`wasm_builder`]: the module, section by section; [`layout`] says what it holds.
//! - [`behaviour`]: what the dispatch routine does when it runs, over the model in
//!   [`machine`].
//! - [`ops`], [`code`], [`format`], [`leb128`]: instructions, function bodies and the
//!   byte layout of the format.
//! - [`encoder`]: the encoder crate that the bytes come from, and what is taken on trust
//!   about it.

pub mod behaviour;
pub mod code;
pub mod dispatch;
pub mod dispatch_table;
pub mod encoder;
pub mod error;
pub mod format;
pub mod ir;
pub mod layout;
pub mod leb128;
pub mod machine;
pub mod ops;
pub mod transcode;
pub mod wasm_builder;
