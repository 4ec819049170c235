//! Linker-script `MEMORY` block construction.
//!
//! A [`MemorySection`] is a named address range with optional access
//! attributes and a page-size granularity; it can be shifted (`offset`),
//! annotated (`attrs`), and divided into equal, page-aligned slots (`slot`).
//! A [`Memory`] is an ordered collection of sections that renders as one
//! linker-script `MEMORY` block.  Human-friendly size expressions such as
//! `"4K + 0x10"` are normalized and evaluated by the `expr` module.

pub mod errors;
pub mod expr;
pub mod render;
pub mod layout;
pub mod parse;
pub mod section;

pub use errors::MemoryError;
pub use expr::apply_kilobyte;
pub use expr::parse_dec_or_hex;
pub use expr::parse_expr;
pub use layout::Memory;
pub use parse::parse_name_attrs;
pub use parse::parse_section;
pub use section::EnvConfig;
pub use section::MemorySection;
