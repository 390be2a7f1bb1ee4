//! Decoding of ELF file headers and program header tables from a byte source.
//!
//! `bytes` reads fixed-width integers in either byte order; `layout` turns
//! fixed-size byte spans into typed records; `reader` drives it over a whole
//! byte source, doing all offset arithmetic with explicit checks; `laws` states
//! what follows for every source.
pub mod bytes;
pub mod layout;
pub mod reader;
pub mod laws;
