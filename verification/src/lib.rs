//! A verified core for a pair of filesystem utilities: a disk-usage
//! aggregator and a parallel remover. The traversal engine, its size and
//! deletion policies, the size-string parser and the human-readable size
//! formatter live here; the thin process front ends (argument handling,
//! the actual filesystem calls, the thread pool) sit outside the library.

pub mod diag;
pub mod rm_policy;
pub mod size_policy;
pub mod size_unit;
pub mod traverse;
pub mod work_entry;
