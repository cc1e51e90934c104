//! Parallel scanning of hash-table control words.
//!
//! An open-addressing hash table keeps one 16-bit control word per slot: the
//! high bit tells an occupied slot (high bit clear, low bits a cached hash
//! fragment) from a non-occupied one (high bit set, either `EMPTY` or
//! `DELETED`).  This crate scans a fixed window of sixteen such words at once
//! and answers, as a bitmask with one bit per lane, which slots are empty,
//! which are empty or tombstoned, which are occupied, and which hold a given
//! word exactly.
//!
//! Two interchangeable backends expose the same operations: a portable one
//! that walks the lanes with an explicit loop, and one that mirrors, lane by
//! lane, the semantics of a 256-bit vector unit (parallel compare, saturating
//! pack to eight bits, sign-bit extraction).  Both are verified against the
//! same lane-level specification, and proved to agree on every input.

pub mod bitmask;
pub mod control;
pub mod portable;
pub mod simd;
