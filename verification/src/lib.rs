//! Pattern-based integrity testing of a byte-addressable region that is
//! reachable through two independent memory mappings.
//!
//! The region is filled with a pattern that is a function of the address
//! alone ([`pattern`], [`unit`]), then read back in several passes. The first
//! unit that reads wrong ends the run: it and the units behind it are read
//! again through both mappings, before and after a sweep over the opposite
//! half of the region, and what the reads show is named by two truth tables
//! ([`classify`], [`window`]).
//!
//! The storage may change under the mappings at any time, so nothing is
//! assumed of what a read returns ([`region`]). What a run does is stated over
//! the accesses that it makes, in order, and over the values that came back
//! ([`trace`], [`run`]). What it found is kept in a [`context`] and reported
//! as values and as text ([`report`], [`text`]).

pub mod classify;
pub mod context;
pub mod pattern;
pub mod region;
pub mod report;
pub mod run;
pub mod text;
pub mod trace;
pub mod unit;
pub mod window;
