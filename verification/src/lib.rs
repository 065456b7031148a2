//! Referee library for a two-player grid battle game.
//!
//! Each participant places a fixed fleet of ships on a 10x10 grid and submits
//! it as ten lines of text.  The library validates the placement, resolves
//! shots into miss/hit/sunk with elimination accounting, parses the shot lines
//! of the turn protocol, and decides the turn state machine.  All process
//! handling and stream I/O lives outside the library; it hands lines in and
//! takes plain values back.

use vstd::prelude::*;

pub mod board;
pub mod cells;
pub mod position;
pub mod referee;

verus! {

/// Rejection of participant-supplied text: a malformed grid, an invalid fleet
/// placement, or an unparsable shot line.  The distinctions matter only for
/// diagnostics, so a single kind covers them all.
#[derive(Debug, Copy, Clone, PartialEq, Eq, Structural)]
pub struct InvalidInputError;

} // verus!
