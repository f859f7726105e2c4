//! Core logic for a turn-based strategy prototype on a hexagonal board:
//! cube coordinates, pixel-grid mapping with nearest-hex rounding, board
//! generation with weighted resource draws, move-range computation, and the
//! hover/selection state machine.

pub mod board;
pub mod hex;
pub mod move_range;
pub mod pixel;
pub mod rng;
pub mod selection;
