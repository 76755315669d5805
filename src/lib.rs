//! A cellular-automaton engine: a dense grid of cells whose states index a
//! registry of state descriptors, with the neighbourhood queries and mutation
//! primitives that per-state rules use, and the scheduler that picks cells.

mod chance;
pub mod grid;
pub mod rule;
pub mod scheduler;
