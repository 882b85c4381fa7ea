//! Neuroevolution of a snake-playing agent: the grid world and its tick, the
//! agent's senses, exact fitness, stable ranking, fitness-proportionate
//! selection, and the bookkeeping of a training run.

pub mod grid;
pub mod random;
pub mod snake;
pub mod senses;
pub mod game;
pub mod fitness;
pub mod selection;
pub mod brain;
pub mod population;
pub mod training;
