//! Tensor Tycoon: a board game about AI models, with a verified rules engine.
pub mod catalog;
pub mod decimal;
pub mod rng;
pub mod strings;
pub mod state;
pub mod sums;
pub mod auction;
pub mod settlement;
pub mod queries;
pub mod turn;
pub mod market;
pub mod ending;
pub mod setup;
pub mod play;
pub mod bots;
pub mod text;
pub mod saves;
pub mod startup;
pub mod layout;
pub mod playable;
pub mod laws;
pub mod commands;
pub mod view;
pub mod interface;
