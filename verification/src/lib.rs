//! A deterministic rules engine for a two-player deck-building card game.
//!
//! The crate models the effect algebra that describes what a card can do
//! (`util::Join`), the per-card effect data (`details`), the shared card
//! catalog (`card_library`), the per-player zones (`game::PlayerArea`) and the
//! turn state machine (`game::GameState::advance`), together with the narrow
//! client protocol through which an external decision-maker resolves choices.

pub mod actions;
pub mod active_card;
pub mod card;
pub mod card_library;
pub mod client_comms;
pub mod components;
pub mod game;
pub mod details;
pub mod effects;
pub mod in_game;
pub mod parse;
pub mod requirements;
pub mod resources;
pub mod text;
pub mod faction;
mod rng;
pub mod stack;
pub mod util;
