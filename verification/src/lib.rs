//! Simulation core for a scene-driven game client: action creation and
//! scheduling over pathfinder output, staged system jobs with barrier-gated
//! command-buffer merges, and render-batch construction from merged state.

pub mod action;
pub mod assoc;
pub mod command;
pub mod components;
pub mod job;
pub mod pathfind;
pub mod scene;
pub mod scheduler;
pub mod terrain;
