//! Autonomous agents in a tick-based voxel simulation: the queue of actions each
//! agent works through, the resumable route search behind its longer moves, and
//! the director that hands out goals, by itself or on the word of a
//! language-model service.
//!
//! A tick never changes what it reads. Every function here takes the entities
//! and the world as they stood when the tick began and puts events into
//! [`game_entity::Tunnels`]; whoever runs the simulation commits them before
//! the next tick, each with its `apply_to_component`. The contracts say, for
//! every input, exactly which events those are; where an answer of the
//! service is read, they say so for whatever the markup parser makes of it.
//!
//! Lengths, speeds and tolerances are held as whole thousandths of a voxel, so
//! every comparison the agents make is exact integer arithmetic.
//!
//! - [`actions`] and [`perform`]: actions, their timers, and one tick of an
//!   action and of a queue.
//! - [`pathfinding`] and [`planner`]: the search for a way over walkable
//!   voxels, the plans that bind a search to an action, and the planner's
//!   tick.
//! - [`director`], [`director_tick`] and the `llm_` modules: directors, the
//!   requests of a language-model director, and what it makes of the answers.
//! - [`commands`], [`lexing`] and [`markup`]: the commands an answer may give.
//! - [`tick`]: the two parts of an agent's tick.
//! - [`game_map`], [`voxel`], [`entity`] and [`game_entity`]: the world and the
//!   entities as a tick sees them.
//! - [`geometry`], [`fixed`] and [`text`]: positions, integer square roots and
//!   decimal numbers.
//! - [`cutscene`], [`game_tasks`], [`game_tiles`] and [`tile_editor`]: the
//!   clocks of cutscenes and a few plain types of the game around the agents.

pub mod fixed;
pub mod text;
pub mod lexing;
pub mod commands;
pub mod markup;
pub mod geometry;
pub mod voxel;
pub mod game_map;
pub mod entity;
pub mod pathfinding;
pub mod actions;
pub mod planner;
pub mod proxima_link;
pub mod llm_director;
pub mod llm_commands;
pub mod llm_responses;
pub mod llm_prompt;
pub mod director;
pub mod game_entity;
pub mod perform;
pub mod director_tick;
pub mod tick;
pub mod cutscene;
pub mod game_tasks;
pub mod game_tiles;
pub mod tile_editor;
