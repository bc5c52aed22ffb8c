//! How long the steps of a cutscene have run: counted in ticks, or measured
//! on the clock.

pub mod clock;
pub mod camera_movement;
pub mod cutscene_gui;
pub mod cutscene_shader;
pub mod entity_movement;
