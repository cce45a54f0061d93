//! Sensors: where they are found and at what pace they are read.
pub mod audio;
pub mod camera;
pub mod discovery;
