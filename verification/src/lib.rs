//! Track-state engine of a local video editor: where a workspace keeps its
//! files, what the transcoding engine is asked to do, and what each editing
//! command does to the clips on the track.

pub mod clock;
pub mod text;
pub mod paths;
pub mod engine;
pub mod probe;
pub mod steps;
pub mod memory;
pub mod workspace;
pub mod track;
pub mod synthesis;
