//! Frame Motion Studio: the verified core of a desktop tool that composites the
//! moving parts of a video's frames into one still image.
//!
//! The library holds the decisions of the tool: the composite parameters and their
//! presets, which frames are sampled and how far the run has progressed, how the
//! video's properties are shown, how output paths are named, and the state machine
//! of the application window. Reading video frames, image processing, dialogs and
//! drawing belong to the program around it.
pub mod text;

pub mod float_text;

pub mod paths;

pub mod composite;

pub mod video;

pub mod app;








