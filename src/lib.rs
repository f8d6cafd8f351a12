//! Verified logic of a sphere-scene path tracer: the integer render
//! settings with their defaults and validation, the bounce decisions of the
//! radiance evaluator, and the text of an image's aspect ratio.
pub mod aspect;
pub mod radiance;
pub mod sampling;
pub mod settings;
