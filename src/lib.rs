//! Supervision of long-running analysis jobs: progress-line parsing, the
//! mapping of the flat job description into the runner's nested form, choice
//! of the execution backend, the single-slot process supervisor and the setup
//! pipeline; with the smaller rules around them (data previews, plot order,
//! presets, evidence downloads, error reports).
pub mod text;
pub mod progress;
pub mod json;
pub mod translate;
pub mod error;
pub mod supervisor;
pub mod backend;
pub mod docker;
pub mod setup;
pub mod plots;
pub mod clock;
pub mod csvinfo;
pub mod runtime;
pub mod validate;
pub mod evidence;
pub mod presets;
