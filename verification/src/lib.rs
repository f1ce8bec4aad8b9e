//! Decision and text logic of a desktop side panel: hot-corner detection,
//! window docking, launcher entries, media source selection and the
//! credential vault bookkeeping.
pub mod text;
pub mod hot_corner;
pub mod window;
pub mod placement;
pub mod media;
pub mod sources;
pub mod launcher;
pub mod secrets;
pub mod settings;
