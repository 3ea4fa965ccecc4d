//! Klok: the logic of a smartwatch firmware that shows the time, and of the
//! tool that derives its battery reference curves from measurement logs.

pub mod battery;
pub mod measurement;
pub mod log_file;
pub mod graph;
pub mod geometry;
pub mod battery_icon;
pub mod drawable_utils;
pub mod font;
pub mod watchface;
pub mod clock;
