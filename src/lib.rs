//! Sorting of media files into a `year/Month/day` hierarchy: date resolution,
//! destination planning, placement decisions and the outcome summary.

pub mod calendar;
pub mod placement;
pub mod planner;
pub mod report;
pub mod resolve;
pub mod summary;
pub mod text;

