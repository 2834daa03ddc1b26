//! Meal-planning core: named stages with lead-times, courses that collect
//! them, and the scheduling transforms that turn lead-times into an ordered
//! countdown a cook can follow step by step.

pub mod course;
pub mod duration;
pub mod schedule;
pub mod stage;
