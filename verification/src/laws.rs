//! What holds of the library as a whole: how the results of its operations
//! relate to what they were given and to one another.

pub mod bots;
pub mod complaints;
pub mod display;
pub mod exports;
pub mod gate;
pub mod handoffs;
pub mod jobs;
pub mod mentions;
pub mod menus;
pub mod messages;
pub mod modes;
pub mod options;
pub mod reads;
pub mod requests;
pub mod schedule;
pub mod sessions;
pub mod settings;
pub mod turns;
pub mod wizard;
