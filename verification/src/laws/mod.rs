//! What holds of the library as a whole: each law relates inputs to results in terms of its own,
//! so that it can be read without the definitions behind the results.

pub mod applying;
pub mod capabilities;
pub mod cgroup;
pub mod commands;
pub mod daemon;
pub mod events;
pub mod lines;
pub mod loading;
pub mod matching;
pub mod numbers;
pub mod order;
pub mod resolving;
pub mod scheduler;
pub mod settings;
pub mod text;
pub mod views;
