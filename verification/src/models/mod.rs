//! The data that the application keeps between two commands.

pub mod app_state;
pub mod deck;
pub mod flashcard;
pub mod screen;
pub mod serialised_models;
