//! Navigation and selection state for a terminal flashcard trainer.
//!
//! The crate holds the state that a front end drives: lists with a cursor,
//! cards that can be turned over, decks of such cards, the screen that is
//! showing, and the function that applies one command to all of it.

pub mod command;
pub mod models;
pub mod stateful_list;

pub use command::{Command, Key, Outcome};
pub use models::app_state::{AppState, AppView};
pub use models::deck::{Deck, DeckView};
pub use models::flashcard::FlashCard;
pub use models::screen::{Pane, Screen, Screens};
pub use models::serialised_models::{SerialisedCard, SerialisedDeck, SerialisedDecks};
pub use stateful_list::{ListChange, ListView, StatefulList};
