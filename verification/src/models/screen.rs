//! Which screen is showing and, on the deck screen, which list takes the keys.

use vstd::prelude::*;

verus! {

/// The two screens of the application.
#[derive(Clone, Copy, Debug, PartialEq, Eq, Structural)]
pub enum Screens {
    /// The deck list beside the card list of the selected deck.
    DecksView,
    /// One card of the selected deck at a time.
    FlashCardView,
}

/// The two lists of the deck screen.
#[derive(Clone, Copy, Debug, PartialEq, Eq, Structural)]
pub enum Pane {
    /// The list of decks.
    Decks,
    /// The list of the selected deck's cards.
    Cards,
}

impl Pane {
    /// The pane that this one is not.
    pub open spec fn other(self) -> Pane {
        match self {
            Pane::Decks => Pane::Cards,
            Pane::Cards => Pane::Decks,
        }
    }

    /// The pane that the focus moves to from this one.
    pub fn next(self) -> (pane: Pane)
        ensures
            pane == self.other(),
    {
        match self {
            Pane::Decks => Pane::Cards,
            Pane::Cards => Pane::Decks,
        }
    }

    /// Moving the focus twice brings it back.
    pub proof fn law_other_twice(self)
        ensures
            self.other().other() == self,
            self.other() != self,
    {
    }
}

/// The screen that is showing, and the pane that has the focus while the
/// deck screen shows. The pane is kept, unused, while a card is studied.
#[derive(Clone, Copy, Debug, PartialEq, Eq, Structural)]
pub struct Screen {
    pub screen_type: Screens,
    pub current_window: Pane,
}

impl Screen {
    /// The screen at start-up: the deck screen with the focus on the deck list.
    pub open spec fn initial() -> Screen {
        Screen { screen_type: Screens::DecksView, current_window: Pane::Decks }
    }

    /// This screen with another view showing.
    pub open spec fn showing(self, screen_type: Screens) -> Screen {
        Screen { screen_type, current_window: self.current_window }
    }

    /// This screen with the focus on the other pane.
    pub open spec fn refocused(self) -> Screen {
        Screen { screen_type: self.screen_type, current_window: self.current_window.other() }
    }
}

} // verus!
