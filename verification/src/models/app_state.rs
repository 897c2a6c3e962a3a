//! The whole state of the application, and the commands that change it.

use crate::command::{Command, Outcome};
use crate::models::deck::{Deck, DeckView};
use crate::models::flashcard::FlashCard;
use crate::models::screen::{Pane, Screen, Screens};
use crate::models::serialised_models::SerialisedDecks;
use crate::stateful_list::{ListView, StatefulList};
use vstd::prelude::*;

verus! {

/// What the application state is: the decks with the cursor that marks one
/// of them, and the screen.
pub struct AppView {
    pub decks: ListView<DeckView>,
    pub screen: Screen,
}

impl AppView {
    /// The state at start-up over `decks`.
    pub open spec fn initial(decks: Seq<DeckView>) -> AppView {
        AppView { decks: ListView::with_items(decks), screen: Screen::initial() }
    }

    /// The selected deck, when the cursor stands on one.
    pub open spec fn selected_deck(self) -> Option<DeckView> {
        match self.decks.selected_index() {
            Some(d) => Some(self.decks.items[d as int]),
            None => None,
        }
    }

    /// Whether a deck is selected that has a card to study.
    pub open spec fn can_study(self) -> bool {
        match self.selected_deck() {
            Some(deck) => deck.cards.items.len() > 0,
            None => false,
        }
    }

    /// The card under study: the card of the selected deck that its study
    /// cursor stands on.
    pub open spec fn studied_card(self) -> Option<FlashCard> {
        match self.selected_deck() {
            Some(deck) if deck.study_cursor < deck.cards.items.len() => Some(
                deck.cards.items[deck.study_cursor as int],
            ),
            _ => None,
        }
    }

    /// The invariant of the application: the deck list and every deck keep
    /// theirs, and while a card is studied a deck with cards is selected.
    pub open spec fn wf(self) -> bool {
        &&& self.decks.wf()
        &&& forall|i: int|
            0 <= i < self.decks.items.len() ==> (#[trigger] self.decks.items[i]).wf()
        &&& self.screen.screen_type == Screens::FlashCardView ==> self.can_study()
    }

    /// This state with another deck list.
    pub open spec fn with_decks(self, decks: ListView<DeckView>) -> AppView {
        AppView { decks, screen: self.screen }
    }

    /// This state with another screen.
    pub open spec fn with_screen(self, screen: Screen) -> AppView {
        AppView { decks: self.decks, screen }
    }

    /// This state with `deck` in the place of the selected deck; this state
    /// itself when no deck is selected.
    pub open spec fn with_selected_deck(self, deck: DeckView) -> AppView {
        match self.decks.selected_index() {
            Some(d) => self.with_decks(
                ListView { items: self.decks.items.update(d as int, deck), cursor: self.decks.cursor },
            ),
            None => self,
        }
    }

    /// What the user's confirmation of the selected deck leads to: with
    /// cards in it, all its cards are laid face down and study begins; with
    /// none, or with no deck selected, nothing happens.
    pub open spec fn enter_study(self) -> AppView {
        match self.selected_deck() {
            Some(deck) if deck.cards.items.len() > 0 => self.with_selected_deck(
                deck.hide_all(),
            ).with_screen(self.screen.showing(Screens::FlashCardView)),
            _ => self,
        }
    }

    /// The state after `command` on the deck screen.
    ///
    /// Moving and deleting act on the list that has the focus, turning a
    /// card over on the selected card of the card list, confirming on the
    /// deck list. A command that finds nothing selected to act on changes
    /// nothing, and neither do the commands that belong to study.
    pub open spec fn browse(self, command: Command) -> AppView {
        match (command, self.screen.current_window) {
            (Command::MoveUp, Pane::Decks) => self.with_decks(self.decks.retreat()),
            (Command::MoveDown, Pane::Decks) => self.with_decks(self.decks.advance()),
            (Command::MoveUp, Pane::Cards) => match self.selected_deck() {
                Some(deck) => self.with_selected_deck(deck.with_cards(deck.cards.retreat())),
                None => self,
            },
            (Command::MoveDown, Pane::Cards) => match self.selected_deck() {
                Some(deck) => self.with_selected_deck(deck.with_cards(deck.cards.advance())),
                None => self,
            },
            (Command::TogglePane, _) => self.with_screen(self.screen.refocused()),
            (Command::Select, Pane::Decks) => self.enter_study(),
            (Command::Delete, Pane::Decks) => match self.decks.selected_index() {
                Some(d) => self.with_decks(self.decks.delete(d as int)),
                None => self,
            },
            (Command::Delete, Pane::Cards) => match self.selected_deck() {
                Some(deck) => match deck.cards.selected_index() {
                    Some(c) => self.with_selected_deck(deck.delete_card(c as int)),
                    None => self,
                },
                None => self,
            },
            (Command::Flip, Pane::Cards) => match self.selected_deck() {
                Some(deck) => match deck.cards.selected_index() {
                    Some(c) => self.with_selected_deck(deck.flip_card(c as int)),
                    None => self,
                },
                None => self,
            },
            _ => self,
        }
    }

    /// The state after `command` while a card is studied, for every command
    /// but `Shuffle`, whose result no function gives (see `steps_to`).
    ///
    /// Left and right move study within the selected deck, turning over
    /// acts on the card under study. A command that finds no such deck or
    /// card changes nothing, and neither do the commands of the deck screen.
    pub open spec fn study(self, command: Command) -> AppView {
        match command {
            Command::ReturnToBrowse => self.with_screen(self.screen.showing(Screens::DecksView)),
            Command::MoveRight => match self.selected_deck() {
                Some(deck) => self.with_selected_deck(deck.advance_study()),
                None => self,
            },
            Command::MoveLeft => match self.selected_deck() {
                Some(deck) => self.with_selected_deck(deck.retreat_study()),
                None => self,
            },
            Command::Flip => match self.selected_deck() {
                Some(deck) if deck.study_cursor < deck.cards.items.len() => self.with_selected_deck(
                    deck.flip_card(deck.study_cursor as int),
                ),
                _ => self,
            },
            _ => self,
        }
    }

    /// The state after `command`, for every command whose result the state
    /// determines. `Quit` changes nothing.
    pub open spec fn step(self, command: Command) -> AppView {
        match self.screen.screen_type {
            Screens::DecksView => self.browse(command),
            Screens::FlashCardView => self.study(command),
        }
    }

    /// Whether `next` is a state that `command` may lead to from this one.
    ///
    /// Shuffling while a card is studied leads to any state that differs
    /// only in the order of the selected deck's cards. Everything else
    /// leads to `step(command)` and nowhere else.
    pub open spec fn steps_to(self, command: Command, next: AppView) -> bool {
        if command == Command::Shuffle && self.screen.screen_type == Screens::FlashCardView {
            match self.decks.selected_index() {
                Some(d) => {
                    &&& next == self.with_selected_deck(next.decks.items[d as int])
                    &&& next.decks.items[d as int].rearranges(self.decks.items[d as int])
                },
                None => next == self,
            }
        } else {
            next == self.step(command)
        }
    }

    /// Every command keeps the invariant of the application.
    pub proof fn law_steps_keep_wf(self, command: Command, next: AppView)
        requires
            self.wf(),
            self.steps_to(command, next),
        ensures
            next.wf(),
    {
    }

    /// Study begins only by confirming a selected deck that has cards, and
    /// it begins with every card of that deck face down, however the cards
    /// lay before.
    pub proof fn law_study_begins_face_down(self, command: Command)
        requires
            self.screen.screen_type == Screens::DecksView,
            self.step(command).screen.screen_type == Screens::FlashCardView,
        ensures
            command == Command::Select,
            self.screen.current_window == Pane::Decks,
            self.can_study(),
            self.step(command).decks.cursor == self.decks.cursor,
            self.step(command).selected_deck() == Some(self.selected_deck().unwrap().hide_all()),
            self.step(command).selected_deck().unwrap().all_face_down(),
    {
    }

    /// While a card is studied no command selects another deck, adds or
    /// removes one, or moves the focus; and only the return to the deck
    /// screen ends study, which it always does.
    pub proof fn law_study_stays_with_deck(self, command: Command, next: AppView)
        requires
            self.screen.screen_type == Screens::FlashCardView,
            self.steps_to(command, next),
        ensures
            next.decks.cursor == self.decks.cursor,
            next.decks.items.len() == self.decks.items.len(),
            next.screen.current_window == self.screen.current_window,
            next.screen.screen_type == Screens::DecksView <==> command == Command::ReturnToBrowse,
            command == Command::ReturnToBrowse ==> next.decks == self.decks,
    {
    }

    /// Giving the focus away twice on the deck screen brings the state back.
    pub proof fn law_toggle_twice(self)
        requires
            self.screen.screen_type == Screens::DecksView,
        ensures
            self.step(Command::TogglePane).step(Command::TogglePane) == self,
            self.step(Command::TogglePane).screen.current_window != self.screen.current_window,
    {
    }

    /// Confirming a deck without cards, or no deck at all, changes nothing:
    /// the deck screen stays.
    pub proof fn law_no_study_without_cards(self)
        requires
            self.screen.screen_type == Screens::DecksView,
            !self.can_study(),
        ensures
            self.step(Command::Select) == self,
    {
    }
}

/// The state that every command acts on.
#[derive(Debug)]
pub struct AppState {
    pub decks: StatefulList<Deck>,
    pub current_screen: Screen,
}

impl View for AppState {
    type V = AppView;

    open spec fn view(&self) -> AppView {
        AppView {
            decks: ListView {
                items: Deck::views(self.decks.items@),
                cursor: self.decks@.cursor,
            },
            screen: self.current_screen,
        }
    }
}

impl Default for AppState {
    /// The state without any deck.
    fn default() -> (state: AppState)
        ensures
            state@ == AppView::initial(Seq::empty()),
            state@.wf(),
    {
        let decks: Vec<Deck> = Vec::new();
        assert(Deck::views(decks@) =~= Seq::empty());
        AppState::new(decks)
    }
}

impl AppState {
    /// Makes the state at start-up: the cursor on the first deck, the deck
    /// screen showing, the focus on the deck list.
    pub fn new(decks: Vec<Deck>) -> (state: AppState)
        ensures
            state@ == AppView::initial(Deck::views(decks@)),
            (forall|i: int| 0 <= i < decks@.len() ==> (#[trigger] decks@[i])@.wf()) ==> state@.wf(),
    {
        AppState {
            decks: StatefulList::with_items(decks),
            current_screen: Screen { screen_type: Screens::DecksView, current_window: Pane::Decks },
        }
    }

    /// Makes the state at start-up from what was stored. Where nothing was
    /// stored, or nothing that could be read, the state has no decks.
    pub fn from_stored(stored: Option<SerialisedDecks>) -> (state: AppState)
        ensures
            stored matches Some(decks) ==> state@ == AppView::initial(decks.decks()),
            stored is None ==> state@ == AppView::initial(Seq::empty()),
            state@.wf(),
    {
        match stored {
            Some(decks) => AppState::new(decks.into_decks()),
            None => AppState::default(),
        }
    }

    /// The selected deck, when the cursor stands on one.
    pub fn selected_deck(&self) -> (deck: Option<&Deck>)
        ensures
            deck matches Some(deck) ==> self@.selected_deck() == Some(deck@),
            deck is None ==> self@.selected_deck() is None,
    {
        match self.decks.selected_index() {
            Some(d) => Some(&self.decks.items[d]),
            None => None,
        }
    }

    /// The card under study, when the selected deck has one at its study
    /// cursor.
    pub fn studied_card(&self) -> (card: Option<&FlashCard>)
        ensures
            card matches Some(card) ==> self@.studied_card() == Some(*card),
            card is None ==> self@.studied_card() is None,
    {
        match self.selected_deck() {
            Some(deck) => if deck.current_card < deck.cards.items.len() {
                Some(&deck.cards.items[deck.current_card])
            } else {
                None
            },
            None => None,
        }
    }

    /// Applies `command` to the state and says whether to go on.
    pub fn dispatch(&mut self, command: Command) -> (outcome: Outcome)
        ensures
            old(self)@.steps_to(command, final(self)@),
            outcome == Outcome::Quit <==> command == Command::Quit,
            old(self)@.wf() ==> final(self)@.wf(),
            command == Command::Select && !old(self)@.can_study() ==> final(self)@ == old(self)@,
            old(self)@.screen.screen_type == Screens::DecksView && final(self)@.screen.screen_type
                == Screens::FlashCardView ==> final(self)@.can_study(),
            old(self)@.screen.screen_type == Screens::DecksView && final(self)@.screen.screen_type
                == Screens::FlashCardView ==> final(self)@.selected_deck().unwrap().all_face_down(),
    {
        match self.current_screen.screen_type {
            Screens::DecksView => self.browse(command),
            Screens::FlashCardView => self.study(command),
        }
        proof {
            if old(self)@.wf() {
                old(self)@.law_steps_keep_wf(command, self@);
            }
        }
        match command {
            Command::Quit => Outcome::Quit,
            _ => Outcome::Continue,
        }
    }

    /// Applies `command` on the deck screen.
    fn browse(&mut self, command: Command)
        requires
            old(self).current_screen.screen_type == Screens::DecksView,
        ensures
            final(self)@ == old(self)@.browse(command),
    {
        let pane = self.current_screen.current_window;
        match (command, pane) {
            (Command::MoveUp, Pane::Decks) => {
                self.decks.previous();
            },
            (Command::MoveDown, Pane::Decks) => {
                self.decks.next();
            },
            (Command::MoveUp, Pane::Cards) => {
                if let Some(d) = self.decks.selected_index() {
                    self.decks.items[d].cards.previous();
                    proof {
                        Self::lemma_selected_deck_replaced(*old(self), *self, d as int);
                    }
                }
            },
            (Command::MoveDown, Pane::Cards) => {
                if let Some(d) = self.decks.selected_index() {
                    self.decks.items[d].cards.next();
                    proof {
                        Self::lemma_selected_deck_replaced(*old(self), *self, d as int);
                    }
                }
            },
            (Command::TogglePane, _) => {
                self.current_screen.current_window = pane.next();
            },
            (Command::Select, Pane::Decks) => {
                if let Some(d) = self.decks.selected_index() {
                    if !self.decks.items[d].cards.items.is_empty() {
                        self.decks.items[d].hide_all();
                        self.current_screen.screen_type = Screens::FlashCardView;
                        proof {
                            let shown = AppState {
                                decks: self.decks,
                                current_screen: old(self).current_screen,
                            };
                            Self::lemma_selected_deck_replaced(*old(self), shown, d as int);
                        }
                    }
                }
            },
            (Command::Delete, Pane::Decks) => {
                if let Some(d) = self.decks.selected_index() {
                    self.decks.delete(d);
                    assert(self@.decks.items =~= old(self)@.decks.items.remove(d as int));
                }
            },
            (Command::Delete, Pane::Cards) => {
                if let Some(d) = self.decks.selected_index() {
                    if let Some(c) = self.decks.items[d].cards.selected_index() {
                        self.decks.items[d].delete_card(c);
                        proof {
                            Self::lemma_selected_deck_replaced(*old(self), *self, d as int);
                        }
                    }
                }
            },
            (Command::Flip, Pane::Cards) => {
                if let Some(d) = self.decks.selected_index() {
                    if let Some(c) = self.decks.items[d].cards.selected_index() {
                        self.decks.items[d].flip_card(c);
                        proof {
                            Self::lemma_selected_deck_replaced(*old(self), *self, d as int);
                        }
                    }
                }
            },
            _ => {},
        }
    }

    /// Applies `command` while a card is studied.
    fn study(&mut self, command: Command)
        requires
            old(self).current_screen.screen_type == Screens::FlashCardView,
        ensures
            old(self)@.steps_to(command, final(self)@),
    {
        match command {
            Command::ReturnToBrowse => {
                self.current_screen.screen_type = Screens::DecksView;
            },
            Command::MoveRight => {
                if let Some(d) = self.decks.selected_index() {
                    if !self.decks.items[d].cards.items.is_empty() {
                        self.decks.items[d].next();
                    }
                    proof {
                        Self::lemma_selected_deck_replaced(*old(self), *self, d as int);
                    }
                }
            },
            Command::MoveLeft => {
                if let Some(d) = self.decks.selected_index() {
                    self.decks.items[d].previous();
                    proof {
                        Self::lemma_selected_deck_replaced(*old(self), *self, d as int);
                    }
                }
            },
            Command::Flip => {
                if let Some(d) = self.decks.selected_index() {
                    let c: usize = self.decks.items[d].current_card;
                    if c < self.decks.items[d].cards.items.len() {
                        self.decks.items[d].flip_card(c);
                        proof {
                            Self::lemma_selected_deck_replaced(*old(self), *self, d as int);
                        }
                    }
                }
            },
            Command::Shuffle => {
                if let Some(d) = self.decks.selected_index() {
                    let _shuffled = self.decks.items[d].shuffle();
                    proof {
                        Self::lemma_selected_deck_replaced(*old(self), *self, d as int);
                    }
                }
            },
            _ => {},
        }
    }

    /// A state that differs from `before` in the selected deck alone is
    /// `before` with that deck replaced.
    proof fn lemma_selected_deck_replaced(before: AppState, after: AppState, d: int)
        requires
            0 <= d,
            before.decks@.selected_index() == Some(d as nat),
            after.decks.cursor == before.decks.cursor,
            after.current_screen == before.current_screen,
            after.decks.items@ =~= before.decks.items@.update(d, after.decks.items@[d]),
        ensures
            before@.selected_deck() == Some(before.decks.items@[d]@),
            after@ == before@.with_selected_deck(after.decks.items@[d]@),
    {
        assert(after@.decks.items =~= before@.decks.items.update(d, after.decks.items@[d]@));
    }
}

} // verus!
