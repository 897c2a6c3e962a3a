//! Decks as they are stored: titles and card texts, with no cursor and no
//! card turned over.

use crate::models::deck::{Deck, DeckView};
use crate::models::flashcard::FlashCard;
use crate::stateful_list::{ListView, StatefulList};
use vstd::prelude::*;

verus! {

/// The two texts of a stored card.
#[derive(Debug)]
pub struct SerialisedCard {
    pub front: String,
    pub back: String,
}

/// A stored deck: its title and its cards in order.
#[derive(Debug)]
pub struct SerialisedDeck {
    pub title: String,
    pub cards: Vec<SerialisedCard>,
}

/// A stored collection of decks, in order.
#[derive(Debug)]
pub struct SerialisedDecks {
    pub decks: Vec<SerialisedDeck>,
}

impl SerialisedCard {
    /// The card that these texts make: face down.
    pub open spec fn card(self) -> FlashCard {
        FlashCard { flipped: false, front: self.front, back: self.back }
    }

    /// Makes the card, face down.
    pub fn into_card(self) -> (card: FlashCard)
        ensures
            card == self.card(),
    {
        FlashCard { flipped: false, front: self.front, back: self.back }
    }
}

impl SerialisedDeck {
    /// The deck that this title and these cards make: every card face down,
    /// the browsing cursor on the first card if there is one, study at the
    /// first card.
    pub open spec fn deck(self) -> DeckView {
        DeckView {
            title: self.title@,
            cards: ListView::with_items(
                self.cards@.map_values(|stored: SerialisedCard| stored.card()),
            ),
            study_cursor: 0,
        }
    }

    /// Makes the deck.
    pub fn into_deck(self) -> (deck: Deck)
        ensures
            deck@ == self.deck(),
            deck@.wf(),
    {
        let mut cards: Vec<FlashCard> = Vec::new();
        for stored in it: self.cards
            invariant
                it.seq() == self.cards@,
                cards@.len() == it.index(),
                forall|i: int| 0 <= i < cards@.len() ==> cards@[i] == self.cards@[i].card(),
        {
            cards.push(stored.into_card());
        }
        assert(cards@ =~= self.cards@.map_values(|stored: SerialisedCard| stored.card()));
        Deck { title: self.title, cards: StatefulList::with_items(cards), current_card: 0 }
    }
}

impl SerialisedDecks {
    /// The decks that this collection makes, in its order.
    pub open spec fn decks(self) -> Seq<DeckView> {
        self.decks@.map_values(|stored: SerialisedDeck| stored.deck())
    }

    /// Makes the decks.
    pub fn into_decks(self) -> (decks: Vec<Deck>)
        ensures
            Deck::views(decks@) == self.decks(),
            forall|i: int| 0 <= i < decks@.len() ==> (#[trigger] decks@[i])@.wf(),
    {
        let mut decks: Vec<Deck> = Vec::new();
        for stored in it: self.decks
            invariant
                it.seq() == self.decks@,
                decks@.len() == it.index(),
                forall|i: int| 0 <= i < decks@.len() ==> (#[trigger] decks@[i])@ == self.decks@[i].deck(),
                forall|i: int| 0 <= i < decks@.len() ==> (#[trigger] decks@[i])@.wf(),
        {
            decks.push(stored.into_deck());
        }
        decks
    }
}

} // verus!
