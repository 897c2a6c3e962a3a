//! A card with two sides, one of which faces up.

use vstd::prelude::*;

verus! {

/// A study card. `flipped` says whether the back is showing.
#[derive(Debug, PartialEq, Eq)]
pub struct FlashCard {
    pub flipped: bool,
    pub front: String,
    pub back: String,
}

impl Clone for FlashCard {
    /// A second card with the same texts, the same side up.
    fn clone(&self) -> (card: FlashCard)
        ensures
            card == *self,
    {
        FlashCard { flipped: self.flipped, front: self.front.clone(), back: self.back.clone() }
    }
}

impl Default for FlashCard {
    /// A blank card, face down.
    fn default() -> (card: FlashCard)
        ensures
            !card.flipped,
            card.front@ == Seq::<char>::empty(),
            card.back@ == Seq::<char>::empty(),
    {
        FlashCard { flipped: false, front: String::new(), back: String::new() }
    }
}

impl FlashCard {
    /// The card turned over: the same texts, the other side up.
    pub open spec fn turned(self) -> FlashCard {
        FlashCard { flipped: !self.flipped, front: self.front, back: self.back }
    }

    /// The card face down: the same texts, the front showing.
    pub open spec fn hidden(self) -> FlashCard {
        FlashCard { flipped: false, front: self.front, back: self.back }
    }

    /// The text that lies face up.
    pub open spec fn face_up(self) -> String {
        if self.flipped {
            self.back
        } else {
            self.front
        }
    }

    /// The text of the side that is showing.
    pub fn face(&self) -> (text: &String)
        ensures
            *text == self.face_up(),
    {
        if self.flipped {
            &self.back
        } else {
            &self.front
        }
    }

    /// Turns the card over.
    pub fn flip(&mut self)
        ensures
            *final(self) == old(self).turned(),
    {
        self.flipped = !self.flipped;
    }

    /// Turning a card over twice gives the card back as it was.
    pub proof fn law_turned_twice(card: FlashCard)
        ensures
            card.turned().turned() == card,
    {
    }
}

} // verus!
