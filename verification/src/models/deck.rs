//! A titled deck of cards, browsed with one cursor and studied with another.

use crate::models::flashcard::FlashCard;
use crate::stateful_list::{ListView, StatefulList};
use rand::rngs::{OsRng, StdRng};
use rand::{RngCore, SeedableRng};
use shuffle::fy::FisherYates;
use shuffle::shuffler::Shuffler;
use vstd::prelude::*;

verus! {

/// What a deck is: a title, the cards with the cursor that browsing moves,
/// and the position of the card under study.
pub struct DeckView {
    pub title: Seq<char>,
    pub cards: ListView<FlashCard>,
    pub study_cursor: nat,
}

impl DeckView {
    /// The deck invariant: the card list keeps the selection invariant, and
    /// the card under study is a card of the deck whenever the deck has cards.
    pub open spec fn wf(self) -> bool {
        &&& self.cards.wf()
        &&& self.cards.items.len() > 0 ==> self.study_cursor < self.cards.items.len()
    }

    /// The deck with other cards.
    pub open spec fn with_cards(self, cards: ListView<FlashCard>) -> DeckView {
        DeckView { title: self.title, cards, study_cursor: self.study_cursor }
    }

    /// The deck with another card under study.
    pub open spec fn studying(self, study_cursor: nat) -> DeckView {
        DeckView { title: self.title, cards: self.cards, study_cursor }
    }

    /// Study moves to the following card, unless the last one is under study.
    pub open spec fn advance_study(self) -> DeckView {
        if self.study_cursor + 1 < self.cards.items.len() {
            self.studying(self.study_cursor + 1)
        } else {
            self
        }
    }

    /// Study moves to the card before, unless the first one is under study.
    pub open spec fn retreat_study(self) -> DeckView {
        if self.study_cursor != 0 {
            self.studying((self.study_cursor - 1) as nat)
        } else {
            self
        }
    }

    /// Whether every card lies face down.
    pub open spec fn all_face_down(self) -> bool {
        forall|i: int| 0 <= i < self.cards.items.len() ==> !(#[trigger] self.cards.items[i]).flipped
    }

    /// Every card lies face down; nothing else differs.
    pub open spec fn hide_all(self) -> DeckView {
        self.with_cards(
            ListView {
                items: self.cards.items.map_values(|card: FlashCard| card.hidden()),
                cursor: self.cards.cursor,
            },
        )
    }

    /// The card at `index` lies the other side up; nothing else differs.
    pub open spec fn flip_card(self, index: int) -> DeckView
        recommends
            0 <= index < self.cards.items.len(),
    {
        self.with_cards(
            ListView {
                items: self.cards.items.update(index, self.cards.items[index].turned()),
                cursor: self.cards.cursor,
            },
        )
    }

    /// The deck without the card at `index`. The browsing cursor follows the
    /// rule of the list; the study cursor steps back once if it would
    /// otherwise stand behind the last card.
    pub open spec fn delete_card(self, index: int) -> DeckView
        recommends
            0 <= index < self.cards.items.len(),
    {
        let rest = self.with_cards(self.cards.delete(index));
        if rest.cards.items.len() > 0 && rest.study_cursor >= rest.cards.items.len() {
            rest.retreat_study()
        } else {
            rest
        }
    }

    /// The same deck with its cards in some order: as many cards as in
    /// `before`, the same cards, each as often as there, with the title and
    /// both cursors as they were.
    pub open spec fn rearranges(self, before: DeckView) -> bool {
        &&& self.title == before.title
        &&& self.cards.cursor == before.cards.cursor
        &&& self.study_cursor == before.study_cursor
        &&& self.cards.items.len() == before.cards.items.len()
        &&& self.cards.items.to_multiset() == before.cards.items.to_multiset()
    }

    /// Laying the cards face down leaves every card face down, and changes
    /// neither their number nor their texts.
    pub proof fn law_hide_all_hides(self)
        ensures
            self.hide_all().all_face_down(),
            self.hide_all().cards.items.len() == self.cards.items.len(),
            forall|i: int|
                0 <= i < self.cards.items.len() ==> (#[trigger] self.hide_all().cards.items[i]).front
                    == self.cards.items[i].front && self.hide_all().cards.items[i].back
                    == self.cards.items[i].back,
            self.wf() ==> self.hide_all().wf(),
    {
    }

    /// A rearranged deck holds a card if and only if the deck before held
    /// it, and keeps the deck invariant.
    pub proof fn law_rearranged_holds_same_cards(self, before: DeckView, card: FlashCard)
        requires
            self.rearranges(before),
        ensures
            self.cards.items.contains(card) <==> before.cards.items.contains(card),
            before.wf() ==> self.wf(),
    {
        self.cards.items.to_multiset_ensures();
        before.cards.items.to_multiset_ensures();
        assert(self.cards.items.contains(card) <==> self.cards.items.to_multiset().count(card) > 0);
        assert(before.cards.items.contains(card) <==> before.cards.items.to_multiset().count(card)
            > 0);
    }
}

/// A named collection of cards.
#[derive(Debug)]
pub struct Deck {
    pub title: String,
    pub cards: StatefulList<FlashCard>,
    pub current_card: usize,
}

impl View for Deck {
    type V = DeckView;

    open spec fn view(&self) -> DeckView {
        DeckView {
            title: self.title@,
            cards: self.cards@,
            study_cursor: self.current_card as nat,
        }
    }
}

/// Asks the operating system for the bytes of a seed, with
/// `rand::rngs::OsRng` and its `try_fill_bytes`, which reports an error where
/// the system gives none and does not panic.
///
/// Trusted: nothing. Which bytes come, and whether any, is the system's.
#[verifier::external_body]
fn draw_seed() -> (seed: Option<[u8; 32]>) {
    let mut seed = [0u8; 32];
    match OsRng.try_fill_bytes(&mut seed) {
        Ok(()) => Some(seed),
        Err(_) => None,
    }
}

/// Shuffles `order` with `shuffle::fy::FisherYates::shuffle`, on the
/// generator that `rand::rngs::StdRng::from_seed` makes of `seed`.
///
/// Trusted: the shuffler does nothing but swap two numbers of `order` at a
/// time, whatever the generator gives, so the numbers afterwards are the
/// numbers before in some order. `done` says whether the shuffler reported
/// success; nothing is claimed of it.
#[verifier::external_body]
fn fisher_yates(order: &mut Vec<usize>, seed: [u8; 32]) -> (done: bool)
    ensures
        final(order)@.to_multiset() == old(order)@.to_multiset(),
{
    let mut rng = StdRng::from_seed(seed);
    let mut shuffler = FisherYates::default();
    shuffler.shuffle(order, &mut rng).is_ok()
}

impl Deck {
    /// What a sequence of decks is: the sequence of what each deck is.
    pub open spec fn views(decks: Seq<Deck>) -> Seq<DeckView> {
        decks.map_values(|deck: Deck| deck@)
    }

    /// Moves study on to the following card; stays on the last card.
    pub fn next(&mut self)
        requires
            old(self)@.cards.items.len() > 0,
        ensures
            final(self)@ == old(self)@.advance_study(),
            old(self)@.wf() ==> final(self)@.wf(),
    {
        if self.current_card < self.cards.items.len() - 1 {
            self.current_card += 1;
        }
    }

    /// Moves study back to the card before; stays on the first card.
    pub fn previous(&mut self)
        ensures
            final(self)@ == old(self)@.retreat_study(),
            old(self)@.wf() ==> final(self)@.wf(),
    {
        if self.current_card != 0 {
            self.current_card -= 1;
        }
    }

    /// Puts the cards in a random order. Neither cursor follows its card:
    /// both keep their positions. Fewer than two cards have one order, and
    /// nothing is drawn for them. The result is `false` where no randomness
    /// could be had or the shuffler reported an error; the deck is then as
    /// it was.
    pub fn shuffle(&mut self) -> (shuffled: bool)
        ensures
            final(self)@.rearranges(old(self)@),
            final(self)@.permutes(old(self)@),
            old(self)@.wf() ==> final(self)@.wf(),
            old(self)@.cards.items.len() < 2 ==> shuffled,
            old(self)@.cards.items.len() < 2 ==> final(self)@ == old(self)@,
            !shuffled ==> final(self)@ == old(self)@,
    {
        let count: usize = self.cards.items.len();
        proof {
            self@.law_arranged_as_it_stands();
        }
        if count < 2 {
            return true;
        }
        let mut order = self.standing_order();
        let ghost positions = order@;
        let seed = match draw_seed() {
            Some(seed) => seed,
            None => {
                return false;
            },
        };
        if !fisher_yates(&mut order, seed) {
            return false;
        }
        proof {
            lemma_shuffled_positions(positions, order@);
        }
        let arranged = self.arrange(&order);
        assert(arranged);
        true
    }

    /// The order that names every position of the deck in its own place:
    /// what is handed to the shuffler.
    pub fn standing_order(&self) -> (order: Vec<usize>)
        ensures
            order@ == self@.standing_order(),
    {
        let count: usize = self.cards.items.len();
        let mut order: Vec<usize> = Vec::new();
        let mut position: usize = 0;
        while position < count
            invariant
                position <= count,
                count == self.cards.items@.len(),
                order@.len() == position,
                forall|k: int| 0 <= k < position ==> order@[k] == k,
            decreases count - position,
        {
            order.push(position);
            position += 1;
        }
        assert(order@ =~= self@.standing_order());
        order
    }

    /// Puts the cards in the order that `order` gives: the card that stood
    /// at position `order[i]` comes to stand at position `i`. Neither cursor
    /// is moved. Where `order` is no order of this deck's positions, because
    /// it names too few, too many, one twice or one that the deck lacks, the
    /// deck stays as it is and the result is `false`.
    pub fn arrange(&mut self, order: &Vec<usize>) -> (done: bool)
        ensures
            done == old(self)@.takes_order(order@),
            done ==> final(self)@ == old(self)@.arranged(order@),
            !done ==> final(self)@ == old(self)@,
            final(self)@.rearranges(old(self)@),
            old(self)@.wf() ==> final(self)@.wf(),
    {
        let count: usize = self.cards.items.len();
        if order.len() != count {
            return false;
        }
        let mut seen: Vec<bool> = Vec::new();
        let mut i: usize = 0;
        while i < count
            invariant
                i <= count,
                seen@.len() == i,
                forall|v: int| 0 <= v < i ==> !seen@[v],
            decreases count - i,
        {
            seen.push(false);
            i += 1;
        }
        let mut i: usize = 0;
        while i < count
            invariant
                i <= count,
                count == order@.len(),
                count == seen@.len(),
                count == self.cards.items@.len(),
                *self == *old(self),
                forall|k: int| 0 <= k < i ==> (#[trigger] order@[k]) < count,
                forall|k: int, l: int| 0 <= k < l < i ==> order@[k] != order@[l],
                forall|k: int| 0 <= k < i ==> seen@[(#[trigger] order@[k]) as int],
                forall|v: int|
                    0 <= v < count && #[trigger] seen@[v] ==> exists|k: int|
                        0 <= k < i && #[trigger] order@[k] == v,
            decreases count - i,
        {
            let position: usize = order[i];
            if position >= count {
                return false;
            }
            if seen[position] {
                proof {
                    let k = choose|k: int| 0 <= k < i && #[trigger] order@[k] == position;
                    assert(order@[k] == order@[i as int]);
                }
                return false;
            }
            seen[position] = true;
            i += 1;
        }
        let mut cards: Vec<FlashCard> = Vec::new();
        let mut i: usize = 0;
        while i < count
            invariant
                i <= count,
                count == order@.len(),
                count == self.cards.items@.len(),
                *self == *old(self),
                cards@.len() == i,
                forall|k: int| 0 <= k < count ==> (#[trigger] order@[k]) < count,
                forall|k: int| 0 <= k < i ==> cards@[k] == self.cards.items@[order@[k] as int],
            decreases count - i,
        {
            cards.push(self.cards.items[order[i]].clone());
            i += 1;
        }
        self.cards.items = cards;
        proof {
            assert(self@.cards.items =~= old(self)@.arranged(order@).cards.items);
            old(self)@.law_arranged_rearranges(order@);
        }
        true
    }

    /// Turns every card that shows its back face down again.
    pub fn hide_all(&mut self)
        ensures
            final(self)@ == old(self)@.hide_all(),
            final(self)@.all_face_down(),
            old(self)@.wf() ==> final(self)@.wf(),
    {
        let count: usize = self.cards.items.len();
        let mut i: usize = 0;
        while i < count
            invariant
                i <= count,
                count == self.cards.items@.len(),
                count == old(self).cards.items@.len(),
                self.title == old(self).title,
                self.cards.cursor == old(self).cards.cursor,
                self.current_card == old(self).current_card,
                forall|k: int| 0 <= k < i ==> self.cards.items@[k] == old(self).cards.items@[k].hidden(),
                forall|k: int| i <= k < count ==> self.cards.items@[k] == old(self).cards.items@[k],
            decreases count - i,
        {
            if self.cards.items[i].flipped {
                self.cards.items[i].flip();
            }
            i += 1;
        }
        assert(self@.cards.items =~= old(self)@.hide_all().cards.items);
    }

    /// Turns the card at `index` over.
    pub fn flip_card(&mut self, index: usize)
        requires
            index < old(self)@.cards.items.len(),
        ensures
            final(self)@ == old(self)@.flip_card(index as int),
            old(self)@.wf() ==> final(self)@.wf(),
    {
        self.cards.items[index].flip();
    }

    /// Removes the card at `index`, and keeps the card under study inside
    /// the deck.
    pub fn delete_card(&mut self, index: usize)
        requires
            index < old(self)@.cards.items.len(),
        ensures
            final(self)@ == old(self)@.delete_card(index as int),
            old(self)@.wf() ==> final(self)@.wf(),
    {
        self.cards.delete(index);
        if !self.cards.items.is_empty() && self.current_card >= self.cards.items.len() {
            self.previous();
        }
    }
}

impl DeckView {
    /// Whether `order` is an order of this deck's positions: it names every
    /// position of the deck, and each of them once.
    pub open spec fn takes_order(self, order: Seq<usize>) -> bool {
        &&& order.len() == self.cards.items.len()
        &&& forall|i: int| 0 <= i < order.len() ==> (#[trigger] order[i]) < self.cards.items.len()
        &&& order.no_duplicates()
    }

    /// The deck with its cards in the order that `order` gives: at position
    /// `i` the card that stood at position `order[i]`. Nothing else differs.
    pub open spec fn arranged(self, order: Seq<usize>) -> DeckView
        recommends
            self.takes_order(order),
    {
        self.with_cards(
            ListView {
                items: Seq::new(order.len(), |i: int| self.cards.items[order[i] as int]),
                cursor: self.cards.cursor,
            },
        )
    }

    /// Whether this deck is `before` with its cards in some order of
    /// `before`'s positions, and nothing else changed.
    pub open spec fn permutes(self, before: DeckView) -> bool {
        exists|order: Seq<usize>| #[trigger] before.takes_order(order) && self == before.arranged(order)
    }

    /// The order that names every position in its own place.
    pub open spec fn standing_order(self) -> Seq<usize> {
        Seq::new(self.cards.items.len(), |i: int| i as usize)
    }

    /// The order that names every position in its own place is an order of
    /// the deck's positions, and leaves the deck as it stands.
    pub proof fn law_arranged_as_it_stands(self)
        requires
            self.cards.items.len() <= usize::MAX,
        ensures
            self.takes_order(self.standing_order()),
            self.arranged(self.standing_order()) == self,
            self.permutes(self),
    {
        assert(self.arranged(self.standing_order()).cards.items =~= self.cards.items);
        assert(self.takes_order(self.standing_order()));
    }

    /// Putting the cards in another order neither adds a card nor loses
    /// one: the deck holds as many cards as before, and each card as often.
    pub proof fn law_arranged_rearranges(self, order: Seq<usize>)
        requires
            self.takes_order(order),
        ensures
            self.arranged(order).rearranges(self),
            self.wf() ==> self.arranged(order).wf(),
    {
        lemma_same_items_in_order(self.cards.items, order);
    }
}

/// The items of a sequence, taken once each in any order, make the multiset
/// that the sequence makes.
proof fn lemma_same_items_in_order<T>(items: Seq<T>, order: Seq<usize>)
    requires
        order.len() == items.len(),
        forall|i: int| 0 <= i < order.len() ==> (#[trigger] order[i]) < items.len(),
        order.no_duplicates(),
    ensures
        Seq::new(order.len(), |i: int| items[order[i] as int]).to_multiset() == items.to_multiset(),
    decreases items.len(),
{
    let taken = Seq::new(order.len(), |i: int| items[order[i] as int]);
    if items.len() == 0 {
        assert(taken =~= items);
    } else {
        let last = order.len() - 1;
        let gone = order[last] as int;
        let rest = items.remove(gone);
        let rest_order = Seq::new(
            last as nat,
            |i: int| if order[i] > gone { (order[i] - 1) as usize } else { order[i] },
        );
        assert forall|i: int| 0 <= i < rest_order.len() implies (#[trigger] rest_order[i])
            < rest.len() && rest[rest_order[i] as int] == items[order[i] as int] by {
            assert(order[i] != order[last]);
        }
        assert(rest_order.no_duplicates());
        lemma_same_items_in_order(rest, rest_order);
        let rest_taken = Seq::new(rest_order.len(), |i: int| rest[rest_order[i] as int]);
        assert(rest_taken =~= taken.drop_last());
        assert(taken =~= taken.drop_last().push(items[gone]));
        taken.drop_last().to_multiset_ensures();
        items.to_multiset_ensures();
        assert(items.to_multiset().count(items[gone]) > 0);
    }
}

/// Numbers that are the positions `0`, `1`, and so on in some order name
/// every such position, and each of them once.
proof fn lemma_shuffled_positions(positions: Seq<usize>, order: Seq<usize>)
    requires
        forall|k: int| 0 <= k < positions.len() ==> positions[k] == k,
        order.to_multiset() == positions.to_multiset(),
    ensures
        order.len() == positions.len(),
        forall|i: int| 0 <= i < order.len() ==> (#[trigger] order[i]) < positions.len(),
        order.no_duplicates(),
{
    positions.to_multiset_ensures();
    order.to_multiset_ensures();
    assert forall|i: int| 0 <= i < order.len() implies (#[trigger] order[i]) < positions.len() by {
        assert(order.to_multiset().count(order[i]) > 0);
    }
    positions.lemma_multiset_has_no_duplicates();
    order.lemma_multiset_has_no_duplicates_conv();
}

} // verus!
