use flashcards::{AppState, Pane, Screens, SerialisedCard, SerialisedDeck, SerialisedDecks};

fn stored_card(front: &str, back: &str) -> SerialisedCard {
    SerialisedCard { front: front.to_string(), back: back.to_string() }
}

#[test]
fn stored_card_becomes_a_card_face_down() {
    let card = stored_card("Hund", "dog").into_card();
    assert_eq!(card.front, "Hund");
    assert_eq!(card.back, "dog");
    assert!(!card.flipped);
}

#[test]
fn stored_deck_becomes_a_deck_with_cursors_at_the_start() {
    let stored = SerialisedDeck {
        title: "animals".to_string(),
        cards: vec![stored_card("Hund", "dog"), stored_card("Katze", "cat")],
    };
    let deck = stored.into_deck();
    assert_eq!(deck.title, "animals");
    assert_eq!(deck.cards.items.len(), 2);
    assert_eq!(deck.cards.items[0].front, "Hund");
    assert_eq!(deck.cards.items[1].front, "Katze");
    assert_eq!(deck.cards.items[1].back, "cat");
    assert!(deck.cards.items.iter().all(|c| !c.flipped));
    assert_eq!(deck.cards.selected(), Some(0));
    assert_eq!(deck.current_card, 0);
}

#[test]
fn stored_deck_without_cards_becomes_an_empty_deck() {
    let stored = SerialisedDeck { title: "none".to_string(), cards: vec![] };
    let deck = stored.into_deck();
    assert!(deck.cards.items.is_empty());
    assert_eq!(deck.cards.selected(), None);
    assert_eq!(deck.current_card, 0);
}

#[test]
fn stored_decks_become_decks_in_order() {
    let stored = SerialisedDecks {
        decks: vec![
            SerialisedDeck { title: "one".to_string(), cards: vec![stored_card("a", "b")] },
            SerialisedDeck { title: "two".to_string(), cards: vec![] },
            SerialisedDeck {
                title: "three".to_string(),
                cards: vec![stored_card("c", "d"), stored_card("e", "f")],
            },
        ],
    };
    let decks = stored.into_decks();
    assert_eq!(decks.len(), 3);
    assert_eq!(decks[0].title, "one");
    assert_eq!(decks[1].title, "two");
    assert_eq!(decks[2].title, "three");
    assert_eq!(decks[0].cards.items.len(), 1);
    assert_eq!(decks[1].cards.items.len(), 0);
    assert_eq!(decks[2].cards.items.len(), 2);
    assert_eq!(decks[2].cards.items[1].back, "f");
}

#[test]
fn nothing_stored_starts_without_decks() {
    let state = AppState::from_stored(None);
    assert!(state.decks.items.is_empty());
    assert_eq!(state.decks.selected(), None);
    assert_eq!(state.current_screen.screen_type, Screens::DecksView);
    assert_eq!(state.current_screen.current_window, Pane::Decks);
}

#[test]
fn stored_decks_start_with_first_deck_selected() {
    let stored = SerialisedDecks {
        decks: vec![
            SerialisedDeck { title: "one".to_string(), cards: vec![stored_card("a", "b")] },
            SerialisedDeck { title: "two".to_string(), cards: vec![] },
        ],
    };
    let state = AppState::from_stored(Some(stored));
    assert_eq!(state.decks.items.len(), 2);
    assert_eq!(state.decks.items[0].title, "one");
    assert_eq!(state.decks.items[1].title, "two");
    assert_eq!(state.decks.selected(), Some(0));
    assert_eq!(state.decks.items[0].cards.selected(), Some(0));
    assert_eq!(state.decks.items[1].cards.selected(), None);
    assert_eq!(state.current_screen.screen_type, Screens::DecksView);
    assert_eq!(state.current_screen.current_window, Pane::Decks);
}

#[test]
fn stored_decks_start_the_application() {
    let stored = SerialisedDecks {
        decks: vec![SerialisedDeck { title: "one".to_string(), cards: vec![stored_card("a", "b")] }],
    };
    let state = AppState::new(stored.into_decks());
    assert_eq!(state.decks.selected(), Some(0));
    assert_eq!(state.current_screen.screen_type, Screens::DecksView);
    let empty = AppState::new(SerialisedDecks { decks: vec![] }.into_decks());
    assert_eq!(empty.decks.selected(), None);
}
