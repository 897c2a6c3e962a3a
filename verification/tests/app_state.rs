use flashcards::{AppState, Command, Deck, FlashCard, Outcome, Pane, Screens, StatefulList};

fn card(front: &str, back: &str) -> FlashCard {
    FlashCard { flipped: false, front: front.to_string(), back: back.to_string() }
}

fn deck(title: &str, cards: Vec<FlashCard>) -> Deck {
    Deck { title: title.to_string(), cards: StatefulList::with_items(cards), current_card: 0 }
}

fn two_decks() -> AppState {
    AppState::new(vec![
        deck("letters", vec![card("1", "2"), card("3", "4")]),
        deck("empty", vec![]),
    ])
}

fn run(state: &mut AppState, commands: &[Command]) {
    for command in commands {
        assert_eq!(state.dispatch(*command), Outcome::Continue);
    }
}

fn fronts(deck: &Deck) -> Vec<String> {
    deck.cards.items.iter().map(|c| c.front.clone()).collect()
}

#[test]
fn new_state_shows_deck_screen_with_first_deck_selected() {
    let state = two_decks();
    assert_eq!(state.decks.selected(), Some(0));
    assert_eq!(state.current_screen.screen_type, Screens::DecksView);
    assert_eq!(state.current_screen.current_window, Pane::Decks);
    assert_eq!(state.selected_deck().unwrap().title, "letters");
}

#[test]
fn default_state_has_no_decks() {
    let state = AppState::default();
    assert!(state.decks.items.is_empty());
    assert_eq!(state.decks.selected(), None);
    assert_eq!(state.current_screen.screen_type, Screens::DecksView);
    assert_eq!(state.current_screen.current_window, Pane::Decks);
    assert!(state.selected_deck().is_none());
    assert!(state.studied_card().is_none());
}

#[test]
fn commands_on_state_without_decks_do_nothing() {
    let mut state = AppState::default();
    run(
        &mut state,
        &[
            Command::MoveUp,
            Command::MoveDown,
            Command::Delete,
            Command::Flip,
            Command::Select,
            Command::Shuffle,
            Command::MoveLeft,
            Command::MoveRight,
            Command::ReturnToBrowse,
        ],
    );
    assert!(state.decks.items.is_empty());
    assert_eq!(state.current_screen.screen_type, Screens::DecksView);
    assert_eq!(state.current_screen.current_window, Pane::Decks);
    run(&mut state, &[Command::TogglePane, Command::Delete, Command::Flip, Command::MoveDown]);
    assert_eq!(state.current_screen.current_window, Pane::Cards);
    assert!(state.decks.items.is_empty());
}

#[test]
fn quit_asks_to_stop_and_changes_nothing() {
    let mut state = two_decks();
    assert_eq!(state.dispatch(Command::Quit), Outcome::Quit);
    assert_eq!(state.decks.items.len(), 2);
    assert_eq!(state.current_screen.screen_type, Screens::DecksView);
    run(&mut state, &[Command::Select]);
    assert_eq!(state.dispatch(Command::Quit), Outcome::Quit);
    assert_eq!(state.current_screen.screen_type, Screens::FlashCardView);
}

#[test]
fn toggle_pane_cycles_between_two_panes() {
    let mut state = two_decks();
    run(&mut state, &[Command::TogglePane]);
    assert_eq!(state.current_screen.current_window, Pane::Cards);
    run(&mut state, &[Command::TogglePane]);
    assert_eq!(state.current_screen.current_window, Pane::Decks);
}

#[test]
fn moves_act_on_the_focused_list() {
    let mut state = two_decks();
    run(&mut state, &[Command::TogglePane, Command::MoveDown]);
    assert_eq!(state.decks.selected(), Some(0));
    assert_eq!(state.decks.items[0].cards.selected(), Some(1));
    run(&mut state, &[Command::MoveUp]);
    assert_eq!(state.decks.items[0].cards.selected(), Some(0));
    run(&mut state, &[Command::TogglePane, Command::MoveDown]);
    assert_eq!(state.decks.selected(), Some(1));
    assert_eq!(state.decks.items[0].cards.selected(), Some(0));
    run(&mut state, &[Command::MoveDown]);
    assert_eq!(state.decks.selected(), Some(1));
    run(&mut state, &[Command::MoveUp, Command::MoveUp]);
    assert_eq!(state.decks.selected(), Some(0));
}

#[test]
fn left_and_right_do_nothing_on_deck_screen() {
    let mut state = two_decks();
    run(&mut state, &[Command::MoveRight, Command::MoveLeft, Command::Shuffle, Command::ReturnToBrowse]);
    assert_eq!(state.decks.selected(), Some(0));
    assert_eq!(state.decks.items[0].current_card, 0);
    assert_eq!(fronts(&state.decks.items[0]), vec!["1", "3"]);
    assert_eq!(state.current_screen.screen_type, Screens::DecksView);
}

#[test]
fn move_down_then_delete_in_card_pane() {
    let mut state = AppState::new(vec![deck("d", vec![card("1", "2"), card("3", "4")])]);
    run(&mut state, &[Command::TogglePane]);
    assert_eq!(state.decks.items[0].cards.selected(), Some(0));
    run(&mut state, &[Command::MoveDown, Command::Delete]);
    let cards = &state.decks.items[0].cards;
    assert_eq!(cards.items, vec![card("1", "2")]);
    assert_eq!(cards.selected(), Some(0));
    assert_eq!(state.decks.items.len(), 1);
}

#[test]
fn delete_in_deck_pane_removes_selected_deck() {
    let mut state = two_decks();
    run(&mut state, &[Command::MoveDown, Command::Delete]);
    assert_eq!(state.decks.items.len(), 1);
    assert_eq!(state.decks.items[0].title, "letters");
    assert_eq!(state.decks.selected(), Some(0));
    run(&mut state, &[Command::Delete]);
    assert!(state.decks.items.is_empty());
    assert_eq!(state.decks.selected(), None);
    run(&mut state, &[Command::Delete]);
    assert!(state.decks.items.is_empty());
}

#[test]
fn delete_in_card_pane_of_empty_deck_does_nothing() {
    let mut state = two_decks();
    run(&mut state, &[Command::MoveDown, Command::TogglePane, Command::Delete]);
    assert_eq!(state.decks.items.len(), 2);
    assert!(state.decks.items[1].cards.items.is_empty());
    assert_eq!(state.decks.items[0].cards.items.len(), 2);
}

#[test]
fn delete_card_after_study_keeps_study_cursor_on_a_card() {
    let mut state = AppState::new(vec![deck("d", vec![card("1", "2"), card("3", "4")])]);
    run(&mut state, &[Command::Select, Command::MoveRight, Command::ReturnToBrowse]);
    assert_eq!(state.decks.items[0].current_card, 1);
    run(&mut state, &[Command::TogglePane, Command::Delete]);
    assert_eq!(state.decks.items[0].cards.items, vec![card("3", "4")]);
    assert_eq!(state.decks.items[0].current_card, 0);
    run(&mut state, &[Command::TogglePane, Command::Select]);
    assert_eq!(state.studied_card().unwrap().front, "3");
}

#[test]
fn flip_in_card_pane_turns_selected_card() {
    let mut state = two_decks();
    run(&mut state, &[Command::Flip]);
    assert!(state.decks.items[0].cards.items.iter().all(|c| !c.flipped));
    run(&mut state, &[Command::TogglePane, Command::MoveDown, Command::Flip]);
    assert!(!state.decks.items[0].cards.items[0].flipped);
    assert!(state.decks.items[0].cards.items[1].flipped);
    run(&mut state, &[Command::Flip]);
    assert!(!state.decks.items[0].cards.items[1].flipped);
}

#[test]
fn select_on_deck_with_two_cards_starts_study_face_down() {
    let mut state = two_decks();
    run(&mut state, &[Command::TogglePane, Command::Flip, Command::MoveDown, Command::Flip]);
    assert!(state.decks.items[0].cards.items.iter().all(|c| c.flipped));
    run(&mut state, &[Command::TogglePane, Command::Select]);
    assert_eq!(state.current_screen.screen_type, Screens::FlashCardView);
    assert_eq!(state.decks.items[0].cards.items.len(), 2);
    assert!(!state.decks.items[0].cards.items[0].flipped);
    assert!(!state.decks.items[0].cards.items[1].flipped);
    assert_eq!(state.decks.items[0].current_card, 0);
    assert_eq!(state.studied_card().unwrap().front, "1");
}

#[test]
fn select_on_empty_deck_stays_on_deck_screen() {
    let mut state = two_decks();
    run(&mut state, &[Command::MoveDown, Command::Select]);
    assert_eq!(state.decks.selected(), Some(1));
    assert_eq!(state.current_screen.screen_type, Screens::DecksView);
    assert_eq!(state.current_screen.current_window, Pane::Decks);
}

#[test]
fn select_in_card_pane_does_nothing() {
    let mut state = two_decks();
    run(&mut state, &[Command::TogglePane, Command::Select]);
    assert_eq!(state.current_screen.screen_type, Screens::DecksView);
}

#[test]
fn study_moves_between_cards_and_stops_at_both_ends() {
    let mut state = two_decks();
    run(&mut state, &[Command::Select, Command::MoveLeft]);
    assert_eq!(state.decks.items[0].current_card, 0);
    run(&mut state, &[Command::MoveRight]);
    assert_eq!(state.decks.items[0].current_card, 1);
    assert_eq!(state.studied_card().unwrap().front, "3");
    run(&mut state, &[Command::MoveRight]);
    assert_eq!(state.decks.items[0].current_card, 1);
    run(&mut state, &[Command::MoveLeft]);
    assert_eq!(state.decks.items[0].current_card, 0);
    assert_eq!(state.decks.items[0].cards.selected(), Some(0));
}

#[test]
fn flip_in_study_turns_the_card_under_study() {
    let mut state = two_decks();
    run(&mut state, &[Command::Select, Command::MoveRight, Command::Flip]);
    assert!(!state.decks.items[0].cards.items[0].flipped);
    assert!(state.decks.items[0].cards.items[1].flipped);
    assert!(state.studied_card().unwrap().flipped);
}

#[test]
fn deck_screen_commands_do_nothing_in_study() {
    let mut state = two_decks();
    run(
        &mut state,
        &[
            Command::Select,
            Command::MoveDown,
            Command::MoveUp,
            Command::Delete,
            Command::TogglePane,
            Command::Select,
        ],
    );
    assert_eq!(state.current_screen.screen_type, Screens::FlashCardView);
    assert_eq!(state.current_screen.current_window, Pane::Decks);
    assert_eq!(state.decks.selected(), Some(0));
    assert_eq!(state.decks.items.len(), 2);
    assert_eq!(state.decks.items[0].cards.items.len(), 2);
    assert_eq!(state.decks.items[0].cards.selected(), Some(0));
}

#[test]
fn return_to_browse_leaves_study() {
    let mut state = two_decks();
    run(&mut state, &[Command::Select, Command::MoveRight, Command::Flip, Command::ReturnToBrowse]);
    assert_eq!(state.current_screen.screen_type, Screens::DecksView);
    assert_eq!(state.current_screen.current_window, Pane::Decks);
    assert_eq!(state.decks.items[0].current_card, 1);
    assert!(state.decks.items[0].cards.items[1].flipped);
}

#[test]
fn shuffle_in_study_rearranges_only_the_studied_deck() {
    let mut cards = Vec::new();
    for i in 0..30 {
        cards.push(card(&format!("{:02}", i), "back"));
    }
    let mut state = AppState::new(vec![
        deck("other", vec![card("x", "y"), card("z", "w")]),
        deck("many", cards),
    ]);
    run(&mut state, &[Command::MoveDown, Command::Select, Command::MoveRight]);
    let before = fronts(&state.decks.items[1]);
    run(&mut state, &[Command::Shuffle]);
    let after = fronts(&state.decks.items[1]);
    assert_ne!(after, before);
    let mut sorted = after.clone();
    sorted.sort();
    assert_eq!(sorted, before);
    assert_eq!(state.decks.items[1].current_card, 1);
    assert_eq!(state.decks.items[1].cards.selected(), Some(0));
    assert_eq!(fronts(&state.decks.items[0]), vec!["x", "z"]);
    assert_eq!(state.decks.selected(), Some(1));
    assert_eq!(state.current_screen.screen_type, Screens::FlashCardView);
}

#[test]
fn selected_deck_and_studied_card_ignore_stray_cursors() {
    let mut state = two_decks();
    state.decks.cursor = Some(5);
    assert!(state.selected_deck().is_none());
    assert!(state.studied_card().is_none());
    run(&mut state, &[Command::Delete, Command::Select]);
    assert_eq!(state.decks.items.len(), 2);
    assert_eq!(state.current_screen.screen_type, Screens::DecksView);
    let mut state = two_decks();
    state.decks.items[0].current_card = 2;
    assert!(state.studied_card().is_none());
    state.current_screen.screen_type = Screens::FlashCardView;
    run(&mut state, &[Command::Flip]);
    assert!(state.decks.items[0].cards.items.iter().all(|c| !c.flipped));
}
