use flashcards::{Command, Key};

#[test]
fn letter_keys_give_their_commands() {
    assert_eq!(Command::from_key(Key::Char('q')), Some(Command::Quit));
    assert_eq!(Command::from_key(Key::Char('D')), Some(Command::Delete));
    assert_eq!(Command::from_key(Key::Char(' ')), Some(Command::Flip));
    assert_eq!(Command::from_key(Key::Char('r')), Some(Command::Shuffle));
    assert_eq!(Command::from_key(Key::Char('k')), Some(Command::MoveUp));
    assert_eq!(Command::from_key(Key::Char('j')), Some(Command::MoveDown));
    assert_eq!(Command::from_key(Key::Char('h')), Some(Command::MoveLeft));
    assert_eq!(Command::from_key(Key::Char('l')), Some(Command::MoveRight));
}

#[test]
fn named_keys_give_their_commands() {
    assert_eq!(Command::from_key(Key::Up), Some(Command::MoveUp));
    assert_eq!(Command::from_key(Key::Down), Some(Command::MoveDown));
    assert_eq!(Command::from_key(Key::Left), Some(Command::MoveLeft));
    assert_eq!(Command::from_key(Key::Right), Some(Command::MoveRight));
    assert_eq!(Command::from_key(Key::Enter), Some(Command::Select));
    assert_eq!(Command::from_key(Key::Tab), Some(Command::TogglePane));
    assert_eq!(Command::from_key(Key::Esc), Some(Command::ReturnToBrowse));
}

#[test]
fn other_keys_give_no_command() {
    assert_eq!(Command::from_key(Key::Other), None);
    assert_eq!(Command::from_key(Key::Char('d')), None);
    assert_eq!(Command::from_key(Key::Char('Q')), None);
    assert_eq!(Command::from_key(Key::Char('a')), None);
    assert_eq!(Command::from_key(Key::Char('\n')), None);
}
