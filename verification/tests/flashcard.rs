use flashcards::FlashCard;

fn card(front: &str, back: &str) -> FlashCard {
    FlashCard { flipped: false, front: front.to_string(), back: back.to_string() }
}

#[test]
fn flip_turns_the_card_over() {
    let mut c = card("Hund", "dog");
    c.flip();
    assert!(c.flipped);
    assert_eq!(c.front, "Hund");
    assert_eq!(c.back, "dog");
}

#[test]
fn flip_twice_restores_the_card() {
    let mut c = card("Hund", "dog");
    c.flip();
    c.flip();
    assert_eq!(c, card("Hund", "dog"));
    let mut shown = card("Katze", "cat");
    shown.flipped = true;
    shown.flip();
    shown.flip();
    assert!(shown.flipped);
}

#[test]
fn face_is_the_side_that_shows() {
    let mut c = card("Hund", "dog");
    assert_eq!(c.face(), "Hund");
    c.flip();
    assert_eq!(c.face(), "dog");
}

#[test]
fn default_card_is_blank_and_face_down() {
    let c = FlashCard::default();
    assert!(!c.flipped);
    assert_eq!(c.front, "");
    assert_eq!(c.back, "");
}

#[test]
fn clone_copies_texts_and_side() {
    let mut c = card("Hund", "dog");
    c.flip();
    let copy = c.clone();
    assert_eq!(copy, c);
    assert!(copy.flipped);
}
