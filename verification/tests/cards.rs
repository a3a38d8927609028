use discord_bot::card::Card;

fn glyph(id: u32) -> String {
    let base = [0x1F0B1u32, 0x1F0C1, 0x1F0A1, 0x1F0D1][(id / 13) as usize];
    char::from_u32(base + id % 13).unwrap().to_string()
}

#[test]
fn card_ids_wrap_around_the_deck() {
    assert_eq!(Card::new(0).id(), 0);
    assert_eq!(Card::new(51).id(), 51);
    assert_eq!(Card::new(53).id(), 1);
    assert_eq!(Card::new(52 * 6 + 7).id(), 7);
}

#[test]
fn card_number_is_rank() {
    assert_eq!(Card::new(0).number(), 0);
    assert_eq!(Card::new(12).number(), 12);
    assert_eq!(Card::new(13).number(), 0);
    assert_eq!(Card::new(50).number(), 11);
}

#[test]
fn card_glyphs() {
    assert_eq!(Card::new(0).to_string(), "\u{1F0B1}");
    assert_eq!(Card::new(12).to_string(), "\u{1F0BD}");
    assert_eq!(Card::new(13).to_string(), "\u{1F0C1}");
    assert_eq!(Card::new(26).to_string(), "\u{1F0A1}");
    assert_eq!(Card::new(39).to_string(), "\u{1F0D1}");
    assert_eq!(Card::new(51).to_string(), "\u{1F0DD}");
    for id in 0..52 {
        assert_eq!(Card::new(id).to_string(), glyph(id));
        assert_eq!(Card::new(id).to_string().chars().count(), 1);
    }
}

#[test]
fn unshuffled_shoe_is_six_decks_in_order() {
    let shoe = Card::new_shoe();
    assert_eq!(shoe.len(), 312);
    for (i, c) in shoe.iter().enumerate() {
        assert_eq!(c.id() as usize, i % 52);
    }
}

#[test]
fn created_deck_holds_six_of_each_card() {
    let deck = Card::create_deck();
    assert_eq!(deck.len(), 312);
    let mut counts = [0u32; 52];
    for c in &deck {
        counts[c.id() as usize] += 1;
    }
    assert!(counts.iter().all(|&n| n == 6));
}

#[test]
fn created_deck_is_shuffled() {
    let shoe: Vec<u8> = Card::new_shoe().iter().map(|c| c.id()).collect();
    let a: Vec<u8> = Card::create_deck().iter().map(|c| c.id()).collect();
    let b: Vec<u8> = Card::create_deck().iter().map(|c| c.id()).collect();
    assert_ne!(a, shoe);
    assert_ne!(a, b);
}
