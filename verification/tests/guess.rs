use discord_bot::guess::GuessGame;

#[test]
fn secret_number_comes_from_the_draw() {
    assert_eq!(GuessGame::from_draw(142).number(), 42);
    assert_eq!(GuessGame::from_draw(u32::MAX).number(), 95);
    let g = GuessGame::start();
    assert!((0..100).contains(&g.number()));
    assert_eq!(g.tries(), 0);
}

#[test]
fn guesses_are_answered() {
    let mut g = GuessGame::from_draw(42);
    assert_eq!(GuessGame::intro(), "guess the number between 1 and 100");
    let r = g.guess("50");
    assert_eq!(r.message, "your guess is too big");
    assert!(!r.won);
    let r = g.guess("10");
    assert_eq!(r.message, "your guess is too small");
    let r = g.guess("forty two");
    assert_eq!(r.message, "not a number");
    let r = g.guess("42");
    assert!(r.won);
    assert_eq!(r.message, "your guessed the number in 3 tries");
    assert_eq!(g.tries(), 4);
}

#[test]
fn ten_misses_lose() {
    let mut g = GuessGame::from_draw(7);
    for _ in 0..10 {
        assert!(!g.is_over());
        assert!(!g.guess("8").won);
    }
    assert!(g.is_over());
    assert_eq!(
        g.failure_message(),
        "your have failed to guess the number after 10 attempts. the number was 7!"
    );
}

#[test]
fn the_secret_number_written_out_wins() {
    for draw in [0u32, 5, 99, 1234] {
        let mut g = GuessGame::from_draw(draw);
        let n = g.number();
        assert!(g.guess(&n.to_string()).won);
    }
}
