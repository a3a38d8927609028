use discord_bot::black_jack::{
    bet_rejection, black_jack_score, funds_check, move_from_reply, BlackJack, DoubleAction, Move,
    Outcome, Phase, PlayerAction, StakeCheck,
};
use discord_bot::card::Card;

const ACE: u32 = 0;
const TWO: u32 = 1;
const FIVE: u32 = 4;
const SIX: u32 = 5;
const SEVEN: u32 = 6;
const EIGHT: u32 = 7;
const NINE: u32 = 8;
const TEN: u32 = 9;
const JACK: u32 = 10;
const QUEEN: u32 = 11;
const KING: u32 = 12;

fn hand(ids: &[u32]) -> Vec<Card> {
    ids.iter().map(|&i| Card::new(i)).collect()
}

fn glyph(id: u32) -> String {
    Card::new(id).to_string()
}

/// A deck whose top cards, in dealing order, are `top`, over a filler of fives.
fn deck(top: &[u32]) -> Vec<Card> {
    let mut d: Vec<Card> = (0..40).map(|_| Card::new(FIVE + 13)).collect();
    for &id in top.iter().rev() {
        d.push(Card::new(id));
    }
    d
}

#[test]
fn scores_count_aces_high_when_they_fit() {
    assert_eq!(black_jack_score(&hand(&[])), 0);
    assert_eq!(black_jack_score(&hand(&[ACE, KING])), 21);
    assert_eq!(black_jack_score(&hand(&[ACE, ACE])), 12);
    assert_eq!(black_jack_score(&hand(&[ACE, ACE, NINE])), 21);
    assert_eq!(black_jack_score(&hand(&[ACE, FIVE, NINE])), 15);
    assert_eq!(black_jack_score(&hand(&[KING, QUEEN, FIVE])), 25);
    assert_eq!(black_jack_score(&hand(&[JACK, TEN + 13, TWO + 26])), 22);
    assert_eq!(black_jack_score(&hand(&[ACE + 39, ACE + 13, ACE, ACE + 26])), 14);
    assert_eq!(black_jack_score(&hand(&[SEVEN])), 7);
}

#[test]
fn score_does_not_depend_on_card_order() {
    let a = hand(&[ACE, FIVE, KING, ACE + 13]);
    let b = hand(&[KING, ACE + 13, FIVE, ACE]);
    assert_eq!(black_jack_score(&a), black_jack_score(&b));
    assert_eq!(black_jack_score(&a), 17);
}

#[test]
fn score_stays_within_ten_of_the_raw_sum() {
    let h = hand(&[ACE, SIX]);
    assert_eq!(black_jack_score(&h), 17);
    let h = hand(&[ACE, SIX, KING]);
    assert_eq!(black_jack_score(&h), 17);
}

#[test]
fn reading_moves_from_replies() {
    assert!(move_from_reply("h") == Move::Hit);
    assert!(move_from_reply("Hit me") == Move::Hit);
    assert!(move_from_reply("s") == Move::Stand);
    assert!(move_from_reply("S") == Move::Stand);
    assert!(move_from_reply("double") == Move::Double);
    assert!(move_from_reply("D") == Move::Double);
    assert!(move_from_reply("") == Move::Other);
    assert!(move_from_reply("x") == Move::Other);
    assert!(move_from_reply(" h") == Move::Other);
}

#[test]
fn stakes_must_be_positive_and_covered() {
    assert_eq!(bet_rejection(0), Some("can't bet 0$".to_string()));
    assert_eq!(bet_rejection(-5), Some("can't bet -5$".to_string()));
    assert_eq!(bet_rejection(1), None);
    match funds_check(100, 40) {
        StakeCheck::Refused(m) => assert_eq!(m, "you only have 40$"),
        _ => panic!("stake should be refused"),
    }
    match funds_check(100, 100) {
        StakeCheck::Accepted { debit, message } => {
            assert_eq!(debit, -100);
            assert_eq!(message, "depositing 100$");
        }
        _ => panic!("stake should be accepted"),
    }
}

#[test]
fn dealing_takes_the_top_cards() {
    let g = BlackJack::deal(deck(&[KING, SIX, TEN, SEVEN]), 10);
    let ids: Vec<u8> = g.players_cards().iter().map(|c| c.id()).collect();
    assert_eq!(ids, vec![KING as u8, SIX as u8]);
    let ids: Vec<u8> = g.dealers_cards().iter().map(|c| c.id()).collect();
    assert_eq!(ids, vec![TEN as u8, SEVEN as u8]);
    assert_eq!(g.cards_left(), 40);
    assert_eq!(g.bet(), 10);
    assert!(g.first_turn());
    assert!(g.phase() == Phase::PlayerTurn);
}

#[test]
fn opening_message_shows_one_dealer_card() {
    let g = BlackJack::deal(deck(&[KING, SIX, TEN, SEVEN]), 10);
    let expected = format!(
        "dealers cards: XX 7 score: {} \nplayers cards: {} {} score: 16\n\nhit(h), stand(s) or double(d)",
        glyph(SEVEN),
        glyph(KING),
        glyph(SIX)
    );
    assert_eq!(g.opening_message(), expected);
}

#[test]
fn hitting_past_21_busts_and_the_dealer_wins() {
    let mut g = BlackJack::deal(deck(&[KING, SIX, TEN, SEVEN, NINE]), 10);
    match g.player_move(Move::Hit) {
        PlayerAction::SayAndEnd(m) => assert_eq!(
            m,
            format!(
                "players cards: {} {} {} \nscore: 25\n\nhit(h) or stand(s)\nbust!",
                glyph(KING),
                glyph(SIX),
                glyph(NINE)
            )
        ),
        _ => panic!("the player should bust"),
    }
    assert!(g.phase() == Phase::DealerTurn);
    assert!(g.dealer_step().is_none());
    assert!(g.phase() == Phase::Finished);
    match g.settle() {
        Outcome::DealerWins(m) => assert_eq!(m, "dealer wins!"),
        _ => panic!("the dealer should win"),
    }
}

#[test]
fn hitting_under_21_keeps_the_turn() {
    let mut g = BlackJack::deal(deck(&[TWO, SIX, TEN, SEVEN, FIVE]), 10);
    match g.player_move(Move::Hit) {
        PlayerAction::Say(m) => assert_eq!(
            m,
            format!(
                "players cards: {} {} {} \nscore: 13\n\nhit(h) or stand(s)",
                glyph(TWO),
                glyph(SIX),
                glyph(FIVE)
            )
        ),
        _ => panic!("the player should keep playing"),
    }
    assert!(g.phase() == Phase::PlayerTurn);
    assert!(!g.first_turn());
}

#[test]
fn dealer_draws_to_17_and_busts() {
    let mut g = BlackJack::deal(deck(&[KING, QUEEN, TEN, SIX, KING + 13]), 25);
    assert!(matches!(g.player_move(Move::Stand), PlayerAction::End));
    assert_eq!(
        g.dealer_message(),
        format!("dealers cards: {} {} \nscore: 16", glyph(TEN), glyph(SIX))
    );
    let d = g.dealer_step().expect("the dealer draws under 17");
    assert!(d.busted);
    assert_eq!(
        d.content,
        format!(
            "dealers cards: {} {} {} \nscore: 26\ndealer is busted",
            glyph(TEN),
            glyph(SIX),
            glyph(KING + 13)
        )
    );
    assert!(g.dealer_step().is_none());
    match g.settle() {
        Outcome::PlayerWins { reward, message } => {
            assert_eq!(reward, 50);
            assert_eq!(message, "player wins!\ngiving 50$");
        }
        _ => panic!("the player should win"),
    }
}

#[test]
fn dealer_stands_once_at_17() {
    let mut g = BlackJack::deal(deck(&[KING, QUEEN, TEN, FIVE, TWO, TWO + 13, TWO + 26]), 5);
    g.player_move(Move::Stand);
    let d = g.dealer_step().unwrap();
    assert!(!d.busted);
    assert!(d.content.ends_with("score: 17"));
    assert!(g.dealer_step().is_none());
    assert_eq!(black_jack_score(g.dealers_cards()), 17);
    assert_eq!(g.dealers_cards().len(), 3);
}

#[test]
fn ties_go_to_the_player() {
    let mut g = BlackJack::deal(deck(&[TEN, SEVEN, NINE, EIGHT]), 7);
    g.player_move(Move::Stand);
    assert!(g.dealer_step().is_none());
    match g.settle() {
        Outcome::PlayerWins { reward, .. } => assert_eq!(reward, 14),
        _ => panic!("a tie goes to the player"),
    }
}

#[test]
fn double_needs_funds_and_the_first_turn() {
    let mut g = BlackJack::deal(deck(&[FIVE, SIX, TEN, SEVEN, TEN + 13]), 100);
    assert!(matches!(g.player_move(Move::Double), PlayerAction::CheckFunds));
    assert!(g.phase() == Phase::AwaitingFunds);
    match g.double_down(50) {
        DoubleAction::Refused(m) => assert_eq!(m, "you only have 50$\n continuing the game"),
        _ => panic!("the double should be refused"),
    }
    assert!(g.phase() == Phase::PlayerTurn);
    match g.player_move(Move::Double) {
        PlayerAction::SayAndEnd(m) => assert_eq!(m, "can't double after first turn"),
        _ => panic!("no double after the first turn"),
    }
    assert!(g.phase() == Phase::DealerTurn);
    assert_eq!(g.bet(), 100);
}

#[test]
fn double_doubles_the_stake_and_draws_one_card() {
    let mut g = BlackJack::deal(deck(&[FIVE, SIX, TEN, SEVEN, TEN + 13]), 100);
    assert!(matches!(g.player_move(Move::Double), PlayerAction::CheckFunds));
    match g.double_down(500) {
        DoubleAction::Deposited { debit, message } => {
            assert_eq!(debit, -100);
            assert_eq!(message, "depositing another 100$");
        }
        _ => panic!("the double should go through"),
    }
    assert!(g.phase() == Phase::Doubling);
    assert_eq!(g.bet(), 100);
    let hand = g.complete_double().expect("the doubled hand is dealt");
    assert_eq!(
        hand,
        format!(
            "players cards: {} {} {} \nscore: 21",
            glyph(FIVE),
            glyph(SIX),
            glyph(TEN + 13)
        )
    );
    assert!(g.complete_double().is_none());
    assert_eq!(g.bet(), 200);
    assert!(g.phase() == Phase::DealerTurn);
    assert!(g.dealer_step().is_none());
    assert!(g.player_wins());
    match g.settle() {
        Outcome::PlayerWins { reward, message } => {
            assert_eq!(reward, 400);
            assert_eq!(message, "player wins!\ngiving 400$");
        }
        _ => panic!("21 beats 17"),
    }
}

#[test]
fn a_doubled_hand_can_bust() {
    let mut g = BlackJack::deal(deck(&[TEN, SIX, TEN, SEVEN, KING]), 10);
    g.player_move(Move::Double);
    assert!(matches!(g.double_down(20), DoubleAction::Deposited { .. }));
    let hand = g.complete_double().unwrap();
    assert!(hand.ends_with("score: 26\nbust!"));
}

#[test]
fn a_large_stake_lost_to_the_dealer_settles() {
    let mut g = BlackJack::deal(deck(&[TWO, TWO + 13, TEN, TEN + 13]), 2_000_000_000);
    g.player_move(Move::Stand);
    assert!(g.dealer_step().is_none());
    assert!(!g.player_wins());
    match g.settle() {
        Outcome::DealerWins(m) => assert_eq!(m, "dealer wins!"),
        _ => panic!("20 beats 4"),
    }
}

#[test]
fn dealers_turn_is_announced() {
    assert_eq!(BlackJack::dealers_turn_message(), "dealers turn");
}

#[test]
fn suits_do_not_count() {
    let a = hand(&[ACE, KING, FIVE]);
    let b = hand(&[ACE + 13, KING + 26, FIVE + 39]);
    assert_eq!(black_jack_score(&a), black_jack_score(&b));
    assert_eq!(black_jack_score(&a), 16);
}

#[test]
fn any_other_reply_ends_the_first_turn() {
    let mut g = BlackJack::deal(deck(&[FIVE, SIX, TEN, SEVEN]), 10);
    assert!(matches!(g.player_move(Move::Other), PlayerAction::Nothing));
    assert!(!g.first_turn());
    assert!(matches!(g.player_move(Move::Double), PlayerAction::SayAndEnd(_)));
}

#[test]
fn moves_outside_the_players_turn_do_nothing() {
    let mut g = BlackJack::deal(deck(&[FIVE, SIX, TEN, SEVEN]), 10);
    assert!(matches!(g.double_down(1000), DoubleAction::Ignored));
    assert!(g.dealer_step().is_none());
    g.player_move(Move::Stand);
    assert!(matches!(g.player_move(Move::Hit), PlayerAction::Nothing));
    assert_eq!(g.players_cards().len(), 2);
}

#[test]
fn a_random_game_keeps_every_card() {
    let mut g = BlackJack::new(10);
    assert_eq!(g.cards_left(), 308);
    loop {
        match g.player_move(Move::Hit) {
            PlayerAction::Say(_) => {}
            _ => break,
        }
    }
    while let Some(d) = g.dealer_step() {
        if d.busted {
            break;
        }
    }
    let total = g.cards_left() + g.players_cards().len() + g.dealers_cards().len();
    assert_eq!(total, 312);
    assert!(black_jack_score(g.players_cards()) > 21 || black_jack_score(g.dealers_cards()) >= 17);
}
