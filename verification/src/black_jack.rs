use crate::card::{Card, card_glyph, shoe};
use crate::text::{decimal, push_char, push_i64};
use vstd::multiset::Multiset;
use vstd::prelude::*;
use vstd::string::StringExecFns;

verus! {

broadcast use vstd::seq_lib::group_to_multiset_ensures;

/// The points a card counts for before any ace is promoted: an ace counts 1,
/// ten and the faces 10, the others their pip value.
pub open spec fn card_points(c: Card) -> nat {
    let rank = c@ % 13;
    if rank == 0 {
        1
    } else if rank >= 10 {
        10
    } else {
        (rank + 1) as nat
    }
}

/// Whether a card is an ace.
pub open spec fn is_ace(c: Card) -> bool {
    c@ % 13 == 0
}

/// The sum of the cards' points, every ace counting 1.
pub open spec fn hand_raw(s: Seq<Card>) -> nat
    decreases s.len(),
{
    if s.len() == 0 {
        0
    } else {
        hand_raw(s.drop_last()) + card_points(s.last())
    }
}

/// The number of aces in a hand.
pub open spec fn hand_aces(s: Seq<Card>) -> nat
    decreases s.len(),
{
    if s.len() == 0 {
        0
    } else {
        hand_aces(s.drop_last()) + if is_ace(s.last()) {
            1nat
        } else {
            0nat
        }
    }
}

/// The blackjack value of a hand: the raw sum, plus 10 when the hand holds an
/// ace that can count 11 without going over 21.
pub open spec fn hand_value(s: Seq<Card>) -> nat {
    if hand_aces(s) > 0 && hand_raw(s) + 10 <= 21 {
        hand_raw(s) + 10
    } else {
        hand_raw(s)
    }
}

/// Whether `black_jack_score` can add up the hand without overflowing a `u32`.
pub open spec fn score_fits(s: Seq<Card>) -> bool {
    &&& hand_raw(s) <= u32::MAX
    &&& hand_aces(s) > 0 ==> hand_raw(s) + 10 <= u32::MAX
}

/// Every card counts at least one point and an ace exactly one, so the raw sum
/// bounds both the number of aces and the number of cards.
pub proof fn lemma_raw_bounds(s: Seq<Card>)
    ensures
        hand_aces(s) <= hand_raw(s),
        s.len() <= hand_raw(s),
        hand_raw(s) <= 10 * s.len(),
    decreases s.len(),
{
    if s.len() > 0 {
        lemma_raw_bounds(s.drop_last());
    }
}

proof fn lemma_prefix_step(s: Seq<Card>, i: int)
    requires
        0 <= i < s.len(),
    ensures
        hand_raw(s.take(i + 1)) == hand_raw(s.take(i)) + card_points(s[i]),
        hand_aces(s.take(i + 1)) == hand_aces(s.take(i)) + if is_ace(s[i]) {
            1nat
        } else {
            0nat
        },
{
    assert(s.take(i + 1).drop_last() =~= s.take(i));
}

proof fn lemma_prefix_raw_le(s: Seq<Card>, i: int)
    requires
        0 <= i <= s.len(),
    ensures
        hand_raw(s.take(i)) <= hand_raw(s),
    decreases s.len() - i,
{
    if i < s.len() {
        lemma_prefix_step(s, i);
        lemma_prefix_raw_le(s, i + 1);
    } else {
        assert(s.take(i) =~= s);
    }
}

/// The blackjack score of a hand.
pub fn black_jack_score(players_card: &Vec<Card>) -> (score: u32)
    requires
        score_fits(players_card@),
    ensures
        score == hand_value(players_card@),
{
    let mut ace_count: u32 = 0;
    let mut score: u32 = 0;
    let n = players_card.len();
    let mut i: usize = 0;
    while i < n
        invariant
            n == players_card@.len(),
            i <= n,
            score_fits(players_card@),
            score == hand_raw(players_card@.take(i as int)),
            ace_count == hand_aces(players_card@.take(i as int)),
        decreases n - i,
    {
        proof {
            lemma_prefix_step(players_card@, i as int);
            lemma_prefix_raw_le(players_card@, i + 1);
            lemma_raw_bounds(players_card@.take(i + 1));
        }
        let number = players_card[i].number();
        let points: u32 = if number == 0 {
            ace_count = ace_count + 1;
            1
        } else if number >= 10 {
            10
        } else {
            number + 1
        };
        score = score + points;
        i = i + 1;
    }
    assert(players_card@.take(n as int) =~= players_card@);
    let ghost raw = score as int;
    proof {
        lemma_raw_bounds(players_card@);
    }
    let mut k: u32 = 0;
    while k < ace_count
        invariant_except_break
            k <= ace_count,
            score == raw + 10 * k,
            k > 0 ==> score <= 21,
            ace_count <= raw,
            ace_count > 0 ==> raw + 10 <= u32::MAX,
        ensures
            score == (if ace_count > 0 && raw + 10 <= 21 { raw + 10 } else { raw }),
        decreases ace_count - k,
    {
        if score + 10 > 21 {
            break;
        } else {
            score = score + 10;
        }
        k = k + 1;
    }
    score
}


/// The cards of a hand as the bot shows them: each glyph followed by a space.
pub open spec fn cards_text(s: Seq<Card>) -> Seq<char>
    decreases s.len(),
{
    if s.len() == 0 {
        Seq::empty()
    } else {
        cards_text(s.drop_last()) + seq![card_glyph(s.last()@), ' ']
    }
}

/// Appends the glyphs of `cards`, each followed by a space.
fn push_cards(s: &mut String, cards: &Vec<Card>)
    ensures
        final(s)@ == old(s)@ + cards_text(cards@),
{
    let n = cards.len();
    let mut i: usize = 0;
    while i < n
        invariant
            n == cards@.len(),
            i <= n,
            s@ == old(s)@ + cards_text(cards@.take(i as int)),
        decreases n - i,
    {
        let glyph = cards[i].to_string();
        s.append(glyph.as_str());
        push_char(s, ' ');
        assert(cards@.take(i + 1).drop_last() =~= cards@.take(i as int));
        i = i + 1;
    }
    assert(cards@.take(n as int) =~= cards@);
}

/// The stages of one game.
#[derive(PartialEq, Eq, Structural, Clone, Copy)]
pub enum Phase {
    /// The player chooses: hit, stand or double.
    PlayerTurn,
    /// The player asked to double on the first turn; their balance is needed.
    AwaitingFunds,
    /// The extra stake of a double is taken; the doubled hand is dealt next.
    Doubling,
    /// The dealer draws to 17.
    DealerTurn,
    /// The dealer has stood; the game can be settled.
    Finished,
}

/// What the player's reply asks for.
#[derive(PartialEq, Eq, Structural, Clone, Copy)]
pub enum Move {
    Hit,
    Stand,
    Double,
    Other,
}

/// The move that a reply starting with `c` asks for (`h`, `s` or `d`, in
/// either case).
pub open spec fn move_of_char(c: char) -> Move {
    if c == 'h' || c == 'H' {
        Move::Hit
    } else if c == 's' || c == 'S' {
        Move::Stand
    } else if c == 'd' || c == 'D' {
        Move::Double
    } else {
        Move::Other
    }
}

/// The move that a reply asks for, read from its first character (an empty
/// reply asks for nothing).
pub fn move_from_reply(reply: &str) -> (mv: Move)
    ensures
        mv == move_of_char(if reply@.len() == 0 { ' ' } else { reply@[0] }),
{
    let c = if reply.unicode_len() == 0 { ' ' } else { reply.get_char(0) };
    if c == 'h' || c == 'H' {
        Move::Hit
    } else if c == 's' || c == 'S' {
        Move::Stand
    } else if c == 'd' || c == 'D' {
        Move::Double
    } else {
        Move::Other
    }
}

/// The abstract state of a game.
pub struct GameView {
    pub deck: Seq<Card>,
    pub player: Seq<Card>,
    pub dealer: Seq<Card>,
    pub bet: i32,
    pub first_turn: bool,
    pub phase: Phase,
}

/// The fewest cards a game starts from so that no play can run the deck dry:
/// the player holds at most 22 cards and the dealer at most 17.
pub const MIN_DECK: usize = 39;

impl GameView {
    /// Every card of the game, wherever it lies.
    pub open spec fn all_cards(self) -> Multiset<Card> {
        self.deck.to_multiset().add(self.player.to_multiset()).add(self.dealer.to_multiset())
    }

    /// What holds of every game between two calls.
    pub open spec fn wf(self) -> bool {
        &&& self.bet > 0
        &&& self.deck.len() + self.player.len() + self.dealer.len() >= MIN_DECK
        &&& self.player.len() >= 2
        &&& self.dealer.len() >= 2
        &&& (self.phase is PlayerTurn || self.phase is AwaitingFunds || self.phase is Doubling)
            ==> {
            &&& hand_raw(self.player) <= 21
            &&& self.dealer.len() == 2
        }
        &&& (self.phase is AwaitingFunds || self.phase is Doubling) ==> self.first_turn
        &&& (self.phase is PlayerTurn || self.phase is AwaitingFunds || self.phase is Doubling)
            && self.first_turn ==> self.player.len() == 2
        &&& (self.phase is DealerTurn || self.phase is Finished) ==> {
            &&& self.player.len() <= 22
            &&& self.dealer.len() <= 17
        }
        &&& self.phase is Finished ==> hand_value(self.dealer) >= 17
    }
}

/// The message that shows the player's hand and score.
pub open spec fn player_hand_text(player: Seq<Card>) -> Seq<char> {
    "players cards: "@ + cards_text(player) + "\nscore: "@ + decimal(hand_value(player) as int)
}

/// `"\nbust!"` when the hand is over 21, else nothing.
pub open spec fn bust_note(player: Seq<Card>) -> Seq<char> {
    if hand_value(player) > 21 {
        "\nbust!"@
    } else {
        Seq::empty()
    }
}

/// The message that shows the dealer's hand and score.
pub open spec fn dealer_hand_text(dealer: Seq<Card>) -> Seq<char> {
    "dealers cards: "@ + cards_text(dealer) + "\nscore: "@ + decimal(hand_value(dealer) as int)
}

/// The first message of a game: one of the dealer's cards (the other one face
/// down) and the player's two cards.
pub open spec fn opening_text(g: GameView) -> Seq<char> {
    "dealers cards: XX "@ + decimal(hand_value(seq![g.dealer[1]]) as int) + " score: "@
        + seq![card_glyph(g.dealer[1]@)] + " \nplayers cards: "@ + seq![card_glyph(g.player[0]@)]
        + " "@ + seq![card_glyph(g.player[1]@)] + " score: "@ + decimal(
        hand_value(g.player) as int,
    ) + "\n\nhit(h), stand(s) or double(d)"@
}

/// What the bot does after a move, in spec form.
pub enum Reply {
    /// Say this; the player keeps playing.
    Say(Seq<char>),
    /// Say this; the player's turn is over.
    SayAndEnd(Seq<char>),
    /// The player's turn is over; nothing to say.
    End,
    /// Look up the player's balance for a double.
    CheckFunds,
    /// Nothing to do.
    Nothing,
}

/// The state after the player's move.
pub open spec fn after_move(g: GameView, mv: Move) -> GameView {
    if !(g.phase is PlayerTurn) {
        g
    } else {
        match mv {
            Move::Hit => {
                let p = g.player.push(g.deck.last());
                let bust = hand_value(p) > 21;
                GameView {
                    deck: g.deck.drop_last(),
                    player: p,
                    first_turn: if bust { g.first_turn } else { false },
                    phase: if bust { Phase::DealerTurn } else { Phase::PlayerTurn },
                    ..g
                }
            },
            Move::Stand => GameView { phase: Phase::DealerTurn, ..g },
            Move::Double => if g.first_turn {
                GameView { phase: Phase::AwaitingFunds, ..g }
            } else {
                GameView { phase: Phase::DealerTurn, ..g }
            },
            Move::Other => GameView { first_turn: false, ..g },
        }
    }
}

/// What the bot does after the player's move.
pub open spec fn move_reply(g: GameView, mv: Move) -> Reply {
    if !(g.phase is PlayerTurn) {
        Reply::Nothing
    } else {
        match mv {
            Move::Hit => {
                let p = g.player.push(g.deck.last());
                let text = player_hand_text(p) + "\n\nhit(h) or stand(s)"@ + bust_note(p);
                if hand_value(p) > 21 {
                    Reply::SayAndEnd(text)
                } else {
                    Reply::Say(text)
                }
            },
            Move::Stand => Reply::End,
            Move::Double => if g.first_turn {
                Reply::CheckFunds
            } else {
                Reply::SayAndEnd("can't double after first turn"@)
            },
            Move::Other => Reply::Nothing,
        }
    }
}

/// What the bot does after a move.
pub enum PlayerAction {
    /// Say this; the player keeps playing.
    Say(String),
    /// Say this; the player's turn is over.
    SayAndEnd(String),
    /// The player's turn is over; nothing to say.
    End,
    /// The player doubles on the first turn: look up their balance and hand it
    /// to `double_down`.
    CheckFunds,
    /// Nothing to do; the player keeps playing.
    Nothing,
}

/// The spec form of an action.
pub open spec fn player_action_view(a: PlayerAction) -> Reply {
    match a {
        PlayerAction::Say(s) => Reply::Say(s@),
        PlayerAction::SayAndEnd(s) => Reply::SayAndEnd(s@),
        PlayerAction::End => Reply::End,
        PlayerAction::CheckFunds => Reply::CheckFunds,
        PlayerAction::Nothing => Reply::Nothing,
    }
}

/// The state after the player's balance `money` is checked for a double.
pub open spec fn after_double(g: GameView, money: i32) -> GameView {
    if !(g.phase is AwaitingFunds) {
        g
    } else if money < g.bet {
        GameView { phase: Phase::PlayerTurn, first_turn: false, ..g }
    } else {
        GameView { phase: Phase::Doubling, ..g }
    }
}

/// What checking the balance for a double does, in spec form.
pub enum DoubleReply {
    Refused(Seq<char>),
    Deposited { debit: i32, message: Seq<char> },
    Ignored,
}

/// What checking the balance `money` for a double does.
pub open spec fn double_reply(g: GameView, money: i32) -> DoubleReply {
    if !(g.phase is AwaitingFunds) {
        DoubleReply::Ignored
    } else if money < g.bet {
        DoubleReply::Refused(
            "you only have "@ + decimal(money as int) + "$\n continuing the game"@,
        )
    } else {
        DoubleReply::Deposited {
            debit: (-g.bet) as i32,
            message: "depositing another "@ + decimal(g.bet as int) + "$"@,
        }
    }
}

/// What checking the balance for a double does.
pub enum DoubleAction {
    /// Not enough money: say this; the player keeps playing.
    Refused(String),
    /// Add `debit` (minus the stake) to the player's balance and say
    /// `message`; then `complete_double` deals the doubled hand.
    Deposited { debit: i32, message: String },
    /// The game was not waiting for a double.
    Ignored,
}

/// The spec form of a double's action.
pub open spec fn double_action_view(a: DoubleAction) -> DoubleReply {
    match a {
        DoubleAction::Refused(s) => DoubleReply::Refused(s@),
        DoubleAction::Deposited { debit, message } => DoubleReply::Deposited {
            debit,
            message: message@,
        },
        DoubleAction::Ignored => DoubleReply::Ignored,
    }
}

/// The state after the doubled hand is dealt: the stake doubles, the player
/// gets one more card, and the player's turn is over.
pub open spec fn after_complete_double(g: GameView) -> GameView {
    if !(g.phase is Doubling) {
        g
    } else {
        GameView {
            deck: g.deck.drop_last(),
            player: g.player.push(g.deck.last()),
            bet: (2 * g.bet) as i32,
            phase: Phase::DealerTurn,
            ..g
        }
    }
}

/// The message that shows the doubled hand, or nothing outside that stage.
pub open spec fn complete_double_text(g: GameView) -> Option<Seq<char>> {
    if !(g.phase is Doubling) {
        None
    } else {
        let p = g.player.push(g.deck.last());
        Some(player_hand_text(p) + bust_note(p))
    }
}

/// The state after one step of the dealer's turn.
pub open spec fn after_dealer_step(g: GameView) -> GameView {
    if !(g.phase is DealerTurn) {
        g
    } else if hand_value(g.dealer) >= 17 {
        GameView { phase: Phase::Finished, ..g }
    } else {
        GameView { deck: g.deck.drop_last(), dealer: g.dealer.push(g.deck.last()), ..g }
    }
}

/// A card the dealer drew: the new text of the dealer's message, and whether
/// the dealer went over 21.
pub struct DealerDraw {
    pub content: String,
    pub busted: bool,
}

/// A hand's score at settlement: a bust counts 0.
pub open spec fn settled_score(s: Seq<Card>) -> nat {
    if hand_value(s) > 21 {
        0
    } else {
        hand_value(s)
    }
}

/// How a game ends.
pub enum Outcome {
    /// Say this; the stake is lost.
    DealerWins(String),
    /// Pay `reward` to the player and say `message`.
    PlayerWins { reward: i32, message: String },
}

/// Moves the top card of `deck` to the end of `hand`.
fn draw(deck: &mut Vec<Card>, hand: &mut Vec<Card>)
    requires
        old(deck)@.len() > 0,
    ensures
        final(deck)@ == old(deck)@.drop_last(),
        final(hand)@ == old(hand)@.push(old(deck)@.last()),
        final(deck)@.to_multiset().add(final(hand)@.to_multiset()) == old(
            deck,
        )@.to_multiset().add(old(hand)@.to_multiset()),
{
    let top = deck.pop();
    match top {
        Some(c) => {
            hand.push(c);
            proof {
                assert(old(deck)@ =~= final(deck)@.push(c));
                assert(final(deck)@.to_multiset().add(final(hand)@.to_multiset()) =~= old(
                    deck,
                )@.to_multiset().add(old(hand)@.to_multiset()));
            }
        },
        None => {},
    }
}

/// A game of blackjack between the bot (the dealer) and one player.
pub struct BlackJack {
    deck: Vec<Card>,
    players_cards: Vec<Card>,
    dealers_cards: Vec<Card>,
    bet_amount: i32,
    first_turn: bool,
    phase: Phase,
}

impl View for BlackJack {
    type V = GameView;

    closed spec fn view(&self) -> GameView {
        GameView {
            deck: self.deck@,
            player: self.players_cards@,
            dealer: self.dealers_cards@,
            bet: self.bet_amount,
            first_turn: self.first_turn,
            phase: self.phase,
        }
    }
}

proof fn lemma_two_cards(a: Card, b: Card)
    ensures
        hand_raw(seq![a, b]) <= 20,
{
    lemma_raw_bounds(seq![a, b]);
}

impl BlackJack {
    /// Deals from `deck`: the player gets the top two cards, the dealer the
    /// next two; `bet` is the stake.
    pub fn deal(deck: Vec<Card>, bet: i32) -> (game: BlackJack)
        requires
            deck@.len() >= MIN_DECK,
            bet > 0,
        ensures
            game@.wf(),
            game@.all_cards() == deck@.to_multiset(),
            game@.player == seq![deck@[deck@.len() - 1], deck@[deck@.len() - 2]],
            game@.dealer == seq![deck@[deck@.len() - 3], deck@[deck@.len() - 4]],
            game@.deck == deck@.take(deck@.len() - 4),
            game@.bet == bet,
            game@.first_turn,
            game@.phase == Phase::PlayerTurn,
    {
        let mut deck = deck;
        let ghost d = deck@;
        let mut players_cards: Vec<Card> = Vec::new();
        let mut dealers_cards: Vec<Card> = Vec::new();
        proof {
            Seq::<Card>::empty().to_multiset_ensures();
            vstd::multiset::lemma_multiset_empty_len(Seq::<Card>::empty().to_multiset());
        }
        draw(&mut deck, &mut players_cards);
        draw(&mut deck, &mut players_cards);
        let ghost after_player = deck@.to_multiset().add(players_cards@.to_multiset());
        assert(after_player =~= d.to_multiset());
        let ghost mid = deck@;
        draw(&mut deck, &mut dealers_cards);
        draw(&mut deck, &mut dealers_cards);
        assert(deck@.to_multiset().add(dealers_cards@.to_multiset()) =~= mid.to_multiset());
        proof {
            lemma_two_cards(players_cards@[0], players_cards@[1]);
            assert(players_cards@ =~= seq![players_cards@[0], players_cards@[1]]);
            assert(players_cards@ =~= seq![d[d.len() - 1], d[d.len() - 2]]);
            assert(dealers_cards@ =~= seq![d[d.len() - 3], d[d.len() - 4]]);
            assert(deck@ =~= d.take(d.len() - 4));
            assert(deck@.to_multiset().add(players_cards@.to_multiset()).add(
                dealers_cards@.to_multiset(),
            ) =~= d.to_multiset());
        }
        BlackJack {
            deck,
            players_cards,
            dealers_cards,
            bet_amount: bet,
            first_turn: true,
            phase: Phase::PlayerTurn,
        }
    }

    /// A new game with a freshly shuffled shoe of six decks and stake `bet`.
    pub fn new(bet: i32) -> (game: BlackJack)
        requires
            bet > 0,
        ensures
            game@.wf(),
            game@.all_cards() == shoe().to_multiset(),
            game@.player.len() == 2,
            game@.dealer.len() == 2,
            game@.deck.len() == 308,
            game@.bet == bet,
            game@.first_turn,
            game@.phase == Phase::PlayerTurn,
    {
        let deck = Card::create_deck();
        BlackJack::deal(deck, bet)
    }

    /// How many cards are left in the deck.
    pub fn cards_left(&self) -> (r: usize)
        ensures
            r == self@.deck.len(),
    {
        self.deck.len()
    }

    /// Whether this is still the player's first decision.
    pub fn first_turn(&self) -> (r: bool)
        ensures
            r == self@.first_turn,
    {
        self.first_turn
    }

    /// The current stake.
    pub fn bet(&self) -> (r: i32)
        ensures
            r == self@.bet,
    {
        self.bet_amount
    }

    /// The stage the game is in.
    pub fn phase(&self) -> (r: Phase)
        ensures
            r == self@.phase,
    {
        self.phase
    }

    /// The player's cards.
    pub fn players_cards(&self) -> (r: &Vec<Card>)
        ensures
            r@ == self@.player,
    {
        &self.players_cards
    }

    /// The dealer's cards.
    pub fn dealers_cards(&self) -> (r: &Vec<Card>)
        ensures
            r@ == self@.dealer,
    {
        &self.dealers_cards
    }

    /// The first message of the game.
    pub fn opening_message(&self) -> (s: String)
        requires
            self@.wf(),
        ensures
            s@ == opening_text(self@),
    {
        let up = self.dealers_cards[1];
        let up_hand = vec![up];
        proof {
            lemma_raw_bounds(up_hand@);
            lemma_raw_bounds(self@.player);
            assert(up_hand@ =~= seq![self@.dealer[1]]);
        }
        let up_score = black_jack_score(&up_hand);
        let player_score = black_jack_score(&self.players_cards);
        let mut s = String::new();
        s.append("dealers cards: XX ");
        push_i64(&mut s, up_score as i64);
        s.append(" score: ");
        let t = up.to_string();
        s.append(t.as_str());
        s.append(" \nplayers cards: ");
        let t = self.players_cards[0].to_string();
        s.append(t.as_str());
        s.append(" ");
        let t = self.players_cards[1].to_string();
        s.append(t.as_str());
        s.append(" score: ");
        push_i64(&mut s, player_score as i64);
        s.append("\n\nhit(h), stand(s) or double(d)");
        s
    }

    /// The message that shows the player's hand, with its score `score`.
    fn player_hand_message(&self, score: u32) -> (s: String)
        requires
            score == hand_value(self.players_cards@),
        ensures
            s@ == player_hand_text(self.players_cards@),
    {
        let mut s = String::new();
        s.append("players cards: ");
        push_cards(&mut s, &self.players_cards);
        s.append("\nscore: ");
        push_i64(&mut s, score as i64);
        s
    }

    /// The message that opens the dealer's turn.
    pub fn dealers_turn_message() -> (s: String)
        ensures
            s@ == "dealers turn"@,
    {
        let mut s = String::new();
        s.append("dealers turn");
        s
    }

    /// The message that shows the dealer's hand and score.
    pub fn dealer_message(&self) -> (s: String)
        requires
            self@.wf(),
        ensures
            s@ == dealer_hand_text(self@.dealer),
    {
        proof {
            lemma_raw_bounds(self@.dealer);
        }
        let score = black_jack_score(&self.dealers_cards);
        let mut s = String::new();
        s.append("dealers cards: ");
        push_cards(&mut s, &self.dealers_cards);
        s.append("\nscore: ");
        push_i64(&mut s, score as i64);
        s
    }

    /// Plays the player's move. Outside the player's turn nothing happens.
    pub fn player_move(&mut self, mv: Move) -> (action: PlayerAction)
        requires
            old(self)@.wf(),
        ensures
            final(self)@.wf(),
            final(self)@.all_cards() == old(self)@.all_cards(),
            final(self)@ == after_move(old(self)@, mv),
            player_action_view(action) == move_reply(old(self)@, mv),
    {
        if self.phase != Phase::PlayerTurn {
            return PlayerAction::Nothing;
        }
        proof {
            lemma_raw_bounds(self@.player);
        }
        match mv {
            Move::Hit => {
                draw(&mut self.deck, &mut self.players_cards);
                proof {
                    lemma_raw_bounds(self.players_cards@);
                }
                let score = black_jack_score(&self.players_cards);
                let mut text = self.player_hand_message(score);
                text.append("\n\nhit(h) or stand(s)");
                if score > 21 {
                    text.append("\nbust!");
                    self.phase = Phase::DealerTurn;
                    proof {
                        assert(self@.all_cards() =~= old(self)@.all_cards());
                    }
                    PlayerAction::SayAndEnd(text)
                } else {
                    self.first_turn = false;
                    proof {
                        assert(text@ =~= player_hand_text(self@.player) + "\n\nhit(h) or stand(s)"@
                            + bust_note(self@.player));
                        assert(self@.all_cards() =~= old(self)@.all_cards());
                    }
                    PlayerAction::Say(text)
                }
            },
            Move::Stand => {
                self.phase = Phase::DealerTurn;
                PlayerAction::End
            },
            Move::Double => {
                if !self.first_turn {
                    self.phase = Phase::DealerTurn;
                    let mut text = String::new();
                    text.append("can't double after first turn");
                    PlayerAction::SayAndEnd(text)
                } else {
                    self.phase = Phase::AwaitingFunds;
                    PlayerAction::CheckFunds
                }
            },
            Move::Other => {
                self.first_turn = false;
                PlayerAction::Nothing
            },
        }
    }

    /// Checks a double asked for on the first turn against `money` on the
    /// player's balance. Outside that stage nothing happens.
    pub fn double_down(&mut self, money: i32) -> (action: DoubleAction)
        requires
            old(self)@.wf(),
        ensures
            final(self)@.wf(),
            final(self)@.all_cards() == old(self)@.all_cards(),
            final(self)@ == after_double(old(self)@, money),
            double_action_view(action) == double_reply(old(self)@, money),
    {
        if self.phase != Phase::AwaitingFunds {
            return DoubleAction::Ignored;
        }
        if money < self.bet_amount {
            let mut text = String::new();
            text.append("you only have ");
            push_i64(&mut text, money as i64);
            text.append("$\n continuing the game");
            self.phase = Phase::PlayerTurn;
            self.first_turn = false;
            return DoubleAction::Refused(text);
        }
        let stake = self.bet_amount;
        let mut message = String::new();
        message.append("depositing another ");
        push_i64(&mut message, stake as i64);
        message.append("$");
        self.phase = Phase::Doubling;
        DoubleAction::Deposited { debit: -stake, message }
    }

    /// Deals the doubled hand once the extra stake is taken: the stake
    /// doubles, the player draws one card and the player's turn ends. Gives
    /// the message that shows the hand; outside that stage nothing happens.
    pub fn complete_double(&mut self) -> (hand: Option<String>)
        requires
            old(self)@.wf(),
            old(self)@.phase is Doubling ==> 2 * old(self)@.bet <= i32::MAX,
        ensures
            final(self)@.wf(),
            final(self)@.all_cards() == old(self)@.all_cards(),
            final(self)@ == after_complete_double(old(self)@),
            match hand {
                Some(h) => complete_double_text(old(self)@) == Some(h@),
                None => complete_double_text(old(self)@) is None,
            },
    {
        if self.phase != Phase::Doubling {
            return None;
        }
        self.bet_amount = self.bet_amount * 2;
        proof {
            lemma_raw_bounds(self@.player);
        }
        draw(&mut self.deck, &mut self.players_cards);
        proof {
            lemma_raw_bounds(self.players_cards@);
        }
        let score = black_jack_score(&self.players_cards);
        let mut hand = self.player_hand_message(score);
        if score > 21 {
            hand.append("\nbust!");
        }
        self.phase = Phase::DealerTurn;
        proof {
            assert(hand@ =~= player_hand_text(self@.player) + bust_note(self@.player));
            assert(self@.all_cards() =~= old(self)@.all_cards());
        }
        Some(hand)
    }

    /// One step of the dealer's turn: the dealer draws while the hand is under
    /// 17 and stands otherwise (`None`, and the game is finished). Outside the
    /// dealer's turn nothing happens.
    pub fn dealer_step(&mut self) -> (drawn: Option<DealerDraw>)
        requires
            old(self)@.wf(),
        ensures
            final(self)@.wf(),
            final(self)@.all_cards() == old(self)@.all_cards(),
            final(self)@ == after_dealer_step(old(self)@),
            drawn is None <==> !(old(self)@.phase is DealerTurn) || hand_value(old(self)@.dealer)
                >= 17,
            drawn matches Some(d) ==> {
                &&& d.busted == (hand_value(final(self)@.dealer) > 21)
                &&& d.content@ == dealer_hand_text(final(self)@.dealer) + if d.busted {
                    "\ndealer is busted"@
                } else {
                    Seq::empty()
                }
            },
    {
        if self.phase != Phase::DealerTurn {
            return None;
        }
        proof {
            lemma_raw_bounds(self@.dealer);
        }
        let current = black_jack_score(&self.dealers_cards);
        if current >= 17 {
            self.phase = Phase::Finished;
            return None;
        }
        draw(&mut self.deck, &mut self.dealers_cards);
        proof {
            let d0 = old(self)@.deck.to_multiset();
            let p0 = old(self)@.player.to_multiset();
            let q0 = old(self)@.dealer.to_multiset();
            let d1 = self@.deck.to_multiset();
            let q1 = self@.dealer.to_multiset();
            assert(d1.add(q1) == d0.add(q0));
            assert(self@.all_cards() =~= d1.add(q1).add(p0));
            assert(old(self)@.all_cards() =~= d0.add(q0).add(p0));
        }
        let mut content = self.dealer_message();
        proof {
            lemma_raw_bounds(self@.dealer);
        }
        let score = black_jack_score(&self.dealers_cards);
        let busted = score > 21;
        if busted {
            content.append("\ndealer is busted");
        }
        proof {
            assert(content@ =~= dealer_hand_text(self@.dealer) + if busted {
                "\ndealer is busted"@
            } else {
                Seq::empty()
            });
        }
        Some(DealerDraw { content, busted })
    }

    /// Whether the player wins the game as it stands: a bust counts 0, and the
    /// player wins ties.
    pub fn player_wins(&self) -> (r: bool)
        requires
            self@.wf(),
        ensures
            r == (settled_score(self@.player) >= settled_score(self@.dealer)),
    {
        proof {
            lemma_raw_bounds(self@.dealer);
            lemma_raw_bounds(self@.player);
        }
        let dealer = black_jack_score(&self.dealers_cards);
        let dealers_score = if dealer > 21 { 0 } else { dealer };
        let player = black_jack_score(&self.players_cards);
        let players_score = if player > 21 { 0 } else { player };
        players_score >= dealers_score
    }

    /// Who wins: a bust counts 0, and the player wins ties. A winner gets
    /// twice the stake.
    pub fn settle(&self) -> (outcome: Outcome)
        requires
            self@.wf(),
            settled_score(self@.player) >= settled_score(self@.dealer) ==> 2 * self@.bet
                <= i32::MAX,
        ensures
            settled_score(self@.player) < settled_score(self@.dealer) ==> (outcome matches Outcome::DealerWins(m) && m@ == "dealer wins!"@),
            settled_score(self@.player) >= settled_score(self@.dealer) ==> (outcome matches Outcome::PlayerWins { reward, message } && reward == 2 * self@.bet && message@ == "player wins!\ngiving "@ + decimal(2 * self@.bet) + "$"@),
    {
        proof {
            lemma_raw_bounds(self@.dealer);
            lemma_raw_bounds(self@.player);
        }
        let dealer = black_jack_score(&self.dealers_cards);
        let dealers_score = if dealer > 21 { 0 } else { dealer };
        let player = black_jack_score(&self.players_cards);
        let players_score = if player > 21 { 0 } else { player };
        if players_score < dealers_score {
            let mut message = String::new();
            message.append("dealer wins!");
            Outcome::DealerWins(message)
        } else {
            let reward = self.bet_amount * 2;
            let mut message = String::new();
            message.append("player wins!\ngiving ");
            push_i64(&mut message, reward as i64);
            message.append("$");
            Outcome::PlayerWins { reward, message }
        }
    }
}

/// The answer to a stake: refused, or the amount to take from the player's
/// balance and the message that says so.
pub enum StakeCheck {
    Refused(String),
    Accepted { debit: i32, message: String },
}

/// Checks the stake of a new game: it must be positive.
pub fn bet_rejection(bet: i32) -> (r: Option<String>)
    ensures
        r is Some <==> bet <= 0,
        r matches Some(m) ==> m@ == "can't bet "@ + decimal(bet as int) + "$"@,
{
    if bet <= 0 {
        let mut m = String::new();
        m.append("can't bet ");
        push_i64(&mut m, bet as i64);
        m.append("$");
        Some(m)
    } else {
        None
    }
}

/// Checks a positive stake against the player's balance `money`.
pub fn funds_check(bet: i32, money: i32) -> (r: StakeCheck)
    requires
        bet > 0,
    ensures
        money < bet ==> (r matches StakeCheck::Refused(m) && m@ == "you only have "@ + decimal(
            money as int,
        ) + "$"@),
        money >= bet ==> (r matches StakeCheck::Accepted { debit, message } && debit == -bet
            && message@ == "depositing "@ + decimal(bet as int) + "$"@),
{
    let mut m = String::new();
    if money < bet {
        m.append("you only have ");
        push_i64(&mut m, money as i64);
        m.append("$");
        StakeCheck::Refused(m)
    } else {
        m.append("depositing ");
        push_i64(&mut m, bet as i64);
        m.append("$");
        StakeCheck::Accepted { debit: -bet, message: m }
    }
}


/// An ace is promoted to 11 only when that keeps the hand at 21 or under: the
/// score lies between the raw sum and ten more, and a promoted hand never busts.
pub proof fn law_score_bounds(s: Seq<Card>)
    ensures
        hand_raw(s) <= hand_value(s) <= hand_raw(s) + 10,
        hand_value(s) > hand_raw(s) ==> hand_value(s) <= 21 && hand_aces(s) > 0,
        hand_value(s) > 21 ==> hand_value(s) == hand_raw(s),
        hand_aces(s) > 0 && hand_raw(s) <= 11 ==> hand_value(s) == hand_raw(s) + 10,
        hand_aces(s) == 0 || hand_raw(s) > 11 ==> hand_value(s) == hand_raw(s),
{
}

proof fn lemma_remove_card(s: Seq<Card>, j: int)
    requires
        0 <= j < s.len(),
    ensures
        hand_raw(s) == hand_raw(s.remove(j)) + card_points(s[j]),
        hand_aces(s) == hand_aces(s.remove(j)) + if is_ace(s[j]) {
            1nat
        } else {
            0nat
        },
    decreases s.len(),
{
    if j < s.len() - 1 {
        let t = s.drop_last();
        lemma_remove_card(t, j);
        assert(s.remove(j).drop_last() =~= t.remove(j));
        assert(s.remove(j).last() == s.last());
    } else {
        assert(s.remove(j) =~= s.drop_last());
    }
}

/// The score of a hand does not depend on the order the cards came in: two
/// hands with the same cards score alike, and `black_jack_score` accepts one
/// exactly when it accepts the other.
pub proof fn law_score_order_independent(a: Seq<Card>, b: Seq<Card>)
    requires
        a.to_multiset() == b.to_multiset(),
    ensures
        hand_raw(a) == hand_raw(b),
        hand_aces(a) == hand_aces(b),
        hand_value(a) == hand_value(b),
        score_fits(a) == score_fits(b),
    decreases a.len(),
{
    a.to_multiset_ensures();
    b.to_multiset_ensures();
    if a.len() == 0 {
        assert(b.len() == 0);
    } else {
        let x = a.last();
        let a0 = a.drop_last();
        assert(a =~= a0.push(x));
        a0.to_multiset_ensures();
        assert(a.to_multiset().count(x) > 0);
        assert(b.contains(x));
        let j = choose|j: int| 0 <= j < b.len() && b[j] == x;
        let b0 = b.remove(j);
        b0.to_multiset_ensures();
        assert(b0.to_multiset() =~= b.to_multiset().remove(x));
        assert(a0.to_multiset() =~= a.to_multiset().remove(x));
        law_score_order_independent(a0, b0);
        lemma_remove_card(b, j);
    }
}

/// The stake changes only by a double on the first turn, which doubles it
/// once the extra stake is taken; a move, the balance check and the dealer's
/// play leave it alone.
pub proof fn law_stake_changes_only_by_doubling(g: GameView, mv: Move, money: i32)
    requires
        g.wf(),
        g.phase is Doubling ==> 2 * g.bet <= i32::MAX,
    ensures
        after_move(g, mv).bet == g.bet,
        after_double(g, money).bet == g.bet,
        after_dealer_step(g).bet == g.bet,
        after_complete_double(g).bet == g.bet || (g.first_turn && g.phase is Doubling
            && after_complete_double(g).bet == 2 * g.bet),
{
}

/// The dealer's turn ends: every step either finishes the game or gives the
/// dealer one more card, and a dealer still drawing holds at most 16 cards.
pub proof fn law_dealer_turn_ends(g: GameView)
    requires
        g.wf(),
        g.phase is DealerTurn,
    ensures
        after_dealer_step(g).phase is Finished || (after_dealer_step(g).phase is DealerTurn
            && after_dealer_step(g).dealer.len() == g.dealer.len() + 1 && g.dealer.len() <= 16),
{
    lemma_raw_bounds(g.dealer);
}

/// Suits do not count: two hands whose cards have the same ranks, position by
/// position, score alike, and `black_jack_score` accepts one exactly when it
/// accepts the other.
pub proof fn law_score_ignores_suits(a: Seq<Card>, b: Seq<Card>)
    requires
        a.len() == b.len(),
        forall|i: int| 0 <= i < a.len() ==> (#[trigger] a[i])@ % 13 == b[i]@ % 13,
    ensures
        hand_raw(a) == hand_raw(b),
        hand_aces(a) == hand_aces(b),
        hand_value(a) == hand_value(b),
        score_fits(a) == score_fits(b),
    decreases a.len(),
{
    if a.len() > 0 {
        let a0 = a.drop_last();
        let b0 = b.drop_last();
        assert forall|i: int| 0 <= i < a0.len() implies (#[trigger] a0[i])@ % 13 == b0[i]@ % 13 by {
            assert(a0[i] == a[i]);
            assert(b0[i] == b[i]);
        }
        law_score_ignores_suits(a0, b0);
        assert(a[a.len() - 1]@ % 13 == b[b.len() - 1]@ % 13);
    }
}

/// What each card adds to a hand: an ace 1, a two to ten its pip value (rank
/// plus one), a jack, queen or king 10; and a lone card scores that, except a
/// lone ace, which scores 11.
pub proof fn law_card_values(s: Seq<Card>, c: Card)
    ensures
        c@ % 13 == 0 ==> hand_raw(s.push(c)) == hand_raw(s) + 1 && hand_aces(s.push(c))
            == hand_aces(s) + 1,
        1 <= c@ % 13 <= 9 ==> hand_raw(s.push(c)) == hand_raw(s) + c@ % 13 + 1 && hand_aces(
            s.push(c),
        ) == hand_aces(s),
        10 <= c@ % 13 <= 12 ==> hand_raw(s.push(c)) == hand_raw(s) + 10 && hand_aces(s.push(c))
            == hand_aces(s),
        c@ % 13 == 0 ==> hand_value(seq![c]) == 11,
        1 <= c@ % 13 <= 9 ==> hand_value(seq![c]) == c@ % 13 + 1,
        10 <= c@ % 13 <= 12 ==> hand_value(seq![c]) == 10,
{
    assert(s.push(c).drop_last() =~= s);
    let one = seq![c];
    assert(one.drop_last() =~= Seq::<Card>::empty());
    assert(one.last() == c);
    assert(hand_raw(Seq::<Card>::empty()) == 0);
    assert(hand_aces(Seq::<Card>::empty()) == 0);
    assert(hand_raw(one) == card_points(c));
}

/// Settlement compares blackjack values: a hand counts its full value, aces
/// promoted as `black_jack_score` promotes them, and a bust counts 0. So the
/// player wins exactly when their value, busts as 0, is at least the dealer's.
pub proof fn law_settlement_by_value(player: Seq<Card>, dealer: Seq<Card>)
    ensures
        hand_value(player) <= 21 ==> settled_score(player) == hand_value(player),
        hand_value(player) > 21 ==> settled_score(player) == 0,
        hand_value(dealer) <= 21 ==> settled_score(dealer) == hand_value(dealer),
        hand_value(dealer) > 21 ==> settled_score(dealer) == 0,
        (settled_score(player) >= settled_score(dealer)) == ((if hand_value(player) > 21 {
            0
        } else {
            hand_value(player) as int
        }) >= (if hand_value(dealer) > 21 {
            0
        } else {
            hand_value(dealer) as int
        })),
{
}

/// A double is refused exactly when the balance is below one stake; a balance
/// of at least one stake takes exactly one more stake and moves on to dealing
/// the doubled hand, the first turn kept.
pub proof fn law_double_needs_one_stake(g: GameView, money: i32)
    requires
        g.wf(),
        g.phase is AwaitingFunds,
    ensures
        money >= g.bet ==> (double_reply(g, money) matches DoubleReply::Deposited {
            debit,
            message,
        } && debit == -g.bet && message == "depositing another "@ + decimal(g.bet as int) + "$"@),
        money < g.bet ==> (double_reply(g, money) matches DoubleReply::Refused(m) && m
            == "you only have "@ + decimal(money as int) + "$\n continuing the game"@),
        money >= g.bet ==> after_double(g, money).phase is Doubling && after_double(
            g,
            money,
        ).first_turn == g.first_turn && after_double(g, money).bet == g.bet,
        money < g.bet ==> double_reply(g, money) is Refused && after_double(g, money).phase is PlayerTurn,
        double_reply(g, money) is Refused <==> money < g.bet,
{
}

} // verus!
