use crate::random::{next_u32, thread_rng};
use crate::text::{decimal, law_decimal_round_trip, parse_i32, parse_i32_spec, push_i64};
use vstd::prelude::*;
use vstd::string::StringExecFns;

verus! {

/// How many guesses the player gets.
pub const MAX_ATTEMPTS: i32 = 10;

/// The abstract state of a guessing game.
pub struct GuessView {
    pub number: i32,
    pub tries: i32,
}

/// A guess-the-number game: the bot picks a number from 0 to 99 and answers
/// each guess with "too small", "too big" or a win.
pub struct GuessGame {
    number: i32,
    tries: i32,
}

impl View for GuessGame {
    type V = GuessView;

    closed spec fn view(&self) -> GuessView {
        GuessView { number: self.number, tries: self.tries }
    }
}

/// The answer to one guess, in spec form.
pub enum GuessAnswer {
    TooSmall,
    TooBig,
    Won,
    NotANumber,
}

/// How a reply compares with the secret number.
pub open spec fn answer_of(reply: Seq<char>, number: i32) -> GuessAnswer {
    match parse_i32_spec(reply) {
        Some(g) => if g < number {
            GuessAnswer::TooSmall
        } else if g > number {
            GuessAnswer::TooBig
        } else {
            GuessAnswer::Won
        },
        None => GuessAnswer::NotANumber,
    }
}

/// What the bot says for an answer, after `tries` earlier guesses.
pub open spec fn answer_text(a: GuessAnswer, tries: i32) -> Seq<char> {
    match a {
        GuessAnswer::TooSmall => "your guess is too small"@,
        GuessAnswer::TooBig => "your guess is too big"@,
        GuessAnswer::Won => "your guessed the number in "@ + decimal(tries as int) + " tries"@,
        GuessAnswer::NotANumber => "not a number"@,
    }
}

/// The bot's answer to a guess.
pub struct GuessReply {
    pub message: String,
    pub won: bool,
}

impl GuessGame {
    /// A game whose secret number is `draw % 100`.
    pub fn from_draw(draw: u32) -> (g: GuessGame)
        ensures
            g@.number == draw % 100,
            g@.tries == 0,
    {
        GuessGame { number: (draw % 100) as i32, tries: 0 }
    }

    /// A game with a random secret number.
    pub fn start() -> (g: GuessGame)
        ensures
            0 <= g@.number < 100,
            g@.tries == 0,
    {
        let mut rng = thread_rng();
        let draw = next_u32(&mut rng);
        GuessGame::from_draw(draw)
    }

    /// The message that opens the game.
    pub fn intro() -> (s: String)
        ensures
            s@ == "guess the number between 1 and 100"@,
    {
        let mut s = String::new();
        s.append("guess the number between 1 and 100");
        s
    }

    /// The secret number.
    pub fn number(&self) -> (r: i32)
        ensures
            r == self@.number,
    {
        self.number
    }

    /// How many guesses have been made.
    pub fn tries(&self) -> (r: i32)
        ensures
            r == self@.tries,
    {
        self.tries
    }

    /// Whether the player has used up every guess.
    pub fn is_over(&self) -> (r: bool)
        ensures
            r == (self@.tries >= MAX_ATTEMPTS),
    {
        self.tries >= MAX_ATTEMPTS
    }

    /// Answers one reply. A reply that is no number still uses up a guess.
    pub fn guess(&mut self, reply: &str) -> (r: GuessReply)
        requires
            0 <= old(self)@.tries < MAX_ATTEMPTS,
        ensures
            r.won == (answer_of(reply@, old(self)@.number) is Won),
            r.message@ == answer_text(answer_of(reply@, old(self)@.number), old(self)@.tries),
            final(self)@.number == old(self)@.number,
            final(self)@.tries == old(self)@.tries + 1,
    {
        let tries = self.tries;
        self.tries = tries + 1;
        let mut message = String::new();
        match parse_i32(reply) {
            Some(g) => {
                if g < self.number {
                    message.append("your guess is too small");
                    GuessReply { message, won: false }
                } else if g > self.number {
                    message.append("your guess is too big");
                    GuessReply { message, won: false }
                } else {
                    message.append("your guessed the number in ");
                    push_i64(&mut message, tries as i64);
                    message.append(" tries");
                    GuessReply { message, won: true }
                }
            },
            None => {
                message.append("not a number");
                GuessReply { message, won: false }
            },
        }
    }

    /// The message after the last guess missed.
    pub fn failure_message(&self) -> (s: String)
        ensures
            s@ == "your have failed to guess the number after "@ + decimal(MAX_ATTEMPTS as int)
                + " attempts. the number was "@ + decimal(self@.number as int) + "!"@,
    {
        let mut s = String::new();
        s.append("your have failed to guess the number after ");
        push_i64(&mut s, MAX_ATTEMPTS as i64);
        s.append(" attempts. the number was ");
        push_i64(&mut s, self.number as i64);
        s.append("!");
        s
    }
}


/// Writing the secret number out in decimal is always a winning guess.
pub proof fn law_secret_number_wins(number: i32)
    ensures
        answer_of(decimal(number as int), number) is Won,
{
    law_decimal_round_trip(number);
}

/// A reply wins exactly when it reads as the secret number; a number below
/// it is too small, above it too big, and anything that is not an `i32` is no
/// number.
pub proof fn law_guess_answers(reply: Seq<char>, number: i32)
    ensures
        answer_of(reply, number) is Won <==> parse_i32_spec(reply) == Some(number),
        forall|g: i32|
            parse_i32_spec(reply) == Some(g) && g < number ==> answer_of(reply, number) is TooSmall,
        forall|g: i32|
            parse_i32_spec(reply) == Some(g) && g > number ==> answer_of(reply, number) is TooBig,
        parse_i32_spec(reply) is None <==> answer_of(reply, number) is NotANumber,
{
}

/// What the bot says to each answer: a miss names its direction, a win the
/// number of earlier guesses.
pub proof fn law_guess_messages(tries: i32)
    ensures
        answer_text(GuessAnswer::TooSmall, tries) == "your guess is too small"@,
        answer_text(GuessAnswer::TooBig, tries) == "your guess is too big"@,
        answer_text(GuessAnswer::Won, tries) == "your guessed the number in "@ + decimal(
            tries as int,
        ) + " tries"@,
        answer_text(GuessAnswer::NotANumber, tries) == "not a number"@,
{
}

} // verus!
