use crate::text::{decimal, parse_i32, parse_i32_spec, push_char, push_i64};
use vstd::prelude::*;
use vstd::string::StringExecFns;

verus! {

/// The commands the bot answers.
#[derive(PartialEq, Eq, Structural, Clone, Copy, Debug)]
pub enum Command {
    Ping,
    Game,
    BlackJack,
    Balance,
    GiveMoney,
    Balltop,
    ClaimDaily,
    Help,
    Unknown,
}

/// The text of a message up to its first space.
pub open spec fn first_word(s: Seq<char>) -> Seq<char>
    decreases s.len(),
{
    if s.len() == 0 || s[0] == ' ' {
        Seq::empty()
    } else {
        seq![s[0]] + first_word(s.drop_first())
    }
}

/// The command that a first word names.
pub open spec fn command_of(word: Seq<char>) -> Command {
    if word == "!ping"@ {
        Command::Ping
    } else if word == "!game"@ {
        Command::Game
    } else if word == "!blackjack"@ {
        Command::BlackJack
    } else if word == "!balance"@ {
        Command::Balance
    } else if word == "!give_money"@ {
        Command::GiveMoney
    } else if word == "!balltop"@ {
        Command::Balltop
    } else if word == "!claim_daily"@ {
        Command::ClaimDaily
    } else if word == "!?"@ {
        Command::Help
    } else {
        Command::Unknown
    }
}

fn word_is(word: &String, name: &str) -> (r: bool)
    ensures
        r == (word@ == name@),
{
    let other = String::from_str(name);
    *word == other
}

/// The command a message asks for: its first word, up to the first space.
pub fn parse_command(content: &str) -> (c: Command)
    ensures
        c == command_of(first_word(content@)),
{
    let n = content.unicode_len();
    let mut word = String::new();
    let mut i: usize = 0;
    proof {
        assert(content@.skip(0) =~= content@);
        assert(word@ + first_word(content@) =~= first_word(content@));
    }
    while i < n
        invariant_except_break
            n == content@.len(),
            i <= n,
            word@ + first_word(content@.skip(i as int)) == first_word(content@),
        ensures
            word@ == first_word(content@),
        decreases n - i,
    {
        let c = content.get_char(i);
        assert(content@.skip(i as int)[0] == c);
        if c == ' ' {
            break;
        }
        assert(content@.skip(i as int).drop_first() =~= content@.skip(i + 1));
        push_char(&mut word, c);
        i = i + 1;
    }
    proof {
        if i == n {
            assert(content@.skip(i as int) =~= Seq::<char>::empty());
        }
    }
    if word_is(&word, "!ping") {
        Command::Ping
    } else if word_is(&word, "!game") {
        Command::Game
    } else if word_is(&word, "!blackjack") {
        Command::BlackJack
    } else if word_is(&word, "!balance") {
        Command::Balance
    } else if word_is(&word, "!give_money") {
        Command::GiveMoney
    } else if word_is(&word, "!balltop") {
        Command::Balltop
    } else if word_is(&word, "!claim_daily") {
        Command::ClaimDaily
    } else if word_is(&word, "!?") {
        Command::Help
    } else {
        Command::Unknown
    }
}

/// A word without spaces is its own first word, and stays the first word
/// whatever follows it after a space: `!blackjack 50` asks for the same
/// command as `!blackjack`.
pub proof fn law_first_word(word: Seq<char>, rest: Seq<char>)
    requires
        forall|i: int| 0 <= i < word.len() ==> word[i] != ' ',
    ensures
        first_word(word) == word,
        first_word(word + seq![' '] + rest) == word,
    decreases word.len(),
{
    if word.len() == 0 {
        assert((word + seq![' '] + rest)[0] == ' ');
    } else {
        let tail = word.drop_first();
        law_first_word(tail, rest);
        assert(word =~= seq![word[0]] + tail);
        assert((word + seq![' '] + rest).drop_first() =~= tail + seq![' '] + rest);
    }
}

/// The names scan_fmt's `scan` gives back for `input` read against `format`:
/// the pieces of `input` that the format's placeholders matched.
pub uninterp spec fn scan_tokens(input: Seq<char>, format: Seq<char>) -> Seq<Seq<char>>;

/// The formats the bot reads amounts with: a command word and one `{}`
/// placeholder.
pub open spec fn is_command_format(format: Seq<char>) -> bool {
    format == "!blackjack {}"@ || format == "!give_money {}"@
}

/// scan_fmt's `parse::scan`: the tokens that the placeholders of `format`
/// match in `input`, in order. What they are is named by `scan_tokens` and
/// not stated further. The call is only made with the two command formats:
/// other formats (a `{/.../}` regex placeholder among them) can make `scan`
/// panic on some inputs.
#[verifier::external_body]
fn scan(input: &str, format: &str) -> (tokens: Vec<String>)
    requires
        is_command_format(format@),
    ensures
        tokens@.map_values(|t: String| t@) == scan_tokens(input@, format@),
{
    scan_fmt::parse::scan(input, format).collect()
}

/// Why an amount could not be read from a command.
#[derive(PartialEq, Eq, Structural, Clone, Copy, Debug)]
pub enum ScanFailure {
    /// The format's placeholder matched nothing.
    Missing,
    /// The placeholder matched an empty piece: the text did not follow the format.
    NoMatch,
    /// The piece is no `i32`.
    NotANumber,
}

/// The amount in the first token, as scan_fmt reads one `i32`.
pub open spec fn amount_of_tokens(tokens: Seq<Seq<char>>) -> Result<i32, ScanFailure> {
    if tokens.len() == 0 {
        Err(ScanFailure::Missing)
    } else if tokens[0].len() == 0 {
        Err(ScanFailure::NoMatch)
    } else {
        match parse_i32_spec(tokens[0]) {
            Some(v) => Ok(v),
            None => Err(ScanFailure::NotANumber),
        }
    }
}

/// Reads one `i32` from the tokens that a scan gave back.
pub fn amount_from_tokens(tokens: &Vec<String>) -> (r: Result<i32, ScanFailure>)
    ensures
        r == amount_of_tokens(tokens@.map_values(|t: String| t@)),
{
    if tokens.len() == 0 {
        return Err(ScanFailure::Missing);
    }
    let first = &tokens[0];
    if first.as_str().unicode_len() == 0 {
        return Err(ScanFailure::NoMatch);
    }
    match parse_i32(first.as_str()) {
        Some(v) => Ok(v),
        None => Err(ScanFailure::NotANumber),
    }
}

/// Reads the `i32` that `format`'s single placeholder matches in `content`.
fn scan_amount(content: &str, format: &str) -> (r: Result<i32, ScanFailure>)
    requires
        is_command_format(format@),
    ensures
        r == amount_of_tokens(scan_tokens(content@, format@)),
{
    let tokens = scan(content, format);
    amount_from_tokens(&tokens)
}

/// The stake of a `!blackjack` command.
pub fn parse_bet(content: &str) -> (r: Result<i32, ScanFailure>)
    ensures
        r == amount_of_tokens(scan_tokens(content@, "!blackjack {}"@)),
{
    scan_amount(content, "!blackjack {}")
}

/// The amount of a `!give_money` command.
pub fn parse_give_amount(content: &str) -> (r: Result<i32, ScanFailure>)
    ensures
        r == amount_of_tokens(scan_tokens(content@, "!give_money {}"@)),
{
    scan_amount(content, "!give_money {}")
}

/// The answer to `!?`.
pub fn help_text() -> (s: String)
    ensures
        s@ == "!blackjack\n!balltop\n!balance\n!claim_daily"@,
{
    let mut s = String::new();
    s.append("!blackjack\n!balltop\n!balance\n!claim_daily");
    s
}

/// The answer to `!balance`: one piece per mentioned player, run together.
pub open spec fn balance_text(entries: Seq<(String, i32)>) -> Seq<char>
    decreases entries.len(),
{
    if entries.len() == 0 {
        Seq::empty()
    } else {
        balance_text(entries.drop_last()) + "player "@ + entries.last().0@ + " has "@ + decimal(
            entries.last().1 as int,
        ) + "$"@
    }
}

/// Builds the answer to `!balance` from each mentioned player's name and balance.
pub fn balance_report(entries: &Vec<(String, i32)>) -> (s: String)
    ensures
        s@ == balance_text(entries@),
{
    let n = entries.len();
    let mut s = String::new();
    let mut i: usize = 0;
    while i < n
        invariant
            n == entries@.len(),
            i <= n,
            s@ == balance_text(entries@.take(i as int)),
        decreases n - i,
    {
        let (name, money) = &entries[i];
        s.append("player ");
        s.append(name.as_str());
        s.append(" has ");
        push_i64(&mut s, *money as i64);
        s.append("$");
        assert(entries@.take(i + 1).drop_last() =~= entries@.take(i as int));
        i = i + 1;
    }
    assert(entries@.take(n as int) =~= entries@);
    s
}

/// The answer to `!balltop`: one line per player, in the order given.
pub open spec fn leaderboard_text(rows: Seq<(String, i32)>) -> Seq<char>
    decreases rows.len(),
{
    if rows.len() == 0 {
        Seq::empty()
    } else {
        leaderboard_text(rows.drop_last()) + rows.last().0@ + ": "@ + decimal(
            rows.last().1 as int,
        ) + "$\n"@
    }
}

/// Builds the answer to `!balltop` from the richest players' names and balances.
pub fn leaderboard_report(rows: &Vec<(String, i32)>) -> (s: String)
    ensures
        s@ == leaderboard_text(rows@),
{
    let n = rows.len();
    let mut s = String::new();
    let mut i: usize = 0;
    while i < n
        invariant
            n == rows@.len(),
            i <= n,
            s@ == leaderboard_text(rows@.take(i as int)),
        decreases n - i,
    {
        let (name, money) = &rows[i];
        s.append(name.as_str());
        s.append(": ");
        push_i64(&mut s, *money as i64);
        s.append("$\n");
        assert(rows@.take(i + 1).drop_last() =~= rows@.take(i as int));
        i = i + 1;
    }
    assert(rows@.take(n as int) =~= rows@);
    s
}

/// The name a guild member is listed under: the nickname when there is one.
pub fn member_display_name(nick: Option<String>, name: String) -> (r: String)
    ensures
        r@ == match nick {
            Some(n) => n@,
            None => name@,
        },
{
    match nick {
        Some(n) => n,
        None => name,
    }
}

/// The leaderboard has one line per row, in the rows' order, whatever the
/// balance (zero and negative included): adding a row appends exactly
/// `name: balance$` and a newline.
pub proof fn law_leaderboard_lines(rows: Seq<(String, i32)>, name: String, money: i32)
    ensures
        leaderboard_text(rows.push((name, money))) == leaderboard_text(rows) + name@ + ": "@
            + decimal(money as int) + "$\n"@,
        leaderboard_text(Seq::<(String, i32)>::empty()) == Seq::<char>::empty(),
{
    assert(rows.push((name, money)).drop_last() =~= rows);
}

/// The balance report has one piece per mentioned player, in order, whatever
/// the balance: adding a player appends exactly `player name has balance$`.
pub proof fn law_balance_pieces(entries: Seq<(String, i32)>, name: String, money: i32)
    ensures
        balance_text(entries.push((name, money))) == balance_text(entries) + "player "@ + name@
            + " has "@ + decimal(money as int) + "$"@,
        balance_text(Seq::<(String, i32)>::empty()) == Seq::<char>::empty(),
{
    assert(entries.push((name, money)).drop_last() =~= entries);
}

} // verus!
