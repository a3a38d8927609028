use discord_bot::commands::{
    balance_report, help_text, leaderboard_report, member_display_name, parse_bet, parse_command,
    parse_give_amount, Command, ScanFailure,
};

#[test]
fn commands_are_read_from_the_first_word() {
    assert_eq!(parse_command("!ping"), Command::Ping);
    assert_eq!(parse_command("!game"), Command::Game);
    assert_eq!(parse_command("!blackjack 50"), Command::BlackJack);
    assert_eq!(parse_command("!balance @someone"), Command::Balance);
    assert_eq!(parse_command("!give_money 10"), Command::GiveMoney);
    assert_eq!(parse_command("!balltop"), Command::Balltop);
    assert_eq!(parse_command("!claim_daily"), Command::ClaimDaily);
    assert_eq!(parse_command("!?"), Command::Help);
    assert_eq!(parse_command(""), Command::Unknown);
    assert_eq!(parse_command(" !ping"), Command::Unknown);
    assert_eq!(parse_command("!pingpong"), Command::Unknown);
    assert_eq!(parse_command("hello there"), Command::Unknown);
}

#[test]
fn a_command_word_is_recognized_whatever_follows() {
    for rest in ["", "x", "  many words here", "!ping"] {
        assert_eq!(parse_command(&format!("!balltop {}", rest)), Command::Balltop);
    }
}

#[test]
fn amounts_are_scanned_from_commands() {
    assert_eq!(parse_bet("!blackjack 50"), Ok(50));
    assert_eq!(parse_bet("!blackjack -3"), Ok(-3));
    assert_eq!(parse_bet("!blackjack +8"), Ok(8));
    assert_eq!(parse_bet("!blackjack abc"), Err(ScanFailure::NotANumber));
    assert_eq!(parse_bet("!blackjack 99999999999"), Err(ScanFailure::NotANumber));
    assert_eq!(parse_bet("!blackjack"), Err(ScanFailure::Missing));
    assert_eq!(parse_bet("!blackjak 5"), Err(ScanFailure::NoMatch));
    assert_eq!(parse_give_amount("!give_money 1000"), Ok(1000));
    assert_eq!(parse_give_amount("!give_money  7 extra"), Ok(7));
}

#[test]
fn help_lists_the_commands() {
    assert_eq!(help_text(), "!blackjack\n!balltop\n!balance\n!claim_daily");
}

#[test]
fn balance_report_runs_players_together() {
    let entries = vec![("ann".to_string(), 10), ("bob".to_string(), -5)];
    assert_eq!(balance_report(&entries), "player ann has 10$player bob has -5$");
    assert_eq!(balance_report(&vec![]), "");
}

#[test]
fn leaderboard_has_one_line_per_player() {
    let rows = vec![("ann".to_string(), 300), ("bob".to_string(), 20)];
    assert_eq!(leaderboard_report(&rows), "ann: 300$\nbob: 20$\n");
}

#[test]
fn members_are_listed_by_nickname_first() {
    assert_eq!(member_display_name(Some("nick".into()), "name".into()), "nick");
    assert_eq!(member_display_name(None, "name".into()), "name");
}
