# discord_bot

A Discord casino bot: blackjack against the bot, a guess-the-number game, a
daily allowance and a per-guild balance leaderboard.

- `src/` is the verified library: cards and the six-deck shoe, hand
  scoring, the blackjack game as a state machine (the player's moves, the
  double, the dealer's draws to 17, settlement), the guessing game, the daily
  claim, command parsing and the bot's reply texts (all but the `!pong`
  reply, which serenity builds around a mention of the author).
- `app/` is the bot itself: the serenity client, the SQLite store of balances
  and the loops that wait for replies, all driving the library.
- `tests/` runs the library on concrete games and messages.
