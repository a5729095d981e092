# poker_landlord_rs

A Dou Dizhu (斗地主, "fight the landlord") engine for three players, written
in Verus: the functions of the library carry contracts that the verifier
proves. One function is trusted rather than proved: `shuffle_cards` in
`src/game/dealer.rs` calls `rand`'s shuffle, and its contract (the same cards
come back, in some order) is taken on trust.

- `src/card/` — ranks, suits, cards, collections of cards, and the reader of
  typed card input (`3 3 4 5`, `3345`, `small big`, ...).
- `src/rules.rs` — the categories of plays (single, pair, straight, plane,
  bomb, joker bomb, ...) and which play beats which, with the laws of that
  order (the joker bomb beats everything, a bomb beats every other category,
  nothing beats itself, ...).
- `src/player.rs` — a player's hand: choosing cards for typed input,
  playing them, taking the landlord's cards.
- `src/game/` — the deck and the deal, and the game engine: a state machine
  whose every step (`step`, `bid_step`, `play_step`) is a specification over
  `GameView`; `laws.rs` proves what holds of every game.
- `src/error.rs` — the error types and their messages.
- `app/` — the terminal program that reads the players' input and drives the
  engine.
