# Tensor Tycoon

A terminal board game in the style of a property-trading game, where the
properties are open-weight language models. The rules engine, the bots, the
text tables, the save format rules and the interface's state machine are a
library written in Verus: its functions carry `requires` / `ensures`
contracts that Verus proves. One small function is trusted rather than
proved: `push_char`, which appends a character through the standard
library's `String::push`.

## Layout

- `src/` — the verified library.
  - `catalog`, `state`: the board, the model roster, cards and the game state
    with its well-formedness invariant.
  - `turn`, `settlement`, `market`, `auction`, `ending`, `play`: rolling,
    landing, cards, debts and bankruptcy, buying and tensors, auctions, the end
    of a turn and of the game, and `Game::apply`, which validates and performs an
    action.
  - `bots`: the computer players' policy.
  - Easy mode: the human starts with more credits and picks each roll and
    each event card among three (`turn::pick_roll`, `turn::pick_card`).
  - `setup`, `rng`: configuration, the seeded generator and the shuffled deck.
  - `text`, `view`, `layout`, `decimal`, `strings`: the bilingual text table,
    log lines, panel texts and board coordinates.
  - `saves`, `startup`, `commands`: save names, ids, version upgrades, the
    command line and the in-game command palette.
  - `interface`: the screens and keys of the terminal interface, as a state
    machine that hands file work back as requests.
  - `queries`, `sums`: read-only questions about a game, and sums over the roster.
  - `laws`, `playable`: properties that span several operations, and the
    states the game can be played on from.
- `tests/` — tests run against the compiled library.
- `app/` — the program: terminal drawing, the event loop and the save folder.
