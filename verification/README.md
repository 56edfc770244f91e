# Frozenight

A chess engine library with machine-checked contracts. Move generation comes from
[`cozy-chess`]; everything the engine decides on top of it is verified with Verus.

## Layout

- `src/` – the verified library
  - `chess` – the library's plain chess types and the calls into `cozy-chess`
  - `eval`, `window`, `tt`, `see`, `oracle`, `nnue`, `position`, `ordering`,
    `params`, `abdada`, `time` – the parts of the NNUE engine
  - `search` – its alpha-beta search: move picking, history tables, repetition
    detection, negamax and quiescence search
  - `engine` – its front end: game history, table aging, iterative deepening
  - `simple` – a minimal engine: plain alpha-beta with random leaf scores
  - `tantabus` – a classical engine's building blocks: scores, windows, cache table,
    history, move partitions, pruning formulas, time managers, and the features its
    evaluation weighs (mobility, passed pawns, open files, bishop pair, king safety)
  - `selfplay`, `gendata` – the rules of the training-data tools (random openings,
    game adjudication, annotation, filtering)
  - `random` – the random choices, drawn from `rand`
  - `uci` – castling notation of the UCI protocol
- `tests/` – tests of the library on concrete positions
- `app/` – the UCI program and the benchmark (`bench` argument). The evaluation
  network is read from the file named by `FROZENIGHT_NET`; without it every position
  evaluates as even.

[`cozy-chess`]: https://crates.io/crates/cozy-chess
