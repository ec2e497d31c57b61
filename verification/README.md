# Indie Games Protocol

An on-chain program for game titles: a game has an account, a protocol treasury
and an owner; players have accounts in games, join ranked games with an entry in
SOL, SKR, SLICE or USDC, and are rewarded from the pools. An oracle, set by the
protocol's authority, gives the prices.

The rules of the program are a library whose behaviour is stated in contracts and
proved by Verus. Each handler reads the accounts as they stand and lists effects:
calls to other programs, writes to its accounts, movements of lamports. Its
contract says, for all accounts and arguments, which effects are listed and which
result is returned.

- `src/runtime.rs`: accounts, effects, and their models
- `src/constants.rs`, `src/error.rs`, `src/instruction.rs`, `src/state/`: what the
  program knows and stores; `src/codec.rs`: how it is stored
- `src/cpi.rs`: derived addresses and the calls to other programs
- `src/helpers.rs`: fees, conversions, and the checks that handlers share
- `src/processor/`: the handlers
- `src/laws/`: what holds of the program as a whole
- `app/`: the entrypoint, which carries the effects out
