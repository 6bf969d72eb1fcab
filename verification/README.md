# Adrena perpetuals exchange: verified decision logic

The state transitions and checks of a perpetuals exchange and its liquidity pool,
written in Verus with contracts proved over mathematical models.

Each instruction of the exchange is a function from the plain values it reads (the
accounts' fields, the oracle's prices already applied, what the pool's fee schedule
quoted) to its answer: an error, or the new values of the accounts it writes and the
amounts to transfer, mint or burn. Transfers, account loading and price feeds are the
caller's part.

Layout of `src/`:

- `math.rs`: fixed-point decimal arithmetic, basis points, checked conversions.
- `error.rs`, `key.rs`: the error codes and account addresses.
- `user_profile.rs`: profiles, cosmetics, teams, achievements.
- `staking.rs`: staking rounds, liquid and locked stakes, round resolution.
- `claim.rs`: reward claims over resolved rounds, genesis rewards.
- `liquidity.rs`: deposits, withdrawals and swaps against the pool, LP token pricing.
- `valuation.rs`: the value of the pool across its custodies, pool snapshots.
- `position.rs`: opening, closing, liquidating and adjusting positions; fee sharing.
- `orders.rs`: limit orders and their escrow.
- `fees.rs`: paying out the fees the pool owes, referral fees.
- `governance.rs`: vesting and voting power.
- `views.rs`: the checks and sizes behind the read-only quotes.

Public proof functions state properties that span several operations, such as that a
deposit never dilutes the liquidity providers and that a claim is never paid twice.
