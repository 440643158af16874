# ricp

Interval constraint propagation (HC4 contraction with branch-and-prune) for
non-linear real arithmetic constraints.

- `src/` is the verified library:
  - `ast`: the arena-allocated expression tree and its builders; constants
    are held as binary64 bit patterns that compare with IEEE-754 equality;
  - `interval`: the sign-case tables of interval multiplication and of
    squaring (forward and backward). Over mathematical integers they are
    proved to pick the smallest and largest products of bounds, to enclose
    every product and square of members, and, for the backward square, to keep
    every root. The floating-point products, square roots and outward rounding
    that use these tables in `app/` are not verified;
  - `solver`: the per-variable branching weights used to choose the variable
    to bisect, and the decisions of the branch-and-prune search (stop, answer,
    split sequentially or in parallel, merge the halves).
- `app/` holds the floating-point side: interval arithmetic with outward
  rounding, HC4 forward/backward evaluation, contraction to a fixpoint,
  bisection and the rayon-driven search.
- `tests/` exercises the library.
