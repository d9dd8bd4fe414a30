# chess_actix

A chess library whose logic is verified with Verus: boards as 64-bit
bitboards, move generation (checks, pins, castling, en passant, promotion),
FEN and long algebraic notation, SAN, Zobrist hashing and repetition, the end
of a game, evaluation, and four engines (mate solver, minimax, alpha-beta,
iterative deepening).

- `src/` is the library; every function there is verified.
- `tests/` runs the library on concrete positions.
- `app/` runs the engines where the machine is involved: the console, the
  processors, a timer thread that stops a search, the random engine, and the
  Monte Carlo tree search engine (floating point and chance).
