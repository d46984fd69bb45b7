# ramtester

A RAM tester. A buffer is split into two halves; a test writes the same
pattern into both, then the halves are compared byte by byte, and every
difference is reported with its address and shown on an error map.

The library (`src/`) is verified with Verus:

- `passes`: a test as a list of passes over the tested range, and the routine
  that runs such a list and, at each checkpoint, asks a stop check (a
  parameter; the program passes one that reads the Ctrl+C flag) whether to
  stop there;
- `fixed_tests`, `operand_tests`: the sixteen tests, each with its exact
  pattern (or, for the random ones, what holds of every random draw);
- `catalog`: test numbers and names, the tests of normal and ultra mode, and
  the dispatch from a test to its routine;
- `compare`: the comparison of the halves, the count of differing bytes, and
  the error map;
- `laws`: what holds of the tests as a whole (a completed test leaves equal
  halves; on sound memory the comparison reports nothing);
- `meminfo`, `args`, `messages`, `text`, `run`: memory detection from the
  system's report, the command line, the French and English messages, and the
  bookkeeping of a run;
- `interrupt`, `random`: the stop flag and the random operands (`rand`).

`app/main.rs` is the program: it reads the system and the terminal, times the
phases, prints, and calls the library.

Usage: `ramtester <size> [--loop] [--test <N>] [--ultra]`, with a size such as
`512M`, `2G` or `MAX` (90% of the available memory).
