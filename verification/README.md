# ppc64

A code generator back end for 64-bit little-endian PowerPC (ELFv2), verified with Verus.

- `src/` is the library. Encoders, emission, label uses, the calling convention with
  prologues and epilogues, register sets, operands, listings, unwind information,
  settings and the save area of stack switches all have contracts that say exactly
  what comes out.
- The modules `machine`, `memory` and `floating` model what instruction words do. The
  `laws_*` modules prove over them what emitted code does: that a constant ends up in
  its register, by the fewest loads, ors, rotations and inversions that build it, with
  at most an add behind them, that a division traps or divides, that a
  compare-and-swap stores where memory holds what is expected and nowhere else, that an
  epilogue undoes its prologue, that a lane goes in and comes out again.
- `tests/` runs the library with the crates that it lives with, and a disassembler.
- `app/` is what verified code cannot hold: conversions to the types of other crates,
  text formatting, and the routines that only run on the machine itself.

Outside crates are reached through a few trusted items, each with a doc comment that
says what is claimed of the outside function: physical registers and register sets of
`regalloc2`, vectors of `smallvec`, entries of `gimli`, and the disassembler of
`capstone`.
