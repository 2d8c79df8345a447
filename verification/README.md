# openvm_circuit

A virtual machine whose execution is proved in segments, written in Verus.

- `src/field`, `src/limbs.rs`: prime field arithmetic and little-endian limbs.
- `src/air.rs`: constraints and lookups over a row of field elements. An expression carries the
  integer polynomial of which it is the residue.
- `src/instructions.rs`: opcodes and instructions.
- `src/rv32im`: addition, subtraction and bitwise operations, comparison, loads and stores. Each
  has its arithmetic, its columns, its constraints (`air.rs`), the filling of rows (`step.rs`) and
  its execution without rows (`execute.rs`). `laws.rs` shows that rows satisfy the constraints
  exactly if they state the arithmetic, and that both ways of execution agree.
- `src/native`: arithmetic and branches on field elements.
- `src/system`: memory, with and without access times, and access to the native address space.
- `src/arch`: the state of a segment and its execution; execution modes and the counting of
  accesses; programs over segments, single segments, and the verification of the proofs of all
  segments.
- `app`: messages, reports, backtraces and the proof system around the library.
