# core_trace

Verified generation of the core trace of the Miden virtual machine. The trace is built from
fragments that are generated independently of each other: states that have been recorded while the
program ran are turned into fragments, and the fragments into the main trace.

- `src/` is the library. Its functions carry contracts that Verus proves. Calls into `miden_core`,
  `miden_air` and `winter_prover` stand behind small wrappers, whose doc comments say what is
  claimed of them.
- `tests/` runs the library, and holds its constants and wrappers against the crates that it uses.
- `app/` generates fragments in parallel and converts the types of `miden_core`. The instruction set
  and the layout of trace rows are provided by an implementation of its `Machine` trait.

Generation is driven from outside. `CoreTraceFragmentGenerator::execute_next` decides what comes
next and hands out an `Action`, which is either an operation to perform or a row to write. The
outcome goes back through `operation_performed` or `row_added`. When nothing is left to execute and
the fragment is not full, the program halts: `halt` hands out the row with which a short fragment
ends.

The laws that the library keeps, such as that a resumed batch does what the interrupted one left, or
that the rows of fragments continue each other in the trace, are the public proof functions whose
names start with `law_`.
