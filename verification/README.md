# tiny_tot_vm

A small bytecode virtual machine with BEAM-style processes, verified with Verus.

- `src/` is the verified library: the assembler and bytecode format
  (`assembler`, `compiler`, `bytecode`), the stack machine (`vm`), the
  register IR with its lowering and machine (`ir`), the optimizer, the Lisp
  front end, the example-suite verdicts (`examples`), processes, the name registry and supervision (`concurrency`),
  the collectors (`gc`), the profiler's bookkeeping (`profiling`), value and
  listing text (`display`) and command-line parsing (`cli`).
  Every executable function carries a contract; the laws that relate
  several operations are public proof functions named `law_*`.
- `app/` is the command-line program around the library: file and network
  I/O, the host side of the machine's requests, the round-robin scheduler
  and the report tables.
- `tests/` exercises the library on concrete programs.
