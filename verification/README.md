# mgba

Rules of a binding to the mGBA Game Boy Advance emulator core, verified with Verus.

- `src/arm_core.rs`: the ARM7TDMI register file (general-purpose registers,
  CPSR, execution mode, prefetch pipeline), the program-counter arithmetic
  of both instruction sets, and the Thumb branch that refills the pipeline
  from the active memory region.
- `src/trapper.rs`: the table of instruction traps and the decision the
  Thumb breakpoint hook takes: run a trap's displaced instruction and
  handler, or hand the breakpoint to the core.
- `src/mcore.rs`: core creation options, the text of fixed-size C string
  fields, the fixed real-time clock value and the host video buffer.
- `src/lib.rs`: the error type and the mapping of a core call's success flag.
- `app/`: the calls into the C core (`mgba_sys`), which pass plain values
  to and from the library.
