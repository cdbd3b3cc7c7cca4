# remu_sim

A RISC-V (RV32IM with a subset of the V extension and a custom MNIST accelerator)
instruction-set simulator whose core is verified with Verus.

`src/` is the verified library:

- `bits`, `inst`, `decode`: instruction fields and the decoder, specified field by field.
- `alu`: integer semantics of RV32IM and the RV64 word operations.
- `bus`: the little-endian memory region.
- `hart`, `machine`: the hart state and the execution of every decoded instruction, with
  its well-formedness invariant.
- `vcontext`, `vops`, `vexec`, `vinst`, `vfp`: vector configuration, element operations,
  element loops, slides, reductions, widening, extension, and vector loads and stores.
- `mnist`: the accelerator's INT8 network (matrix product, requantisation, ReLU).
- `sim`: fetch/decode/execute, software breakpoints, register and memory comparison.
- `diff`: register mismatch lists.
- `refsim`: the decisions around the reference simulators (source hash, build plan,
  step status, register blocks, memory plans and layouts).

`app/` holds what touches the outside world: building and loading the Spike library,
driving Spike and Unicorn, and reading weight files.
