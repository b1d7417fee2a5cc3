# rv_emu

A RISC-V (RV64IMA with the privileged architecture and Zicsr) emulator whose core is
verified with Verus.

`src/` is the library. Every function there carries a `requires`/`ensures` contract that
Verus proves against a mathematical model of the machine:

- `dram`, `bus`, `uart`, `plic`, `virtio`, `clint`: memory and devices, each with a spec
  state (`BusState`, `UartState`, ...) and `load_spec`/`store_spec` functions describing
  every access.
- `instruction`: decoding (`decode_spec`) and basic blocks.
- `csr`, `interrupt`, `cpu::trap`: control and status registers, trap entry and return.
- `cpu::mmu`, `cpu::tlb`: Sv39 translation with a translation cache.
- `cpu::execute`: the instruction semantics (`exec_spec`).
- `cpu::run`: interrupt polling, single steps, building and running basic blocks.
- `emu`: the emulator loop, breakpoints, snapshots and debugger memory access.
- `elf`: loading ELF images.
- `naming`, `verdict`: choosing test programs to run, naming their logs, and judging a
  run by its exit status and output.

Instructions behave as the RISC-V ISA defines them (the riscv-tests suites that the
`test-riscv` command runs are written against it): division by zero and the overflowing signed
division give the ISA's results rather than stopping the hart.

Events that end the emulation (the program finishing, a trap vector of unknown mode, an access beyond
memory, ...) leave the hart halted with a `Halt` reason instead of stopping the process.

`app/` is the command-line program around the library: argument parsing, reading the
program, the terminal behind the UART, the GDB remote stub, writing snapshots to disk, and
the `test-riscv` command that builds riscv-tests and runs them on an emulator binary.
