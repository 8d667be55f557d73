# minemu

A deterministic A32 teaching platform: the platform ABI, the
backend-independent machine, the system-ROM image packer, and the decisions
of the CPU adapter and runtime service, written in Verus and proved against
their contracts.

## Layout

- `src/platform/` — the ABI: physical map, address types, MMIO register
  decoding, page-table entries and fault status words, image and boot-info
  wire formats, observability records.
- `src/hw/` — the machine: physical memory, interrupt controller, SysTick,
  block device, RNG, UARTs, trace port, the MMU walker, the MMIO bus, and
  virtual time with exception planning.
- `src/image/` — ELF intake (through the `object` crate), record
  validation, the canonical image layout and its parser, the boot plan.
- `src/cpu/` — A32 instruction traps, CP15 transfers, exception entry,
  batch settlement, and inspection planning for a CPU backend.
- `src/runtime/` — the runtime service's state machine: lifecycle
  transitions, batch budgets, scheduled and buffered UART input, and machine
  setup.
- `app/` — the Unicorn CPU backend and the threaded runtime around the
  library; these need the `unicorn-engine` crate, threads and files.
- `tests/` — executable tests of the library.

Run `verus` on `src/lib.rs` to check the proofs.
