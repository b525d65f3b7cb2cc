# blightos

The decision-making and data-handling logic of the BlightOS kernel, written
in Verus with its contracts proved: paging for x86_64 and AArch64 (mapping,
unmapping, the kernel's mapping pool, the direct-map pool, releasing an
address space), boot information (Multiboot2, ACPI, device trees), the VFS
and FAT file system, GPT partitions, the storage drivers (AHCI, SD host),
input devices, the window compositor, Intel HDA audio and the system call
interface.

Hardware access stays with the caller: the library is handed register
values and memory contents as plain values and returns what to write, or
the next action of a state machine (processor start-up, SD card reset,
codec discovery).

Layout:

- `src/` the verified library (`arch/`, `drivers/`, `fs/`, `syscall.rs`,
  `text.rs`, `util.rs`, `mem.rs`).
- `tests/` executable tests of the library on concrete values.
- `app/` a hosted harness that stands in for the hardware with a machine
  held in memory and drives the library; it also holds the few
  computations done in floating point (timer conversions, the memory
  statistics text, the audio test tone).
