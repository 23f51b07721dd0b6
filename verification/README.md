# v6pp_kernel

The logic of a small teaching kernel in the style of Unix V6 (RISC-V, 64-bit), written
in Verus: every function of the library states what it does in `requires`/`ensures`
contracts and is proved against them.

The kernel's global state is passed explicitly: each operation takes the tables it
works on (process table, buffer cache, open-file and inode tables, mount table,
terminal, clock) and returns what the caller must do next (sleep, wake a channel,
start a transfer, write a block back). Waiting and hardware access are left to the
caller.

## Layout

- `src/constants.rs` — error numbers, signals, platform addresses.
- `src/dev/` — block buffer cache (`buffer_manager`), device queues, ATA/DMA command
  encoding, the console character device, device numbers.
- `src/fs/` — super block and free lists, block and inode allocation and freeing as
  steps (`file_system`), in-core inodes and block
  mapping (`inode`), open files and descriptors, path lookup and the file system
  calls (`file_manager`).
- `src/proc/` — processes, signals, sleeping and waking, the scheduler (`manager`),
  fork, exit and swap-out steps, the data/stack resizing plans of `sbrk`/`sstack`/`expand`,
  the initial user stack of `exec` (`exec`), task contexts.
- `src/interrupt/` — the saved trap context and trap classification, system call dispatch, the clock, the
  interrupt controller's register writes.
- `src/tty.rs` — the terminal line discipline (canonical input, echo, erase, signals).
- `src/machine/`, `src/mm/` — page table entries and the kernel's address space,
  address translation, kernel stacks, swap space allocation.
- `src/loader.rs` — ELF executable header checks, segment layout, which segments are
  copied in and the text's write protection in the user page tables.
- `src/serial.rs`, `src/kernel/` — UART byte streams, diagnostics, boot splash
  layout, calendar time.
- `app/` — the machine glue around the library (register access, console printing,
  boot sequence, taking traps and charging clock interrupts, the inode allocation loop
  around the library's steps); it is ordinary Rust and not verified.
- `tests/` — tests of the library on concrete values.

Laws that relate several operations stand in `src/` as public proof functions named
`law_*` (for example `law_block_cached_once`, `law_bmap_stable`,
`law_super_block_bytes_roundtrip`, `law_entry_set_then_get`).
