# lib — verified core of a small RISC-V kernel

`src/` is verified with Verus:

- `sbicall` — the registers of an SBI call and of its reply.
- `io` — the console protocol (one console-putchar call per byte, decoding
  of console-getchar replies, the erase sequence) and line editing.
- `malloc` — the bump allocator behind the kernel heap.
- `proc` — the process table: creating processes, the cooperative
  scheduling decision and access to saved contexts.
- `trap` — the report the kernel stops with on an unexpected trap.

`app/` is the kernel image around it: boot code, SBI calls, UART writes,
CSR reads, context switches and the global allocator. On a host it runs the
console against the terminal.
