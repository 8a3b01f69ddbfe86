# osdev

A small x86-64 operating system — a UEFI bootloader and a kernel — whose logic is
written in Verus and proved against its contracts.

## Layout

- `src/bootloader/` — ELF parsing (`elf`), laying the kernel out in 2 MiB pages and
  the other boot-time computations (`loader`), the bootloader's page allocator and
  page-table building (`paging`), the text console (`writer`) and UCS-2 strings
  (`utf16`).
- `src/kernel/` — the frame allocator, page-table mapper and heap entries
  (`memory`), the PS/2 controller and keyboard driver (`ps2`), the PATA disk
  driver's decisions (`pata`), interrupt-controller masks (`pic`), graphics
  (`graphics`), the USB 3 controller's registers and context structures (`usb`),
  and a lock (`spinlock`).
- `src/common/` — what the bootloader hands the kernel, the glyph renderer
  (`text`) and the scrolling console (`writer`).
- `src/paging.rs` — the page-table types of the `x86_64` crate, reached through
  trusted wrappers whose contracts state what the crate does.
- `src/tools/` — turning a 128×128 grey image into the console font.
- `app/` — the glue around the library: port I/O, firmware calls, writing page
  tables and pixels to memory, and the font converter's `main`.
- `tests/` — tests of the library on concrete values.

Page tables, framebuffers and device registers are held as values: the library
decides what they become, and `app/` copies them to and from the hardware.
