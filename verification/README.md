# rusticos

The verified core of RusticOS, a small x86_64 hobby kernel with a graphical
desktop.

- `src/` is the library, checked by Verus: GDT and IDT descriptors, the
  processor brand string, TSC timekeeping, PCI configuration addresses, the
  boot console and its draw queue, physical memory layout and the decisions of
  a four-level page walk, xHCI register values, and the window manager
  (windows, glyph blending, the glyph cache and the compositor).
- `app/` is the kernel around it: the Limine requests, inline assembly, port
  and memory-mapped I/O, interrupt handlers, font rasterisation with
  `ab_glyph`, and the global state behind `spin` locks.
- `tests/` runs the library on concrete values.
