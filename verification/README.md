# kernel_core

The verified core of a small x86_64 UEFI kernel, written in Verus.

`src/` is the library. Every function in it carries a contract, and Verus
proves all of them except the two wrappers around outside functions: the
base64 encoder that `HashVariant::hash` calls and `usize::reverse_bits`.
Their contracts are believed, as the outside source and documentation state
them.

- `calendar`, `rtc`: Gregorian day counting from the Unix epoch, BCD
  encoding, decoding of the CMOS clock registers into Unix time and the
  register writes that set the clock.
- `tsc`, `clock`, `timer`: time-stamp counter calibration and conversion of
  counter readings to time.
- `logger`, `text`: the bounded kernel log ring with stable record ids, its
  iterator, the short text form of a record and the serial frame of a
  serialised record.
- `result`: `Wirt`, a result that carries warnings and the trail of places an
  error went through.
- `range`: memory ranges over any unsigned integer type and allocation
  bookkeeping.
- `apic`: local APIC register locations, interrupt command words, error
  status decoding and the setup sequence.
- `gop`: display mode choice by aspect ratio, pixel offsets and Bresenham
  lines.
- `cpu_flags`: numbering of nested CPU feature flags and the detection
  cache.
- `boot`: watched entry points, the GS area, placement of the main kernel
  structure, the boot entropy and the once-only interrupt helper.
- `version`: build metadata, hash names, hexadecimal decoding and feature
  lists.

`app/` holds what runs against the hardware and the firmware: port and MSR
access, memory-mapped registers, the serial line, locks and globals, floating
point colours and the entry point. `tests/` runs the library on concrete
values.

Not here:

- Loading the DSDT into an AML interpreter: it needs the `acpi` crate, which
  does not build with the stable toolchain used here, and the kernel's ACPI
  table handler, whose sources are not here.
- Verus does not take user destructors (`Drop`), so a `Wirt` error dropped
  without being looked at is not reported, and the warnings a `Wirt`
  carries are not logged when it is unwrapped; both were log output only.
- The memory check and the console font of the kernel have no sources
  here.
