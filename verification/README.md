# gba-emu

A Game Boy Advance emulator core written in Verus: the ARM7TDMI CPU (ARM and
Thumb instruction sets), the memory map with its I/O registers, interrupts,
timers and DMA, and a scanline PPU that draws the mode 3 bitmap. The program
in `app/` loads a ROM, opens a window and runs the core one frame at a time.

## Layout

- `src/bits.rs` – bit-level helpers (rotations, sign extension, popcount).
- `src/io/` – I/O register bit constants and the KEYINPUT encoding.
- `src/mem_map.rs` – the memory map as a function of the bus state
  (`MemView`): what every byte read returns and what every write changes,
  with the read-after-write, mirroring and alignment laws.
- `src/memory.rs` – the system bus the CPU runs on: memory, I/O registers,
  interrupts, timers and four DMA channels.
- `src/bus.rs` – the same bus without DMA.
- `src/ppu.rs` – scanline timing, V-blank / V-counter requests and the
  bitmap renderers.
- `src/cpu/` – the register file, status register, barrel shifter and ALU
  (`arm7tdmi.rs`), and the ARM (`arm.rs`) and Thumb (`thumb.rs`) decoders.
- `src/system.rs` – one video frame of CPU steps and hardware time.
- `tests/` – scenarios run against the compiled library.

## What is proved

Every instruction handler is specified by a spec function from the CPU and
bus state to the next state and the cycles spent; `Cpu::step` is proved to
compute exactly `cpu_step`, and `run_frame` and `try_run_frame` exactly
`frame_from` (the latter checks the counters before each tick and needs no
precondition beyond a well-formed bus). The bus
operations are specified over `MemView` / `BusView`; the timers, PPU and DMA
engine over spec functions of their state.

A DMA transfer that itself writes the high byte of a DMA control register
can start another transfer from inside the first, and that one another.
The bus follows such nested starts up to `DMA_DEPTH` levels (each level is
a nested call, so this is more than any call stack holds); a start nested
deeper still is configured but not run.
Within that depth the specifications are exact, and no write or tick asks
anything of DMA from its caller.
