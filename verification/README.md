# chip8

A CHIP-8 virtual machine whose instruction set is verified with Verus.

- `src/machine.rs`: the mathematical model of the machine (`Machine`), the
  decoding of opcodes into instructions (`decode`) and what each instruction
  does (`apply`) and when it can run without a fault (`permitted`).
- `src/cpu.rs`: the executable processor (`Cpu`); every operation is proved
  to act on `Cpu@` exactly as the model says.
- `src/display.rs`: the 64 x 32 frame buffer and its scaled rendering.
- `src/keypad.rs`: the mapping of host keys onto the hexadecimal keypad.
- `src/draw.rs`: lemmas behind the proof of sprite drawing.
- `src/laws.rs`: properties that span several instructions.
- `src/rng.rs`: the random number source (trusted wrapper around `rand`).
- `app/main.rs`: the window, keyboard, file and timing loop (`minifb`).
