# chip8_vm

A CHIP-8 virtual machine whose core is verified with Verus.

- `src/constants.rs`: sizes, addresses and the built-in font.
- `src/instruction.rs`: the 34 instructions and the decoding of opcodes.
- `src/machine.rs`: the mathematical model of the machine (`MachineState`)
  and the meaning of each instruction, of a cycle and of a timer step.
- `src/cpu.rs`: the executable machine `CPU`, proved to follow the model,
  including the 60 Hz frame (ten cycles, then one timer step).
- `src/rng.rs`: the random generator of `CXNN`, seeded once from the
  system's entropy source.
- `src/laws.rs`: properties that span instructions and cycles.
- `app/main.rs`: the emulator program (window, keyboard, ROM file, beep).
