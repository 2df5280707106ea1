# colnora

A small assembler and virtual machine, verified with Verus.

A program is a text file with a `.text` section of instructions (`mov %a 5`,
`add %b %a 2`, `push %b`, `bl @f`, `ret`, `sys`, ...) and an optional `.data`
section of named objects (`msg: "hi"`, `n: 300`, `c: 'x'`). The machine has a
480-byte stack, ten general registers, a comparison flag, a link register and
a stack pointer; it runs the program from its `@start` label.

## Layout

- `src/text.rs`, `src/number.rs`: characters, splitting, trimming, decimal
  numbers (reading and writing `i32`).
- `src/reg.rs`, `src/value.rs`, `src/instruction.rs`: registers, operands and
  instructions, how each is read from a line and written back as text.
- `src/assembler.rs`: the sections of a file, its instructions and its data
  objects.
- `src/table.rs`: a small map keyed by character sequences.
- `src/machine.rs`: the machine. `MachineModel` and `exec_inst` / `step_spec`
  / `run_n` say what each instruction and each step does; `Machine::step`,
  `Machine::run` and the loaders are proved against them.
- `src/runnable.rs`: step results, effects and load states.
- `src/app.rs`: the editing state of the interactive front end.
- `app/main.rs`: the command-line runner. It reads the file, prints, and
  carries out the effects a program asks for (printing a number, reading and
  writing file descriptors, ending the process); the machine reports them
  through `Status::Effect`.

Each function in `src/` states its result in `ensures` over these models, and
the `lemma_*` proof functions state the laws that tie them together: text
written for a register, an operand, a number or an instruction reads back as
the same value (an instruction other than a label or `put`, which is
written with the name `pub`); a pop undoes a push; a load reads what a store wrote; a step
never moves labels or data objects; a return goes on right after its call;
every recorded label points at its last label instruction; each data object
lies on the stack where its name points.
