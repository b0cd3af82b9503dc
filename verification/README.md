# rust_debug

A debugger for embedded Rust programs on ARM Cortex-M targets, with a command
line front end and a Debug Adapter Protocol server. The decisions the debugger
makes are in a library whose behaviour is stated in contracts and proved with
Verus; the probe, the DWARF reader and the terminal stay outside it.

## Layout

- `src/` — the verified library.
  - `text`, `command_table`, `commands_temp`, `newcommands`, `newdebugger`,
    `commands`, `cli`: reading command lines (command names, numbers, hex
    addresses), the command tables and their help texts, breakpoint and
    stepping decisions, the text of memory dumps.
  - `server`, `debug_adapter`: framing of protocol messages
    (`Content-Length` headers), which request a message is, what an `attach`
    asks for, how stack frames and halts are reported.
  - `config`, `debug_handler`: the session's settings and the handling of
    requests before a target is attached; planning hardware breakpoints for
    the lines of a source file; the instructions at the program counter
    (disassembled by `capstone`).
  - `rust_debug`: the line-table search for a breakpoint address, source
    information of a DIE, the byte-level memory and register cache, and the
    evaluator of a variable's value from the pieces of its location and its
    type DIEs (with what it must read first, and that answering those
    requests from the target ends in the value known from the start).
  - `debugger`: the word-level memory and register cache, the debugger's
    evaluator of a variable's value (reading memory word by word, with the
    registers and words added to it) and its answers to the expression
    evaluator's requests, stack unwinding steps over unwind-table rows, the
    choice of the function DIE of a frame, and the variables in scope in a
    frame.
  - `elf`: the data of the sections of an object file, read by `object`.
  - `gimli_test_example`: an experimental debugger's model of DWARF types
    with their sizes and alignments, its evaluator of values along such types
    (structures, members, variant parts), and its command line.
- `app/` — the program: argument handling, the probe, reading the ELF file,
  walking the DWARF data (through `gimli`) into the library's models, the
  TCP server and the terminal.
- `tests/` — tests of the library on concrete values.

Each law the library keeps (for instance, that the evaluators only ask for
registers and memory they do not know, or that a read of the caches gives back
what was written) is a public proof function next to the code it is about.
