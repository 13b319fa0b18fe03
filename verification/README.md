# disasm8086

A verified disassembler for the 8086 `mov` instructions.

- `src/fields.rs` extracts the bit fields of instruction bytes.
- `src/names.rs` names registers and effective-address equations.
- `src/decode.rs` decodes byte streams in three dialects into listings.
- `src/numbers.rs` and `src/render.rs` turn instructions and faults into text.
- `src/laws.rs` proves properties that span the decoders.
- `app/main.rs` reads a file, prints the listing and stops on a fault.
