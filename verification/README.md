# pliron_mlir_interop

Translation of an IR (types, attributes, and operations with their nested
regions and blocks) into MLIR's generic textual syntax, verified with Verus.

- `src/ir.rs`: the IR the printers read, as plain values. Other dialects'
  types, attributes and ops translate through its `Custom` variants.
- `src/printers.rs`: the dispatchers (`print_op`, `print_type`,
  `print_attr`), the `GenericOp` builder for MLIR's generic operation syntax,
  and the literal formatters. Each printer's contract gives, as a spec
  function, the exact text it appends, or the error it stops with and the
  text it appended before.
- `src/builtin/`, `src/llvm/`: the translations of the builtin and LLVM
  dialects' types, attributes and ops.
- `src/laws.rs`: properties that hold for every input, such as string
  literals reading back as their bytes and GEP indices losing nothing.
- `src/text.rs`: decimal and hexadecimal numerals.
- `app/`: reads pliron IR into the plain values of `src/ir.rs` and provides
  `MlirPrinter`, which implements `Display`.
