# fugue

Verified building blocks of a SLEIGH-based instruction lifter, written in
Verus: reading processor descriptions (address spaces, float formats,
constructor templates, pattern expressions, decision trees and pattern
blocks), the context database that tracks processor context across
addresses, the parser state of a lifted instruction, the p-code builder, and
the bit-level helpers they rest on.

Layout:

- `src/` — the verified library.
  - `bits`, `endian`, `text`, `partmap` — masks and extensions of values,
    byte orders, string helpers, and a map from points to values that holds
    over the ranges between them.
  - `sleigh` — processor descriptions: XML documents, elements and
    attributes (`deserialise`), address spaces, float formats, op-codes, constructor
    templates, pattern expressions, and the sub-table structures
    (constructors, decision trees, pattern blocks).
  - `pcode`, `disassembly` — addresses, varnodes and p-code of a described
    processor; handles, symbol headers and the symbols read from their
    elements.
  - `processor` — processor specifications: the program counter and the
    context and tracked registers that are set.
  - `lifter` — the lifter's run-time state: context database, parser input,
    pattern evaluation, the p-code builder, the types of p-code templates
    (with reads of their constants), and the choice of a lifter for a
    language name.
  - `codegen` — lifter generation, as syntax trees that `app/` prints:
    patterns of a processor description lowered through its symbol table
    to the ones a lifter evaluates, and the code generated for them (with
    what it computes); the handles built for symbols; what a lifter holds
    for each operand of a constructor and does with its context changes;
    the declarations of symbols; the spaces and context variables a lifter
    module states; the operations that p-code op-codes map to; and
    generation errors.

Collections: the verified library keeps ordered and keyed collections in
`Vec`s with their order or uniqueness as an invariant, where the standard
library's maps have no specification that the proofs could use: the
points of a `PartMap` (floor lookups need a `range` query, which `BTreeMap`
does not specify), the context variables of the context database (looked
up by a `String` name), the exact and reversed register name tables, and
the name tables of a processor specification (hash maps keyed by strings).
The register intervals stay in `iset`'s `IntervalMap`, and the fixed-size
buffers in `arrayvec`'s `ArrayVec`, behind trusted items.
- `tests/` — tests of the library.
- `app/` — what Verus does not see: files read into the library's
  elements, error types with messages, and byte orders of `fugue-bytes`.
