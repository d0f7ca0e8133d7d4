# rust_less

The verified pieces of a LESS-to-CSS compiler, with Verus. The parser
and the compiler driver that would tie them into a whole compilation are
not part of this crate; each piece takes the values that driver would
hand it (compiled selector text, evaluated declaration values, the
rendered output of nested statements).

- `src/` is the verified library: the lexer, CSS selectors and their
  specificity, units and named colours, errors, `:extend` bookkeeping,
  media-query header mappings and merging, selector nesting and the
  selectors a rule is written under, the text of rule blocks and queued
  media blocks (pretty and compressed) and the regrouping of media blocks
  nested in rules, the variables of at-rule preludes,
  mixin argument binding and the order of mixin candidates, import file
  names and once-only imports, hex colours, map-key comparison, the text
  helpers of the language server, and source-map generation on top of the
  `sourcemap` crate. Every public function states its result in its
  contract (where the platform answers, as for file names, it states what
  holds of every answer); the `lemma_*` proof functions state the laws that
  relate several functions.
- `tests/` runs the library on concrete inputs.
- `app/` holds the program's entry point and the value model that carries
  floating-point numbers (expressions, colours and dimensioned numbers),
  with the operators and value printing on it, which stay outside the
  verified code.
