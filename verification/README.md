# onnx_ml

Verified logic of the ONNX-ML linear operators (`LinearClassifier`,
`LinearRegressor`, `Normalizer`) and of the symbol scope used for symbolic
dimensions, written in Verus.

## Layout

- `src/` — the library, verified by Verus except for a few trusted
  wrappers around outside code (listed below):
  - `attributes`: post-transform and norm-kind names, parsed and printed.
  - `layout`: transposition, padded tile packing and strided row gathers.
  - `labels`, `classifier`, `regressor`, `normalizer`: dimension
    inference, operator data and its invariants, evaluation plans, and the
    dump/load of each operator.
  - `onnx_model`, `onnx_ops`, `processor`: ONNX nodes and models as plain
    records, read into operators and coefficient sets.
  - `symbols`: the symbol table (over `string-interner`), scenarios and
    scenario guessing, symbol values.
  - `text`: string equality and decimal spelling.
- `tests/` — tests of the library on concrete values.
- `app/` — the program around it: model files decoded with `prost`, the
  `f32` kernels (matmul, softmax, logistic, normalization), the shared
  symbol-scope handle and registry, and a benchmark `main`.

## Trusted wrappers

Verus takes the contracts of these items on trust; each body is one call:

- the symbol table over `string_interner::DefaultStringInterner`
  (`SymbolTable`, `symbol_table_strings`, `table_new`, `table_len`,
  `table_get`, `table_get_or_intern`, `table_resolve`);
- `i64::to_string` and `usize::to_string` (`i64_to_string`,
  `usize_to_string`, stated as decimal spellings);
- `String::from_utf8_lossy` (`utf8_lossy`, with the name `lossy_utf8` for
  the decoded text);
- `str::to_ascii_uppercase` (`to_ascii_uppercase`).

Floating-point arithmetic is not verified; the library fixes every shape,
layout and decision the kernels in `app/` follow.
