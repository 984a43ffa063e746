# sigma_rust

Verified pieces of an ErgoTree node.

- `validation`, `serialization`, `vlq`: statuses of validation rules and their
  wire form.
- `expr`, `semantics`, `eval`, `value`, `env`, `cost`: evaluation of
  expressions. `semantics` says what an expression evaluates to and what that
  costs; the functions of `eval` are proved to do so.
- `laws`: what holds of every evaluation.
- `autolykos_solution`: text forms of the parts of a mining solution.
- `cost_oracle`: the cost of the scripts of a transaction, input by input.
- `app/`: JSON by serde, the cost oracle over a node, and generators for proptest.

`autolykos_solution` calls `base16`, `num-bigint` and `serde_json` through
private functions whose contracts are taken on trust. Everything else is
proved.
