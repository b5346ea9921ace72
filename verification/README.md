# lib — verified passes of the Kata front end

A Verus library holding parts of the Kata compiler's middle end: the
desugaring passes, custom directives, unification of generic parameters,
the decisions of type inference once the operands are typed (type
ascription, dot access, applications and action calls), smart
constructors and the module-level checks, the templates of `@log` and
`format`, cycle detection between actions, and a number of smaller
readings of syntax trees. Each public function carries a contract over a
mathematical view of its inputs, and `*_laws.rs` modules prove what holds
across calls.

## Layout

- `src/ast.rs`, `src/tast.rs`, `src/ty.rs`: the surface tree, the typed
  tree and the type language, with their views and deep copies.
- `src/desugar.rs`, `src/desugar_laws.rs`: the pipe and hole passes.
- `src/directives.rs`, `src/directives_laws.rs`: inlining of `@directive`
  bodies by hook (enter, exit, short-circuit, transform).
- `src/subst.rs`, `src/registry.rs`, `src/generics.rs`, `src/unify_laws.rs`,
  `src/tyops.rs`, `src/channels.rs`: substitutions, unification and the
  type relations inference uses.
- `src/ascription.rs`, `src/dot_access.rs`, `src/action_call.rs`,
  `src/apply.rs`: type ascription over a struct registry, `.field` / `.N`
  access, the routing, argument shape and dispatch-table result of
  `callee!(args)`, and the callee and function-value calls of `f args`.
- `src/constructors.rs`, `src/module_checks.rs`: smart constructors of
  structs and aliases, and the module-level checks (refines bases,
  constant names, the entry point).
- `src/log_template.rs`, `src/log_synthesis.rs`, `src/format.rs`: message
  templates and their diagnostics.
- `src/cycle.rs`, `src/suggest.rs`, `src/guards.rs`, `src/dict_args.rs`,
  `src/const_eval.rs`, `src/expr_utils.rs`, `src/text.rs`: the rest.
- `tests/`: scenarios run against the compiled library.
- `app/`: constant evaluation over floating point, which stays outside
  the verified library.
