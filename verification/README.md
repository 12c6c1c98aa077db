# zielisp

A small Lisp front end, verified with Verus, and the interpreter around it.

- `src/reader.rs`: the S-expression reader (numbers, symbols, bare strings,
  lists) and the reading of lambda arguments `|x|`, each against a grammar
  stated as spec functions.
- `src/sexpr.rs`: S-expressions and their model.
- `src/parser.rs`: translation of S-expressions into the surface language.
- `src/expressions.rs`: the surface language `ExprE` and the core language
  `Expr`.
- `src/desugaring.rs`: translation of the surface language into the core
  language.
- `src/laws.rs`: properties that span several of the steps above.
- `app/main.rs`: the interactive loop and the evaluator, which computes with
  floating-point numbers.

Numbers travel through the library as their numerals; the evaluator turns
them into machine numbers. In a list, elements are separated by runs of
spaces and tabs; a run of blanks right before the closing parenthesis adds
no element.
