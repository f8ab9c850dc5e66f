# ion

Rust functions and types, callable from a JavaScript engine. The library holds the two parts of this
that decide something:

- From the signature of a native function it makes the statements that bind the function's parameters
  to the arguments of a call: which parameter is the receiver, which arguments are required, how each
  one is converted, and what is reported when one is missing.
- For a native type that is a class, it says step by step what to ask of the engine to make the class
  and its objects, and keeps the registry of the classes that have been made.

The functions of the library have contracts that Verus proves; what a class gives of itself, its
description and its constructor, has none. Where a parser of `syn` decides, the function that asks it
says what holds whatever it answers, and a function beside it says what follows from each answer. The
laws that hold across functions are public proof functions, in `src/laws.rs` and at the end of
`src/class.rs`.

## Layout

- `src/types.rs`, `src/syntax.rs`: types, patterns, attributes and arguments of a signature.
- `src/visitors.rs`: types without their lifetimes, and with `Self` replaced.
- `src/attribute.rs`: the `#[ion(..)]` attributes of a parameter.
- `src/text.rs`, `src/statement.rs`: the source text of literals and statements.
- `src/parameter.rs`, `src/this.rs`, `src/parameters.rs`: a parameter, the receiver, and all the
  parameters of a function.
- `src/class.rs`: classes, their objects and their registry.
- `src/laws.rs`: what holds of the parameters as a whole.
- `app/`: the syntax trees of `syn` on one side, the engine on the other.

## What is trusted

Four calls go into `syn` and `proc_macro2`: those that parse an expression, a statement and a
function argument, and the one that writes a string literal. Each stands in a function of its own.
Of the literal it is claimed that its value is the string that was handed in. Nothing is claimed of
what the parsers answer, since it depends on whether they run inside of a macro.
