# bindgen

Collects what a C header declares (structures, unions, enumerations, functions,
variables and type definitions) into the form that bindings are written from.

- `src/` is the library, verified with Verus.
  - `clang`: what libclang says of cursors and types, as plain values.
  - `types`: the declarations and types that bindings are written from.
  - `names`: the map from cursors to declarations.
  - `context`: the state of a run, and the naming of declarations.
  - `convert`: from the types of C to the types that are written.
  - `visit`: what a visit to each cursor of the translation unit adds.
  - `options`: the command line.
  - `run`: the course of a run.
  - `text`: comparing and searching text.
  - `laws`, `option_laws`: what holds of all this as a whole.
- `app/` is the program: it asks libclang, hands the answers to the library, and
  writes down what the library has collected.
- `tests/` runs the library on concrete values.
