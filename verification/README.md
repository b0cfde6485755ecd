# Edge Glow

A terminal chat client for Google AI Studio and Ollama models. It talks to the
model through a bridge process, one line of JSON per event, and renders the
Markdown of the answer live.

- `src/` is the library: the JSON of the bridge, the command line, the chat
  commands, the renderer, and everything that is printed. It performs no input
  or output, and its functions are verified with Verus against their contracts.
  Three calls of the standard library are trusted, with the contracts that stand
  above them: `String::push`, `char::from_u32` and `str::to_lowercase`.
- `src/*_laws.rs`, and the functions named `law_*` elsewhere, state what holds
  of the library as a whole.
- `app/` is the program around it: the terminal, the line editor, the
  environment and the bridge process.
- `tests/` runs the library on concrete values.
