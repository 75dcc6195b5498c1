# dgi

A structured logger and the decision logic of a small wgpu/winit shell, written in
Verus.

## Layout

- `src/log/` — the logger's core, verified:
  - `level.rs`: levels (`Level`, also named `Verbosity`), their order and default importance.
  - `text.rs`: character classes, decimal and hexadecimal digits, repetition.
  - `json.rs`: the JSON data of fields, the order of object keys and its check.
  - `escape.rs`, `pretty.rs`: string escaping and the pretty printer used on the console,
    with its layout stated as spec functions.
  - `parse.rs`: a reader of JSON text, as spec functions, and the proof that the pretty
    text with quoted member names reads back as the value it was printed from.
  - `event.rs`: timestamps (through chrono), fields and events.
  - `writers.rs`: the built-in writers' filters, which writers an event goes to, and the
    console's text for an event.
  - `dispatch.rs`: the global level filter and what becomes of an event on a full or
    closed channel.
  - `value.rs`: the field-value wrapper used by the conversion macros.
- `src/shell/` — the shell's decisions, verified: configuration and its equality,
  adapter choice, what each attempt to build the context leads to, the report of failed
  adapters, renewal of the context, frame handling
  and window events.
- `app/` — the program: the formatting thread, channel and global state, the writers'
  output (console, message box, JSON lines), the logging macros, and the winit/wgpu
  shell that follows the library's decisions.
- `tests/` — tests of the library on concrete values.
