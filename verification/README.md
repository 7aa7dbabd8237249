# zjstatus widgets

Widgets of a status bar for a terminal multiplexer, verified with Verus.

- `src/text.rs`: substring search, replacement, splitting and joining of
  character sequences, with the laws that tie them together.
- `src/render.rs`: format strings (`#[fg=3,bold]{name}`), their parts and
  styles, and the ANSI escape sequences a style draws with.
- `src/config.rs`: the configuration map, the multiplexer state the widgets
  read, and on/off options.
- `src/widgets/`: the ancestry, date and time, mode, session and swap layout
  widgets, and the rule that hides a widget in a nested session.
- `app/lib.rs`: conversion from the plugin API's types and the host calls a
  click asks for.
