# egui_term

The core of a terminal widget: the state behind an embedded terminal, what
keyboard and mouse events do to it, how its contents are searched, copied and
laid out for painting. It is written in Verus: the functions state what they do
and are proved to do it, down to the calls into the crates that the library
builds on.

The emulator is `alacritty_terminal`. The library calls it through the functions
marked `external_body` in `src/terminal.rs`, each of which makes one call and
says over `term_model`, the model of a terminal, what that call does. A few more
such functions, for `egui`'s keys and modifiers and for the standard library,
stand next to their callers. What these functions claim is believed, not proved:
everything else rests on it.

## Layout

- `src/terminal.rs`: the emulator and its model.
- `src/backend.rs`: the state behind the widget and the commands that change it.
- `src/search.rs`, `src/text.rs`: searching and copying.
- `src/sequence.rs`: how far written bytes have got into an escape sequence.
- `src/report.rs`: mouse reports.
- `src/keyboard.rs`, `src/mouse.rs`, `src/input.rs`: what events come to.
- `src/highlight.rs`, `src/paint.rs`, `src/view.rs`: what a frame shows.
- `src/clock.rs`: when to ask for a repaint.
- `src/laws.rs`: what holds of the library as a whole.
- `tests/`: the library at work on real terminals.
- `app/`: the `egui` widget around the library, with its processes, sockets,
  locks and pixels.
