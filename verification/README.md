# Keystroke

A touch-typing tutor: structured lessons, free practice texts, an on-screen
keyboard that shows which finger types the next character, and a LAN race
mode where two players on the same network type the same text against each
other.

## Layout

* `src/` — the library, verified with Verus:
  * `session.rs` — a typing session: keystrokes, erasing, errors, timing,
    the colouring of the text and the typing hint;
  * `wrap.rs` — breaking the text into display rows at word boundaries;
  * `keyboard_layout.rs` — the six keyboard layouts, finger lookup, and the
    choice of a layout from a Windows KLID;
  * `lessons.rs`, `texts.rs`, `finger.rs` — the course material;
  * `app_state.rs` — the state of the whole tutor (pages, lessons completed,
    the race and its countdown) and how it answers the network;
  * `wire.rs` — the race protocol's text frames, written and read;
  * `peers.rs`, `lobby.rs` — the table of players heard on the network and
    the lobby list built from it;
  * `ids.rs` — player ids;
  * `textutil.rs` — trimming, decimal and hex text.
* `app/` — the program around it: the window (Slint), the clock, sockets and
  threads, keyboard-layout detection on Windows, and the floating-point
  scores (words per minute, accuracy).
* `tests/` — tests of the library.
