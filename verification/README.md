# snake

A terminal snake game whose rules are verified with Verus.

- `src/` is the verified library:
  - `codec` — little-endian `i32` bytes;
  - `ids` — snake identifiers (UUID bytes) and their mixed-endian sent form;
  - `point` — points, headings, body parts and their bytes;
  - `snake` — moving and turning a snake, and its bytes;
  - `game` — a game: starting it, one tick of play, game over, and the byte
    form exchanged with the server, with the proof that reading back the
    bytes of a game gives the game;
  - `render` — which glyph goes to which terminal cell in a frame.
- `app/` is the program around it: the terminal, the keyboard, the
  configuration file and the UDP exchange with the server.
- `tests/` exercise the library on concrete values.
