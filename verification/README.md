# smyx

A terminal player for Navidrome and other OpenSubsonic servers, whose logic is
verified with [Verus](https://github.com/verus-lang/verus).

## Layout

- `src/` is the library. Its functions have contracts that Verus proves. What they
  rest on without proof are the contracts of three small functions around other
  crates (`read_json_string`, `reads_as_picture`, `split`), the specifications of
  five functions of the standard library, and three names for what outside
  functions return (`json_string`, `is_picture`, `lowercase`).
  - `app`, `events`, `laws`: the state, what keys, clicks and engine events do to
    it, and what holds across them. What has to be done outside comes back as a
    list of `effects`.
  - `models`, `sorting`, `finding`: rows, sections, menus and how lists are
    ordered and searched.
  - `subsonic`, `tasks`, `config`: requests, what is made of replies, and where
    things are stored.
  - `lyrics`, `login_modal`, `theme`, `engine`, `visualizer`: timed lyrics, the
    login form, themes, what the engine reports, and the bands of the visualizer.
  - `ui`: what is drawn where, as a list of drawing commands.
  - `text`, `input`: strings as sequences of characters, and keys.
- `app/` is the program around it: the terminal, the network, files, sound and
  everything in floating point. Its sound output needs the `playback` feature of
  `rodio`, which `Cargo.toml` leaves out because it needs the sound library of the
  system (ALSA on Linux): switch it on where that library is installed.
- `tests/` runs the library on concrete values.

## Keys

```
tab / [ ]      switch section        left right        switch view
up down / j k  move                  enter             play / open
/              search                a                 actions
space          play, pause           n / b             next, previous
shift + arrow  seek                  s                 shuffle
+ / -          volume                R                 repeat
o              sort                  r                 reload
l              like                  t                 theme
L              log in                q                 quit
```

Media keys work while the terminal is focused. A click shows a tab or selects a
row; a double click plays it.
