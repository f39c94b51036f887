# flurry

The core of Flurry, a PC client that shows the screens of a 3DS streamed over WiFi,
written in Verus: every function states what it does and is proved to do so.

- `src/` is the library.
  - `v1`, `legacy`, `v2`: the wire protocols.
  - `worker`, `picture`, `jpeg`, `layout`: packets in, screens out.
  - `client`, `settings`, `profile`, `meter`: what the window decides.
  - `bench`, `quality`, `order`, `single`: the benchmark and its figures.
  - `text`, `wire`: texts and little-endian integers.
  - The `laws` modules hold what is true of several functions together.
- `tests/` runs the library on concrete values.
- `app/` is the window, the sockets and threads, the profile file, and the
  floating-point arithmetic.

Three calls are taken on trust, each behind a function whose comment says what is
claimed of it: decoding JPEG (`zune_jpeg`), encoding PNG (`png`), and reading bytes
as text (`String::from_utf8_lossy`).
