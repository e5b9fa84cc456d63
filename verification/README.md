# pocket_calibre

The verified core of a PocketBook client for a calibre content server.

- `src/` is the library, proved with Verus:
  - `text`: trimming, splitting, joining, decimal numbers;
  - `config`: the settings, their defaults, the settings file's text and
    places, and file names for downloaded books;
  - `settings`: the settings screen and the on-screen keyboard's answers;
  - `pager`: the paged book list, with its covers and download states;
  - `cover`: JPEG covers decoded to RGB (with the `image` crate);
  - `worker`: the background worker as a state machine whose outside steps
    (network, server) are requests carried out by its caller;
  - `net`: the decisions around the reader's network calls.
- `app/` holds pieces of the device side: the TOML settings file (serde),
  the reader's network calls (inkview), the worker's thread loop (which
  hands each request to a function given by its caller, since the calibre
  server client is not part of this crate), and C maths functions missing
  from the reader's C library. The screen (Slint) is not part of it.
- `tests/` runs the library on concrete values.
