# umbra

The verified core of the UMBRA agent system, written in Verus.

- `src/` is the library. Every function there carries a `requires`/`ensures`
  contract that Verus proves; the public `lemma_*` proof functions state the
  laws that hold across calls (cache reads after writes, bounded histories,
  voice-activity hysteresis, cooling of moods, round trips of cookies,
  percent-encoding and sealed customization files, and others).
- `tests/` runs the library on concrete values.
- `app/` is the HTTP server and the I/O around the library: files under
  `~/.umbra`, outside HTTP services, local speech tools, and the parts of the
  agents, audio and trading code that compute with floating point.
