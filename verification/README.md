# micyou_voice_typing

Voice-typing plugin logic for the MicYou desktop host: sentences broadcast by
the WhatdidIsay transcriber are typed into the focused window when they fall
inside the window in which a global hotkey was active.

* `src/` — the verified library (Verus). Every decision is made here: the
  broadcast format, the time-window state machine, the hotkey grammar and
  engine, the typed key sequence, WAV layout parsing, overlay placement,
  host-message routing and configuration handling. Contracts are stated over
  sequences and spec functions; the laws (session windows, combo safety,
  display round trip, edge triggering) are proof functions next to the code
  they speak of.
* `app/` — the plugin ABI around it: host callback table, threads, the
  low-level keyboard hook, `SendInput`, `PlaySoundA`, the overlay window and
  the floating-point volume scaling of prompt sounds.
* `tests/` — executable tests of the library.
