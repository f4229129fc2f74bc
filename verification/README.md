# cplp

The decision logic of a live-performance jam-session system for CLAP
plugins, written in Verus with its contracts proved.

- `src/` — the verified library: the routing graph (`audio_graph`), the
  mixer with last-writer-wins updates (`mixer`), the audio packet format
  (`packet`), sample interleaving (`interleave`), the band member's command
  language and sequencer (`parser`, `sequencer`, `session`), MIDI decoding
  and the note queues (`midi_input`), voice allocation (`voices`), the HUD's
  widget state machines and signal-flow display (`ui`, `signal_flow`), the
  gig scene graph (`scene`), the C-interface decisions (`bridge`), the
  language-model answer handling (`llm`) and the user a lobby token names
  (`token`).
- `app/` — the command-line program around it: argument handling, I/O,
  the HTTP client, JSON, logging and the floating-point audio and display
  arithmetic.
- `tests/` — tests of the library.

Floating-point values cross into the library as their bit patterns
(`f32::to_bits`), and the arithmetic on them stays in `app/`.
