# syobon_quicksave

Quick save and quick load for Syobon Action (Cat Mario): a DLL injected into
the game saves two fixed regions of its memory on one hot key and writes them
back on another; a small window chooses the keys; an injector loads the DLL
into the running game.

The library (`src/`) holds what these programs decide, each function with a
contract proved by Verus:

- `config` — the `quicksave.cfg` format: reading keys from it, writing it,
  and the proof that a written file reads back to the same keys.
- `keys` — sampled key states and key names for the settings window.
- `quicksave` — the DLL's decisions: the save slot, hot-key edge detection,
  the search for the game window, loader notifications, the overlay text.
- `capture` — the settings window's buttons and key capture.
- `inject` — finding the game process, the DLL path bytes, and what to
  release when an injection step fails.
- `numfmt`, `text`, `utf16` — number formatting and parsing, trimming, UTF-16.
- `trusted` — the few items whose contracts are assumed: windows-sys
  constants and std functions that vstd does not specify.

`app/` is the Windows side (Win32 calls, memory access, files), which Verus
does not see.
