# sc4_setup

The verified core of a web checklist for setting up SimCity 4: it judges the
pasted Windows and device specification reports, reads the file version out
of the game's executable, checks the game's document folder for an empty
`Plugins` folder, and decides which checklist steps are unlocked.

- `src/` — the library, verified with Verus.
- `tests/` — tests of the library on concrete inputs.
- `app/` — the web page (DOM, browser file and folder access) around the
  library.
