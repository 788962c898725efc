# incept

A text expander for Linux keyboards. Released keys are logged in a small
circular buffer; when the log ends with the alias of a shortcut, a virtual
keyboard erases the alias and types the expansion.

- `src/` is the verified library (Verus):
  - `keylog` — the circular log of keystrokes and the laws that relate
    logging to reading the log back;
  - `keymap` — Linux key codes, the characters they type, and the keys that
    type a character back;
  - `replace` — which shortcut fires on a key event and the key actions that
    replace its alias by its expansion;
  - `passwd` — reading account lines of `/etc/passwd`;
  - `xml` — where the replacements file lives and the names of its start
    tags, read with quick-xml's pull reader;
  - `text` — string and path helpers.
- `app/main.rs` is the program: it reads the input device (evdev), drives
  the virtual keyboard (uinput), finds the home directory (dirs), reads
  the files and prints.
- `tests/` runs the library on concrete values.
