# rustautogui

The verified core of a desktop-automation library for Windows.

- `src/` is the library, verified with Verus: which mouse events a click,
  press, release, scroll or drag sends; where a timed cursor movement puts the
  cursor at each moment; how a screen capture is stored, turned into an RGBA or
  grayscale image, and cut to a region.
- `app/` makes the operating-system calls (cursor position, `SendInput`, GDI
  screen capture, saving files) and hands their results to the library.
- `tests/` runs the library on concrete values.
