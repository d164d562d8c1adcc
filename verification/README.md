# Nicotine

Window cycling, live previews and hotkeys for several EVE Online clients on one
Windows desktop.

- `src/` is the library: every decision of the tool as a verified function on
  plain values, from the settings file to the order of the cycle and the place
  of a dragged preview.
- `app/` is the program around it. It asks the desktop, hands plain values to
  the library and performs what comes back.
- `tests/` runs the library on concrete values.

Properties that relate several functions are proof functions whose names start
with `law_`. What the library believes of other crates and of the standard
library stands in the items marked `external_body` or `assume_specification`;
each says in its comment what it claims.
