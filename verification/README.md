# arceus

The verified core of a desktop manager for VR headsets and XIAO BLE
nRF52840 sensor boards.

- `src/` is the library, verified with Verus: every public function states
  what it returns in its `ensures`, and the laws that relate several
  functions are public proof functions (`law_*`, `lemma_*`).
- `tests/` exercise the library on concrete values.
- `app/` holds the input/output around it: serial ports, files, processes.
  It hands plain values to the library and carries out its decisions.
