# aligntester-diag

Floppy drive alignment diagnostics for the Greaseweazle flux controller,
with the decoding, bookkeeping and decision logic proved correct in Verus.

## Layout

- `src/` — the verified library.
  - `crc`, `mfm`, `flux`, `synth`: CRC-16/CCITT, MFM cell coding, the
    Greaseweazle flux stream codec and the track synthesiser.
  - `ibm`, `sectors`, `track`: IBM and Amiga sector decoding, timing from
    sector headers and index pulses, expected sector ids and interleave.
  - `readback`, `ibm_readback`: proofs that the sector decoders read a
    track the synthesiser formatted back as all its sectors, good.
  - `fs`: filesystem payloads and their checksums.
  - `diag`, `stats`, `audio`: pass records, history lines, alignment
    statistics and the audio radar.
  - `format_job`: low-level format (with read-after-write verification and
    up to three writes per track) and DC erase, as a state machine that the
    worker drives with the controller's replies.
  - `control`, `process`, `session`: the hardware worker as a state
    machine, the folding of a track read into its state, and the front
    end's state.
  - `protocol`, `drive`, `heads`, `commands`, `cli`, `fmt`, `text`:
    controller packets and enums, timing constants, labels, command-line
    parsing and text helpers.
- `tests/` — tests of the library.
- `app/` — the program around it: serial I/O, the floating-point PLL and
  RPM statistics, terminal beeps, the worker thread and a line-oriented
  console.

Formatting writes blank sectors (filled with 0xE5) in both filesystem
modes: the variant of the synthesiser that lays down an OS-ready
filesystem is not part of this build.
