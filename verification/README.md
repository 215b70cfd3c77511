# uDAP programmer

A CMSIS-DAP programmer built on probe-rs, with a graphical front end and a
command-line tool. This crate holds its logic as a Verus-verified library,
with the hardware and console plumbing around it.

- `src/` — the verified library: option and command parsing, firmware
  format selection, the chip database listings (sorted and de-duplicated
  ignoring ASCII case), progress accounting, and the detect / flash /
  interactive workflows as state machines that ask a driver for one
  hardware action at a time.
- `app/` — the program around it: argument handling, console I/O, the
  probe-rs driver that performs the workflows' requests, and the
  serialisable copies of the data types.
- `tests/` — tests of the library on concrete values.
