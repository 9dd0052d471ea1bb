# lsi-flash

Flashing of LSI SAS2008-family host bus adapters, with the decisions proved.

- `src/` is the library: the messages to a controller and its replies, the doorbell
  handshake, the layout and the checks of a firmware image, the guarded write to the
  flash, backup and restore, the safety checks on attached disks, and what each command
  of the tool decides. Everything in it is verified with Verus; the few calls into
  `sha2`, `hex` and `std` that it trusts stand in `src/digest.rs` and `src/text.rs`.
- `app/` is the `lsi-flash` tool around it: arguments, files, sysfs, the driver of the
  kernel and the mapped registers.
- `tests/` runs the library on given values.

What spans several steps of talking to an adapter is a function from a state and an
event to the next state and an action; the tool performs the action and hands back what
came of it.
